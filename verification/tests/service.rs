use debug_service::service::{drain_frames, DrainReport, EndpointID, Internal, MailboxDelegateError};
use debug_service::transport::espi::{DebugChannel, EspiDebugMessage};
use debug_service::{DebugRxMessage, DebugTransport, EspiTransport, Service};

fn requested() -> Service {
    let mut service = Service::new();
    assert_eq!(service.receive(Some(DebugRxMessage::GetDataBuffer)), Ok(()));
    service
}

fn received(channel: &mut DebugChannel) -> Vec<Vec<u8>> {
    let mut all = Vec::new();
    while let Some(message) = channel.try_receive() {
        assert_eq!(message.port, 0);
        all.push(message.bytes().to_vec());
    }
    all
}

#[test]
fn service_is_the_internal_debug_endpoint() {
    assert_eq!(Service::new().endpoint, EndpointID::Internal(Internal::Debug));
    assert_eq!(Service::default().endpoint, EndpointID::Internal(Internal::Debug));
}

#[test]
fn message_that_is_no_request_is_refused() {
    let mut service = Service::new();
    assert_eq!(service.receive(None), Err(MailboxDelegateError::MessageNotFound));
    let mut channel = DebugChannel::new();
    assert_eq!(service.process(&[vec![1]], &mut channel), None);
    assert!(channel.try_receive().is_none());
}

#[test]
fn message_that_is_no_request_leaves_a_request_noted() {
    let mut service = requested();
    assert_eq!(service.receive(None), Err(MailboxDelegateError::MessageNotFound));
    let mut channel = DebugChannel::new();
    assert!(service.process(&[], &mut channel).is_some());
}

#[test]
fn request_flushes_the_frames_in_order() {
    let mut channel = DebugChannel::new();
    let frames = vec![b"one".to_vec(), b"".to_vec(), b"three".to_vec()];
    let report = requested().process(&frames, &mut channel);
    let expected = DrainReport { frames: 3, bytes: 8, too_large: 0, channel_full: 0 };
    assert_eq!(report, Some(expected));
    assert_eq!(received(&mut channel), frames);
}

#[test]
fn request_is_served_once() {
    let mut service = requested();
    assert!(service.receive(Some(DebugRxMessage::GetDataBuffer)).is_ok());
    let mut channel = DebugChannel::new();
    assert!(service.process(&[vec![1]], &mut channel).is_some());
    assert!(service.process(&[vec![2]], &mut channel).is_none());
    assert_eq!(received(&mut channel), vec![vec![1]]);
}

#[test]
fn request_among_other_messages_is_not_lost() {
    let mut service = Service::new();
    for request in [None, Some(DebugRxMessage::GetDataBuffer), None, None] {
        assert_eq!(service.receive(request).is_ok(), request.is_some());
    }
    let mut channel = DebugChannel::new();
    assert!(service.process(&[vec![5]], &mut channel).is_some());
    assert_eq!(received(&mut channel), vec![vec![5]]);
}

#[test]
fn flush_of_no_frames_forwards_nothing() {
    let mut channel = DebugChannel::new();
    let report = requested().process(&[], &mut channel);
    let expected = DrainReport { frames: 0, bytes: 0, too_large: 0, channel_full: 0 };
    assert_eq!(report, Some(expected));
    assert!(channel.try_receive().is_none());
}

#[test]
fn frame_that_is_too_large_is_dropped_and_the_rest_goes_on() {
    let mut channel = DebugChannel::new();
    let frames = vec![vec![1; 1024], vec![2; 1025], vec![3; 1]];
    let report = requested().process(&frames, &mut channel);
    let expected = DrainReport { frames: 3, bytes: 2050, too_large: 1, channel_full: 0 };
    assert_eq!(report, Some(expected));
    assert_eq!(received(&mut channel), vec![vec![1; 1024], vec![3; 1]]);
}

#[test]
fn frames_beyond_the_room_in_the_channel_are_dropped() {
    let mut channel = DebugChannel::new();
    for i in 0..30u8 {
        assert!(channel.try_send(EspiDebugMessage::from_frame(&[i]).unwrap()));
    }
    let frames = vec![vec![30], vec![0; 2000], vec![31], vec![32], vec![33]];
    let report = requested().process(&frames, &mut channel);
    let expected = DrainReport { frames: 5, bytes: 2004, too_large: 1, channel_full: 2 };
    assert_eq!(report, Some(expected));
    let all = received(&mut channel);
    assert_eq!(all.len(), 32);
    for i in 0..32u8 {
        assert_eq!(all[i as usize], vec![i]);
    }
}

#[test]
fn flush_to_a_full_channel_drops_everything() {
    let mut channel = DebugChannel::new();
    let first: Vec<Vec<u8>> = (0..40u8).map(|i| vec![i]).collect();
    let report = requested().process(&first, &mut channel).unwrap();
    assert_eq!(report.channel_full, 8);
    let report = requested().process(&[vec![99], vec![98]], &mut channel).unwrap();
    assert_eq!(report.channel_full, 2);
    assert_eq!(received(&mut channel), first[..32].to_vec());
}

#[test]
fn two_flushes_are_one_flush_of_all_frames() {
    let a: Vec<Vec<u8>> = (0..20u8).map(|i| vec![i; 2]).collect();
    let b: Vec<Vec<u8>> = (20..40u8).map(|i| vec![i; 3]).collect();
    let mut twice = DebugChannel::new();
    requested().process(&a, &mut twice);
    requested().process(&b, &mut twice);
    let mut once = DebugChannel::new();
    let all: Vec<Vec<u8>> = a.into_iter().chain(b).collect();
    requested().process(&all, &mut once);
    assert_eq!(received(&mut twice), received(&mut once));
}

#[test]
fn sending_a_frame_is_flushing_that_frame() {
    for len in [0usize, 1, 1024, 1025] {
        let frame = vec![7u8; len];
        let mut sent = DebugChannel::new();
        let ok = EspiTransport::new().send(&frame, &mut sent).is_ok();
        let mut flushed = DebugChannel::new();
        let report = requested().process(&[frame], &mut flushed).unwrap();
        assert_eq!(ok, report.too_large == 0);
        assert_eq!(received(&mut sent), received(&mut flushed));
    }
}

#[test]
fn request_is_taken_once() {
    let mut service = requested();
    assert!(service.take_request());
    assert!(!service.take_request());
    let mut channel = DebugChannel::new();
    assert_eq!(service.process(&[vec![1]], &mut channel), None);
    assert_eq!(service.endpoint, EndpointID::Internal(Internal::Debug));
}

#[test]
fn request_that_comes_during_a_flush_is_served_next() {
    let mut service = requested();
    assert!(service.take_request());
    assert!(service.receive(Some(DebugRxMessage::GetDataBuffer)).is_ok());
    let mut channel = DebugChannel::new();
    drain_frames(&[vec![1]], &mut channel);
    assert!(service.take_request());
    drain_frames(&[vec![2]], &mut channel);
    assert_eq!(received(&mut channel), vec![vec![1], vec![2]]);
}

#[test]
fn draining_frame_by_frame_is_draining_them_all() {
    let frames: Vec<Vec<u8>> = (0..40usize).map(|i| vec![i as u8; i * 40]).collect();
    let mut whole = DebugChannel::new();
    let report = drain_frames(&frames, &mut whole);
    assert_eq!(report, DrainReport { frames: 40, bytes: 31200, too_large: 14, channel_full: 0 });
    let mut single = DebugChannel::new();
    for i in 0..frames.len() {
        drain_frames(&frames[i..i + 1], &mut single);
    }
    assert_eq!(received(&mut whole), received(&mut single));
}
