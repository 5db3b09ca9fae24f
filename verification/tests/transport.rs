use debug_service::transport::espi::{
    DebugChannel, EspiDebugMessage, DEBUG_CHANNEL_CAPACITY, MAX_DEBUG_FRAME_SIZE,
};
use debug_service::{create_default_transport, DebugTransport, EspiTransport, TransportError};

fn fill(channel: &mut DebugChannel, count: usize) {
    for i in 0..count {
        let message = EspiDebugMessage::from_frame(&[i as u8]).unwrap();
        assert!(channel.try_send(message));
    }
}

#[test]
fn new_channel_is_empty() {
    let mut channel = DebugChannel::new();
    assert!(channel.try_receive().is_none());
}

#[test]
fn sent_frame_is_received_whole_on_the_debug_port() {
    let mut channel = DebugChannel::new();
    let mut transport = EspiTransport::new();
    assert!(transport.send(b"hello", &mut channel).is_ok());
    let message = channel.try_receive().unwrap();
    assert_eq!(message.bytes(), b"hello");
    assert_eq!(message.data.as_slice(), b"hello");
    assert_eq!(message.port, 0);
    assert!(channel.try_receive().is_none());
}

#[test]
fn frame_of_the_largest_size_is_sent() {
    let mut channel = DebugChannel::new();
    let frame = vec![0xA5u8; MAX_DEBUG_FRAME_SIZE];
    assert_eq!(MAX_DEBUG_FRAME_SIZE, 1024);
    assert!(EspiTransport::with_config().send(&frame, &mut channel).is_ok());
    assert_eq!(channel.try_receive().unwrap().bytes(), frame.as_slice());
}

#[test]
fn frame_over_the_largest_size_is_refused() {
    let mut channel = DebugChannel::new();
    let frame = vec![0xA5u8; MAX_DEBUG_FRAME_SIZE + 1];
    let sent = EspiTransport::default().send(&frame, &mut channel);
    assert!(matches!(sent, Err(TransportError::BufferFull)));
    assert!(channel.try_receive().is_none());
    assert!(EspiDebugMessage::from_frame(&frame).is_none());
}

#[test]
fn empty_frame_is_sent() {
    let mut channel = DebugChannel::new();
    assert!(create_default_transport().send(b"", &mut channel).is_ok());
    assert_eq!(channel.try_receive().unwrap().bytes(), b"");
}

#[test]
fn full_channel_refuses_and_keeps_what_it_holds() {
    let mut channel = DebugChannel::new();
    assert_eq!(DEBUG_CHANNEL_CAPACITY, 32);
    fill(&mut channel, 31);
    let mut transport = create_default_transport();
    assert!(transport.send(&[31], &mut channel).is_ok());
    let sent = transport.send(&[99], &mut channel);
    assert!(matches!(sent, Err(TransportError::BufferFull)));
    let message = EspiDebugMessage::from_frame(&[99]).unwrap();
    assert!(!channel.try_send(message));
    for i in 0..32u8 {
        assert_eq!(channel.try_receive().unwrap().bytes(), &[i]);
    }
    assert!(channel.try_receive().is_none());
}

#[test]
fn receive_makes_room() {
    let mut channel = DebugChannel::new();
    fill(&mut channel, 32);
    assert_eq!(channel.try_receive().unwrap().bytes(), &[0]);
    assert!(EspiTransport::new().send(&[32], &mut channel).is_ok());
    for i in 1..33u8 {
        assert_eq!(channel.try_receive().unwrap().bytes(), &[i]);
    }
}

#[test]
fn cloned_message_is_the_same_message() {
    let mut message = EspiDebugMessage::from_frame(b"copy me").unwrap();
    message.port = 3;
    let copy = message.clone();
    assert_eq!(copy.bytes(), b"copy me");
    assert_eq!(copy.port, 3);
}

#[test]
fn received_and_waiting_messages_are_the_taken_ones_in_order() {
    let mut channel = DebugChannel::new();
    let mut taken = Vec::new();
    let mut received = Vec::new();
    for i in 0..100u8 {
        if channel.try_send(EspiDebugMessage::from_frame(&[i]).unwrap()) {
            taken.push(i);
        }
        if i % 3 == 0 {
            received.push(channel.try_receive().unwrap().bytes()[0]);
        }
    }
    assert!(taken.len() < 100);
    let before = received.len();
    while let Some(message) = channel.try_receive() {
        received.push(message.bytes()[0]);
    }
    assert!(received.len() - before <= DEBUG_CHANNEL_CAPACITY);
    assert_eq!(received, taken);
}
