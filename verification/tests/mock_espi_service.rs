use debug_service::mock_espi_service::{
    drain_into_staging, is_data_ready, Handled, MockEspiService, Stats, STAGING_CAPACITY,
};
use debug_service::transport::espi::EspiDebugMessage;
use heapless::Vec as HeaplessVec;

type Staging = HeaplessVec<u8, STAGING_CAPACITY>;

fn enqueue_test_bytes(ring: &mut Vec<Vec<u8>>, bytes: &[u8]) {
    ring.push(bytes.to_vec());
}

fn single_drain_into(ring: &mut Vec<Vec<u8>>, staging: &mut Staging) -> (u32, u32) {
    let frames: Vec<Vec<u8>> = ring.drain(..).collect();
    drain_into_staging(staging, &frames)
}

fn message(bytes: &[u8]) -> EspiDebugMessage {
    EspiDebugMessage::from_frame(bytes).unwrap()
}

#[test]
fn drains_defmt_frames_into_staging() {
    let mut ring = Vec::new();
    enqueue_test_bytes(&mut ring, b"espi-frame-1");
    enqueue_test_bytes(&mut ring, b"espi-frame-2-xxxx");

    let mut staging: Staging = HeaplessVec::new();
    let (_frames, bytes) = single_drain_into(&mut ring, &mut staging);

    assert!(bytes as usize <= staging.len());
    assert!(staging.len() > 0, "expected staged data");
}

#[test]
fn staging_holds_the_frames_in_order() {
    let mut staging: Staging = HeaplessVec::new();
    let frames = vec![b"espi-frame-1".to_vec(), b"espi-frame-2-xxxx".to_vec()];
    assert_eq!(drain_into_staging(&mut staging, &frames), (2, 29));
    assert_eq!(staging.as_slice(), b"espi-frame-1espi-frame-2-xxxx");
}

#[test]
fn staging_fills_up_to_its_capacity() {
    assert_eq!(STAGING_CAPACITY, 16 * 1024);
    let mut staging: Staging = HeaplessVec::new();
    let frames = vec![vec![1; 16000], vec![2; 384]];
    assert_eq!(drain_into_staging(&mut staging, &frames), (2, 16384));
    assert_eq!(staging.len(), 16384);
    assert_eq!(staging[0], 1);
    assert_eq!(staging[16383], 2);
}

#[test]
fn frame_without_room_displaces_what_is_staged() {
    let mut staging: Staging = HeaplessVec::new();
    let frames = vec![vec![1; 16000], vec![2; 385], vec![3; 5]];
    assert_eq!(drain_into_staging(&mut staging, &frames), (3, 16390));
    assert_eq!(staging.len(), 390);
    assert_eq!(staging[0], 2);
    assert_eq!(staging[389], 3);
}

#[test]
fn frame_larger_than_staging_leaves_it_empty() {
    let mut staging: Staging = HeaplessVec::new();
    let frames = vec![vec![1; 10], vec![2; 16385]];
    assert_eq!(drain_into_staging(&mut staging, &frames), (2, 16395));
    assert_eq!(staging.len(), 0);
}

#[test]
fn two_drains_are_one_drain_of_all_frames() {
    let a = vec![vec![1; 9000], vec![2; 6000]];
    let b = vec![vec![3; 3000], vec![4; 2000]];
    let mut twice: Staging = HeaplessVec::new();
    drain_into_staging(&mut twice, &a);
    drain_into_staging(&mut twice, &b);
    let mut once: Staging = HeaplessVec::new();
    let all: Vec<Vec<u8>> = a.into_iter().chain(b).collect();
    drain_into_staging(&mut once, &all);
    assert_eq!(twice.as_slice(), once.as_slice());
    assert_eq!(once.len(), 5000);
}

#[test]
fn only_the_exact_marker_is_the_marker() {
    assert!(is_data_ready(&message(b"DATA_READY")));
    assert!(!is_data_ready(&message(b"DATA_READ")));
    assert!(!is_data_ready(&message(b"DATA_READY!")));
    assert!(!is_data_ready(&message(b"DATA_READX")));
    assert!(!is_data_ready(&message(b"data_ready")));
    assert!(!is_data_ready(&message(b"")));
}

#[test]
fn marker_drains_and_is_not_counted() {
    let mut mock = MockEspiService::new(0);
    let handled = mock.handle(&message(b"DATA_READY"), &[b"abc".to_vec(), b"de".to_vec()]);
    assert_eq!(handled, Handled::Drained { frames: 2, bytes: 5 });
    assert_eq!(mock.staging.as_slice(), b"abcde");
    assert_eq!(mock.frames, 0);
    assert_eq!(mock.bytes, 0);
}

#[test]
fn other_message_is_counted_and_not_staged() {
    let mut mock = MockEspiService::new(0);
    let mut other = message(b"hello");
    other.port = 2;
    let handled = mock.handle(&other, &[b"left alone".to_vec()]);
    assert_eq!(handled, Handled::Counted { port: 2, size: 5 });
    assert_eq!(mock.handle(&message(b"xyz"), &[]), Handled::Counted { port: 0, size: 3 });
    assert_eq!(mock.frames, 2);
    assert_eq!(mock.bytes, 8);
    assert_eq!(mock.staging.len(), 0);
}

#[test]
fn stats_are_due_every_five_seconds() {
    let mut mock = MockEspiService::new(1_000);
    mock.handle(&message(b"hello"), &[]);
    mock.handle(&message(b"DATA_READY"), &[b"abc".to_vec()]);
    assert_eq!(mock.stats_due(1_000), None);
    assert_eq!(mock.stats_due(5_000_999), None);
    let stats = Stats { frames: 1, bytes: 5, staging: 3 };
    assert_eq!(mock.stats_due(5_001_000), Some(stats));
    mock.mark_stats(5_001_007);
    assert_eq!(mock.stats_due(10_001_006), None);
    assert_eq!(mock.stats_due(10_001_007), Some(stats));
    assert_eq!(mock.frames, 1);
}

#[test]
fn statistics_over_a_run_leave_the_markers_out() {
    let mut mock = MockEspiService::new(0);
    mock.handle(&message(b"one"), &[]);
    mock.handle(&message(b"DATA_READY"), &[vec![1; 9000], vec![2; 6000]]);
    mock.mark_stats(6_000_000);
    mock.handle(&message(b"three"), &[]);
    mock.handle(&message(b"DATA_READY"), &[vec![3; 3000], vec![4; 2000]]);
    mock.handle(&message(b""), &[]);
    let stats = Stats { frames: 3, bytes: 8, staging: 5000 };
    assert_eq!(mock.stats_due(11_000_000), Some(stats));
    assert_eq!(mock.staging[0], 3);
    assert_eq!(mock.staging[4999], 4);
}

#[test]
fn counted_bytes_are_the_true_sum_beyond_the_staging_capacity() {
    let mut staging: Staging = HeaplessVec::new();
    let frames = vec![vec![1; 10000]; 7];
    assert_eq!(drain_into_staging(&mut staging, &frames), (7, 70000));
    assert_eq!(staging.len(), 10000);
}
