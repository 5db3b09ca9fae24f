//! A stand-in for the eSPI task at the far end of the debug channel.
//!
//! It counts the messages that it receives. A message that holds just the "DATA_READY" marker
//! makes it collect the frames that the log ring has to offer in a staging buffer instead.
use embassy_time::{Duration, Instant};
use vstd::prelude::*;

use crate::buffers::{
    frame_bytes, staging_bytes, staging_capacity, staging_clear, staging_extend_from_slice, staging_len,
    staging_new,
};
use crate::frames::{counted_bytes, frame_views, staged, staged_all, MessageView};
use crate::meaning::{law_counted_bytes_by_length, law_staging_frames_in_turn};
use crate::transport::espi::EspiDebugMessage;

pub use crate::buffers::STAGING_CAPACITY;

verus! {

/// How many seconds pass from one line of statistics to the next.
pub const STATS_INTERVAL_SECS: u64 = 5;

/// How many clock ticks make a second.
pub const TICKS_PER_SECOND: u64 = 1_000_000;

/// The marker that announces frames in the log ring: "DATA_READY" in ASCII.
pub open spec fn data_ready_marker() -> Seq<u8> {
    seq![0x44u8, 0x41u8, 0x54u8, 0x41u8, 0x5Fu8, 0x52u8, 0x45u8, 0x41u8, 0x44u8, 0x59u8]
}

/// `Instant::duration_since` of `embassy_time`, on the tick counts of the two instants: the
/// ticks from the earlier one to the later.
#[verifier::external_body]
fn ticks_since(now: u64, earlier: u64) -> (ticks: u64)
    requires
        earlier <= now,
    ensures
        ticks == now - earlier,
{
    (Instant::from_ticks(now) - Instant::from_ticks(earlier)).as_ticks()
}

/// `Duration::from_secs` of `embassy_time`, as a tick count, at the tick rate that the `std`
/// feature of that crate selects.
#[verifier::external_body]
fn ticks_in_secs(secs: u64) -> (ticks: u64)
    requires
        secs * TICKS_PER_SECOND <= u64::MAX,
    ensures
        ticks == secs * TICKS_PER_SECOND,
{
    Duration::from_secs(secs).as_ticks()
}

/// Whether the message holds just the "DATA_READY" marker.
pub fn is_data_ready(message: &EspiDebugMessage) -> (ready: bool)
    ensures
        ready <==> message@.0 == data_ready_marker(),
        ready <==> frame_bytes(message.data) == seq![
            0x44u8, 0x41u8, 0x54u8, 0x41u8, 0x5Fu8, 0x52u8, 0x45u8, 0x41u8, 0x44u8, 0x59u8,
        ],
{
    let marker: [u8; 10] = [0x44, 0x41, 0x54, 0x41, 0x5F, 0x52, 0x45, 0x41, 0x44, 0x59];
    let bytes = message.bytes();
    proof {
        assert(marker@ =~= data_ready_marker());
    }
    if bytes.len() != 10 {
        return false;
    }
    let mut i: usize = 0;
    while i < 10
        invariant
            i <= 10,
            bytes@.len() == 10,
            bytes@ == message@.0,
            marker@ == data_ready_marker(),
            forall|j: int| 0 <= j < i ==> bytes@[j] == marker@[j],
        decreases 10 - i,
    {
        if bytes[i] != marker[i] {
            return false;
        }
        i += 1;
    }
    proof {
        assert(bytes@ =~= marker@);
    }
    true
}

/// Whether the counters of a drain can hold what there is to count in the frames.
pub open spec fn drain_countable(frames: Seq<Seq<u8>>) -> bool {
    frames.len() <= u32::MAX && counted_bytes(frames) <= u32::MAX
}

proof fn lemma_counted_bytes_take(frames: Seq<Seq<u8>>, n: int)
    requires
        0 <= n < frames.len(),
    ensures
        counted_bytes(frames.take(n + 1)) == counted_bytes(frames.take(n)) + (
        frames[n].len() as u32),
        counted_bytes(frames.take(n + 1)) <= counted_bytes(frames),
    decreases frames.len() - n,
{
    assert(frames.take(n + 1).drop_last() =~= frames.take(n));
    if n + 1 < frames.len() {
        lemma_counted_bytes_take(frames, n + 1);
    } else {
        assert(frames.take(n + 1) =~= frames);
    }
}

/// Adds the frames to the staging buffer, one after the other. A frame that has no room behind
/// what is there displaces all of it. Returns how many frames there were and how many bytes.
pub fn drain_into_staging(
    staging: &mut heapless::Vec<u8, STAGING_CAPACITY>,
    frames: &[Vec<u8>],
) -> (drained: (u32, u32))
    requires
        drain_countable(frame_views(frames@)),
    ensures
        staging_bytes(*final(staging)) == staged_all(
            staging_bytes(*old(staging)),
            frame_views(frames@),
        ),
        drained.0 == frames@.len(),
        drained.1 == counted_bytes(frame_views(frames@)),
        ({
            let views = frames@.map_values(|frame: Vec<u8>| frame@);
            &&& staging_bytes(*final(staging)) == views.fold_left(
                staging_bytes(*old(staging)),
                (|held: Seq<u8>, frame: Seq<u8>|
                    if held.len() + frame.len() <= 16384 {
                        held + frame
                    } else if frame.len() <= 16384 {
                        frame
                    } else {
                        Seq::<u8>::empty()
                    }),
            )
            &&& drained.1 == views.fold_left(
                0int,
                (|sum: int, frame: Seq<u8>| sum + (frame.len() as u32)),
            )
        }),
{
    let ghost views = frame_views(frames@);
    let ghost start = staging_bytes(*staging);
    let mut drained_frames: u32 = 0;
    let mut drained_bytes: u32 = 0;
    let mut i: usize = 0;
    while i < frames.len()
        invariant
            i <= frames@.len(),
            views == frame_views(frames@),
            drain_countable(views),
            drained_frames == i,
            drained_bytes == counted_bytes(views.take(i as int)),
            staging_bytes(*staging) == staged_all(start, views.take(i as int)),
        decreases frames@.len() - i,
    {
        let slice = frames[i].as_slice();
        let len: usize = slice.len();
        let ghost held = staging_bytes(*staging);
        proof {
            lemma_counted_bytes_take(views, i as int);
            assert(views.take(i + 1).drop_last() =~= views.take(i as int));
            assert(views.take(i + 1).last() == slice@);
        }
        if staging_capacity(staging) - staging_len(staging) < len {
            staging_clear(staging);
        }
        let _fitted = staging_extend_from_slice(staging, slice);
        proof {
            assert(staging_bytes(*staging) =~= staged(held, slice@));
        }
        drained_frames += 1;
        drained_bytes += len as u32;
        i += 1;
    }
    proof {
        assert(views.take(views.len() as int) =~= views);
        law_staging_frames_in_turn(start, views);
        law_counted_bytes_by_length(views);
    }
    (drained_frames, drained_bytes)
}

/// The state of the stand-in: what is staged, what was counted and when it last reported.
#[verifier::ext_equal]
pub struct MockView {
    /// The staged bytes.
    pub staging: Seq<u8>,
    /// The messages received so far, markers left out.
    pub frames: nat,
    /// The bytes in those messages.
    pub bytes: nat,
    /// The tick count at the last line of statistics.
    pub last_stats: u64,
}

/// Something that happens to the stand-in.
pub enum MockEvent {
    /// A message comes in. Where it is the marker, `frames` are those in the log ring.
    Message { message: MessageView, frames: Seq<Seq<u8>> },
    /// A line of statistics is given at a tick count.
    Reported { now: u64 },
}

/// Whether a message holds just the "DATA_READY" marker.
pub open spec fn is_marker(message: MessageView) -> bool {
    message.0 == data_ready_marker()
}

/// The state at a tick count, with nothing received.
pub open spec fn mock_start(now: u64) -> MockView {
    MockView { staging: Seq::empty(), frames: 0, bytes: 0, last_stats: now }
}

/// The state after a message: on the marker the frames are staged, and any other message is
/// counted.
pub open spec fn after_message(
    state: MockView,
    message: MessageView,
    frames: Seq<Seq<u8>>,
) -> MockView {
    if is_marker(message) {
        MockView { staging: staged_all(state.staging, frames), ..state }
    } else {
        MockView {
            frames: state.frames + 1,
            bytes: state.bytes + message.0.len(),
            ..state
        }
    }
}

/// The state after a line of statistics: only the time of the last line changes.
pub open spec fn after_report(state: MockView, now: u64) -> MockView {
    MockView { last_stats: now, ..state }
}

/// The state after an event.
pub open spec fn after_event(state: MockView, event: MockEvent) -> MockView {
    match event {
        MockEvent::Message { message, frames } => after_message(state, message, frames),
        MockEvent::Reported { now } => after_report(state, now),
    }
}

/// The state after a run of events.
pub open spec fn after_events(state: MockView, events: Seq<MockEvent>) -> MockView
    decreases events.len(),
{
    if events.len() == 0 {
        state
    } else {
        after_event(after_events(state, events.drop_last()), events.last())
    }
}

/// The messages that came in during a run of events, in their order.
pub open spec fn messages_in(events: Seq<MockEvent>) -> Seq<MessageView>
    decreases events.len(),
{
    if events.len() == 0 {
        Seq::empty()
    } else {
        match events.last() {
            MockEvent::Message { message, .. } => messages_in(events.drop_last()).push(message),
            MockEvent::Reported { .. } => messages_in(events.drop_last()),
        }
    }
}

/// The frames that markers drained out of the log ring during a run of events, in their order.
pub open spec fn drained_in(events: Seq<MockEvent>) -> Seq<Seq<u8>>
    decreases events.len(),
{
    if events.len() == 0 {
        Seq::empty()
    } else {
        match events.last() {
            MockEvent::Message { message, frames } => if is_marker(message) {
                drained_in(events.drop_last()) + frames
            } else {
                drained_in(events.drop_last())
            },
            MockEvent::Reported { .. } => drained_in(events.drop_last()),
        }
    }
}

/// The messages that are not the marker, in their order.
pub open spec fn without_markers(messages: Seq<MessageView>) -> Seq<MessageView> {
    messages.filter(|message: MessageView| !is_marker(message))
}

/// The bytes in the messages added up.
pub open spec fn message_bytes(messages: Seq<MessageView>) -> nat
    decreases messages.len(),
{
    if messages.len() == 0 {
        0
    } else {
        message_bytes(messages.drop_last()) + messages.last().0.len()
    }
}

/// What the service made of a message.
#[derive(Copy, Clone, Debug, PartialEq, Eq, Structural)]
pub enum Handled {
    /// It was the marker: so many frames with so many bytes went to the staging buffer.
    Drained { frames: u32, bytes: u32 },
    /// It was some other message, for this port and of this size.
    Counted { port: u8, size: usize },
}

/// The figures in a line of statistics.
#[derive(Copy, Clone, Debug, PartialEq, Eq, Structural)]
pub struct Stats {
    /// The messages received so far, markers left out.
    pub frames: u32,
    /// The bytes in those messages.
    pub bytes: u32,
    /// The bytes in the staging buffer.
    pub staging: usize,
}

/// The stand-in for the eSPI task.
pub struct MockEspiService {
    /// The frames collected on markers.
    pub staging: heapless::Vec<u8, STAGING_CAPACITY>,
    /// The messages received so far, markers left out.
    pub frames: u32,
    /// The bytes in those messages.
    pub bytes: u32,
    /// The tick count at the last line of statistics.
    pub last_stats: u64,
}

impl View for MockEspiService {
    type V = MockView;

    open spec fn view(&self) -> MockView {
        MockView {
            staging: staging_bytes(self.staging),
            frames: self.frames as nat,
            bytes: self.bytes as nat,
            last_stats: self.last_stats,
        }
    }
}

impl MockEspiService {
    /// Whether the counters can take the message and the frames that come with it.
    pub open spec fn can_handle(self, message: MessageView, frames: Seq<Seq<u8>>) -> bool {
        if message.0 == data_ready_marker() {
            drain_countable(frames)
        } else {
            self.frames < u32::MAX && self.bytes + message.0.len() <= u32::MAX
        }
    }

    /// Creates the service at the given tick count, with nothing received.
    pub fn new(now: u64) -> (service: Self)
        ensures
            service@ == mock_start(now),
            staging_bytes(service.staging) == Seq::<u8>::empty(),
            service.frames == 0,
            service.bytes == 0,
            service.last_stats == now,
    {
        MockEspiService { staging: staging_new(), frames: 0, bytes: 0, last_stats: now }
    }

    /// Handles one message. On a marker, `frames` are the frames that the log ring has to
    /// offer, and they go to the staging buffer; any other message is counted, and `frames` are
    /// left alone.
    pub fn handle(&mut self, message: &EspiDebugMessage, frames: &[Vec<u8>]) -> (handled: Handled)
        requires
            old(self).can_handle(message@, frame_views(frames@)),
        ensures
            final(self)@ == after_message(old(self)@, message@, frame_views(frames@)),
            final(self).last_stats == old(self).last_stats,
            message@.0 == data_ready_marker() ==> {
                &&& handled is Drained
                &&& handled->frames == frames@.len()
                &&& handled->bytes == counted_bytes(frame_views(frames@))
                &&& staging_bytes(final(self).staging) == staged_all(
                    staging_bytes(old(self).staging),
                    frame_views(frames@),
                )
                &&& final(self).frames == old(self).frames
                &&& final(self).bytes == old(self).bytes
            },
            message@.0 != data_ready_marker() ==> {
                &&& handled is Counted
                &&& handled->port == message@.1
                &&& handled->size == message@.0.len()
                &&& staging_bytes(final(self).staging) == staging_bytes(old(self).staging)
                &&& final(self).frames == old(self).frames + 1
                &&& final(self).bytes == old(self).bytes + message@.0.len()
            },
            frame_bytes(message.data) == seq![
                0x44u8, 0x41u8, 0x54u8, 0x41u8, 0x5Fu8, 0x52u8, 0x45u8, 0x41u8, 0x44u8, 0x59u8,
            ] ==> {
                let views = frames@.map_values(|frame: Vec<u8>| frame@);
                &&& handled is Drained
                &&& handled->frames == frames@.len()
                &&& handled->bytes == views.fold_left(
                    0int,
                    (|sum: int, frame: Seq<u8>| sum + (frame.len() as u32)),
                )
                &&& staging_bytes(final(self).staging) == views.fold_left(
                    staging_bytes(old(self).staging),
                    (|held: Seq<u8>, frame: Seq<u8>|
                        if held.len() + frame.len() <= 16384 {
                            held + frame
                        } else if frame.len() <= 16384 {
                            frame
                        } else {
                            Seq::<u8>::empty()
                        }),
                )
                &&& final(self).frames == old(self).frames
                &&& final(self).bytes == old(self).bytes
            },
            frame_bytes(message.data) != seq![
                0x44u8, 0x41u8, 0x54u8, 0x41u8, 0x5Fu8, 0x52u8, 0x45u8, 0x41u8, 0x44u8, 0x59u8,
            ] ==> {
                &&& handled is Counted
                &&& handled->port == message.port
                &&& handled->size == frame_bytes(message.data).len()
                &&& staging_bytes(final(self).staging) == staging_bytes(old(self).staging)
                &&& final(self).frames == old(self).frames + 1
                &&& final(self).bytes == old(self).bytes + frame_bytes(message.data).len()
            },
    {
        if is_data_ready(message) {
            let (drained_frames, drained_bytes) = drain_into_staging(&mut self.staging, frames);
            Handled::Drained { frames: drained_frames, bytes: drained_bytes }
        } else {
            let size: usize = message.bytes().len();
            self.frames += 1;
            self.bytes += size as u32;
            Handled::Counted { port: message.port, size }
        }
    }

    /// The statistics, once the interval has passed since the last line of them. Both instants
    /// are tick counts.
    pub fn stats_due(&self, now: u64) -> (stats: Option<Stats>)
        requires
            self.last_stats <= now,
        ensures
            stats is Some <==> now - self.last_stats >= 5_000_000,
            stats is Some <==> now - self.last_stats >= STATS_INTERVAL_SECS * TICKS_PER_SECOND,
            stats matches Some(s) ==> {
                &&& s.frames == self.frames
                &&& s.bytes == self.bytes
                &&& s.staging == staging_bytes(self.staging).len()
            },
    {
        if ticks_since(now, self.last_stats) >= ticks_in_secs(STATS_INTERVAL_SECS) {
            Some(
                Stats {
                    frames: self.frames,
                    bytes: self.bytes,
                    staging: staging_len(&self.staging),
                },
            )
        } else {
            None
        }
    }

    /// Notes that a line of statistics was given at the given tick count.
    pub fn mark_stats(&mut self, now: u64)
        ensures
            final(self)@ == after_report(old(self)@, now),
            *final(self) == (MockEspiService { last_stats: now, ..*old(self) }),
    {
        self.last_stats = now;
    }
}

} // verus!
