//! What holds of the service as a whole.
use vstd::prelude::*;

use crate::buffers::{MAX_DEBUG_FRAME_SIZE, STAGING_CAPACITY};
use crate::frames::{
    accepted_count, after_receive, after_send, concatenated, counted_bytes, fits_message, forwarded,
    free_slots, lemma_frames_fit_or_are_too_large, lemma_messages_of_push, message_of, messages_of,
    staged_all, MessageView, DEBUG_CHANNEL_CAPACITY,
};
use crate::meaning::law_receives_from_a_queue;
use crate::mock_espi_service::{
    after_events, drained_in, is_marker, message_bytes, messages_in, mock_start, without_markers,
    MockEvent, MockView,
};
use crate::service::{
    pending_after, pending_after_all, queue_after_process, reports, DrainReport,
};
use crate::DebugRxMessage;

verus! {

/// The queue after so many receives, each of which took the oldest message.
pub open spec fn after_receives(queue: Seq<MessageView>, n: nat) -> Seq<MessageView>
    decreases n,
{
    if n == 0 {
        queue
    } else {
        after_receive(after_receives(queue, (n - 1) as nat))
    }
}

/// The messages of two lists of frames together are those of the first, then those of the
/// second.
pub proof fn law_messages_of_concatenation(a: Seq<Seq<u8>>, b: Seq<Seq<u8>>)
    ensures
        messages_of(a + b) == messages_of(a) + messages_of(b),
    decreases b.len(),
{
    if b.len() == 0 {
        reveal(Seq::filter);
        assert(a + b =~= a);
        assert(messages_of(a) + messages_of(b) =~= messages_of(a));
    } else {
        law_messages_of_concatenation(a, b.drop_last());
        lemma_messages_of_push(b.drop_last(), b.last());
        lemma_messages_of_push(a + b.drop_last(), b.last());
        assert(b.drop_last().push(b.last()) =~= b);
        assert((a + b.drop_last()).push(b.last()) =~= a + b);
        assert(messages_of(a + b) =~= messages_of(a) + messages_of(b));
    }
}

/// Where a message can carry every frame, there is one message for each frame, in their order.
pub proof fn law_every_fitting_frame_has_its_message(frames: Seq<Seq<u8>>)
    requires
        forall|i: int| 0 <= i < frames.len() ==> fits_message(#[trigger] frames[i]),
    ensures
        messages_of(frames) == frames.map_values(|frame: Seq<u8>| message_of(frame)),
    decreases frames.len(),
{
    if frames.len() == 0 {
        reveal(Seq::filter);
    } else {
        assert forall|i: int| 0 <= i < frames.drop_last().len() implies fits_message(
            #[trigger] frames.drop_last()[i],
        ) by {
            assert(fits_message(frames[i]));
        }
        law_every_fitting_frame_has_its_message(frames.drop_last());
        lemma_messages_of_push(frames.drop_last(), frames.last());
        assert(frames.drop_last().push(frames.last()) =~= frames);
    }
    assert(messages_of(frames) =~= frames.map_values(|frame: Seq<u8>| message_of(frame)));
}

/// Every message that a flush forwards goes to the debug port and is no larger than a message
/// can be.
pub proof fn law_messages_are_well_formed(frames: Seq<Seq<u8>>, i: int)
    requires
        0 <= i < messages_of(frames).len(),
    ensures
        messages_of(frames)[i].1 == 0,
        messages_of(frames)[i].0.len() <= MAX_DEBUG_FRAME_SIZE,
        frames.contains(messages_of(frames)[i].0),
    decreases frames.len(),
{
    lemma_frames_fit_or_are_too_large(frames);
    let rest = frames.drop_last();
    lemma_messages_of_push(rest, frames.last());
    assert(rest.push(frames.last()) =~= frames);
    if i < messages_of(rest).len() {
        law_messages_are_well_formed(rest, i);
        let k = choose|k: int| 0 <= k < rest.len() && rest[k] == messages_of(rest)[i].0;
        assert(frames[k] == messages_of(frames)[i].0);
    } else {
        assert(frames[frames.len() - 1] == messages_of(frames)[i].0);
    }
}

/// A flush accounts for every frame: each was forwarded, was too large, or found the channel
/// full.
pub proof fn law_flush_accounts_for_every_frame(
    report: DrainReport,
    queue: Seq<MessageView>,
    frames: Seq<Seq<u8>>,
)
    requires
        reports(report, queue, frames),
    ensures
        forwarded(queue, frames).len() - queue.len() + report.too_large + report.channel_full
            == report.frames,
{
    lemma_frames_fit_or_are_too_large(frames);
}

/// A flush leaves the messages that wait as they are and adds behind them.
pub proof fn law_flush_keeps_what_waits(queue: Seq<MessageView>, frames: Seq<Seq<u8>>)
    ensures
        queue.is_prefix_of(forwarded(queue, frames)),
{
    assert(queue =~= forwarded(queue, frames).take(queue.len() as int));
}

/// A channel within its capacity stays within it, whatever is flushed to it, sent to it or
/// received from it.
pub proof fn law_channel_stays_within_capacity(
    queue: Seq<MessageView>,
    frames: Seq<Seq<u8>>,
    message: MessageView,
)
    requires
        queue.len() <= DEBUG_CHANNEL_CAPACITY,
    ensures
        forwarded(queue, frames).len() <= DEBUG_CHANNEL_CAPACITY,
        after_send(queue, message).len() <= DEBUG_CHANNEL_CAPACITY,
        after_receive(queue).len() <= DEBUG_CHANNEL_CAPACITY,
{
}

/// Something that is done to the channel.
pub enum ChannelEvent {
    /// A message is sent.
    Sent { message: MessageView },
    /// The frames in the ring are flushed.
    Flushed { frames: Seq<Seq<u8>> },
    /// A message is received, if one waits.
    Received,
}

/// The queue after an event.
pub open spec fn queue_after_event(queue: Seq<MessageView>, event: ChannelEvent) -> Seq<
    MessageView,
> {
    match event {
        ChannelEvent::Sent { message } => after_send(queue, message),
        ChannelEvent::Flushed { frames } => forwarded(queue, frames),
        ChannelEvent::Received => after_receive(queue),
    }
}

/// The queue of a new channel after a run of events.
pub open spec fn queue_after_events(events: Seq<ChannelEvent>) -> Seq<MessageView>
    decreases events.len(),
{
    if events.len() == 0 {
        Seq::empty()
    } else {
        queue_after_event(queue_after_events(events.drop_last()), events.last())
    }
}

/// The messages that a new channel took in during a run of events, in their order.
pub open spec fn taken_in(events: Seq<ChannelEvent>) -> Seq<MessageView>
    decreases events.len(),
{
    if events.len() == 0 {
        Seq::empty()
    } else {
        let rest = events.drop_last();
        let queue = queue_after_events(rest);
        match events.last() {
            ChannelEvent::Sent { message } => if free_slots(queue) > 0 {
                taken_in(rest).push(message)
            } else {
                taken_in(rest)
            },
            ChannelEvent::Flushed { frames } => taken_in(rest) + messages_of(frames).take(
                accepted_count(queue, frames) as int,
            ),
            ChannelEvent::Received => taken_in(rest),
        }
    }
}

/// The messages that were received from a new channel during a run of events, in their order.
pub open spec fn received_in(events: Seq<ChannelEvent>) -> Seq<MessageView>
    decreases events.len(),
{
    if events.len() == 0 {
        Seq::empty()
    } else {
        let rest = events.drop_last();
        let queue = queue_after_events(rest);
        if events.last() is Received && queue.len() > 0 {
            received_in(rest).push(queue.first())
        } else {
            received_in(rest)
        }
    }
}

/// From a new channel on, after any run of sends, flushes and receives, no more messages wait
/// than the capacity.
pub proof fn law_channel_capacity_over_a_run(events: Seq<ChannelEvent>)
    ensures
        queue_after_events(events).len() <= DEBUG_CHANNEL_CAPACITY,
    decreases events.len(),
{
    if events.len() > 0 {
        law_channel_capacity_over_a_run(events.drop_last());
    }
}

/// From a new channel on, after any run of sends, flushes and receives, the messages received
/// and then those that still wait are the messages that the channel took in, in the order in
/// which it took them: none is lost, doubled or overtaken.
pub proof fn law_channel_is_first_in_first_out(events: Seq<ChannelEvent>)
    ensures
        taken_in(events) == received_in(events) + queue_after_events(events),
    decreases events.len(),
{
    if events.len() > 0 {
        law_channel_is_first_in_first_out(events.drop_last());
    }
    assert(taken_in(events) =~= received_in(events) + queue_after_events(events));
}

/// A flush to a full channel drops every frame.
pub proof fn law_full_channel_takes_nothing(queue: Seq<MessageView>, frames: Seq<Seq<u8>>)
    requires
        free_slots(queue) == 0,
    ensures
        forwarded(queue, frames) == queue,
{
    assert(forwarded(queue, frames) =~= queue);
}

/// Two flushes one after the other leave the channel as one flush of all their frames does.
pub proof fn law_flushes_compose(queue: Seq<MessageView>, a: Seq<Seq<u8>>, b: Seq<Seq<u8>>)
    ensures
        forwarded(forwarded(queue, a), b) == forwarded(queue, a + b),
{
    law_messages_of_concatenation(a, b);
    assert(forwarded(forwarded(queue, a), b) =~= forwarded(queue, a + b));
}

/// Sending a frame through the eSPI transport does to the channel what a flush of that one
/// frame does.
pub proof fn law_send_is_a_flush_of_one(queue: Seq<MessageView>, data: Seq<u8>)
    ensures
        forwarded(queue, seq![data]) == if fits_message(data) && free_slots(queue) > 0 {
            queue.push(message_of(data))
        } else {
            queue
        },
{
    lemma_frames_fit_or_are_too_large(Seq::<Seq<u8>>::empty());
    lemma_messages_of_push(Seq::<Seq<u8>>::empty(), data);
    assert(Seq::<Seq<u8>>::empty().push(data) =~= seq![data]);
    assert(messages_of(Seq::<Seq<u8>>::empty()) =~= Seq::<MessageView>::empty());
    assert(forwarded(queue, seq![data]) =~= if fits_message(data) && free_slots(queue) > 0 {
        queue.push(message_of(data))
    } else {
        queue
    });
}

/// The messages come out in the order in which they went in, and none is lost: once all that
/// waited before was received, the receives give back the messages of the frames that were
/// forwarded, from the first on.
pub proof fn law_receives_give_back_what_was_forwarded(
    queue: Seq<MessageView>,
    frames: Seq<Seq<u8>>,
    i: nat,
)
    requires
        i < accepted_count(queue, frames),
    ensures
        after_receives(forwarded(queue, frames), queue.len() + i).len() > 0,
        after_receives(forwarded(queue, frames), queue.len() + i).first() == messages_of(
            frames,
        )[i as int],
{
    law_receives_from_a_queue(forwarded(queue, frames), queue.len() + i);
}

/// A flush loses nothing where a message can carry every frame and the channel has room for
/// all: each frame is received whole, to the debug port, in its turn.
pub proof fn law_flush_with_room_loses_nothing(
    queue: Seq<MessageView>,
    frames: Seq<Seq<u8>>,
    i: nat,
)
    requires
        forall|k: int| 0 <= k < frames.len() ==> fits_message(#[trigger] frames[k]),
        frames.len() <= free_slots(queue),
        i < frames.len(),
    ensures
        forwarded(queue, frames).len() == queue.len() + frames.len(),
        after_receives(forwarded(queue, frames), queue.len() + i).len() > 0,
        after_receives(forwarded(queue, frames), queue.len() + i).first() == message_of(
            frames[i as int],
        ),
{
    law_every_fitting_frame_has_its_message(frames);
    law_receives_give_back_what_was_forwarded(queue, frames, i);
}

/// Requests that come in before the service gets to one of them count as one.
pub proof fn law_requests_coalesce(pending: bool, request: Option<DebugRxMessage>)
    ensures
        pending_after(pending_after(pending, request), request) == pending_after(pending, request),
{
}

/// No request is lost and none is made up: after any run of messages a request is pending just
/// when one was before, or when one of the messages is a request to flush.
pub proof fn law_no_request_is_lost(pending: bool, requests: Seq<Option<DebugRxMessage>>)
    ensures
        pending_after_all(pending, requests) <==> pending || requests.contains(
            Some(DebugRxMessage::GetDataBuffer),
        ),
    decreases requests.len(),
{
    let flush = Some(DebugRxMessage::GetDataBuffer);
    if requests.len() > 0 {
        let rest = requests.drop_last();
        law_no_request_is_lost(pending, rest);
        if rest.contains(flush) {
            let k = choose|k: int| 0 <= k < rest.len() && rest[k] == flush;
            assert(requests[k] == flush);
        }
        if requests.last() == flush {
            assert(requests[requests.len() - 1] == flush);
        }
        if requests.contains(flush) {
            let k = choose|k: int| 0 <= k < requests.len() && requests[k] == flush;
            if k < rest.len() {
                assert(rest[k] == flush);
            }
        }
    }
}

/// Once a request to flush came in, the next run of the service puts the messages of the frames
/// in the ring behind what waits in the channel, from the first on, as many as there is room for.
pub proof fn law_request_flushes_the_ring(
    pending: bool,
    requests: Seq<Option<DebugRxMessage>>,
    queue: Seq<MessageView>,
    frames: Seq<Seq<u8>>,
)
    requires
        requests.contains(Some(DebugRxMessage::GetDataBuffer)),
        queue.len() <= DEBUG_CHANNEL_CAPACITY,
    ensures
        ({
            let messages = frames.filter(
                |frame: Seq<u8>| frame.len() <= MAX_DEBUG_FRAME_SIZE,
            ).map_values(|frame: Seq<u8>| (frame, 0u8));
            let room = DEBUG_CHANNEL_CAPACITY - queue.len();
            let taken = if messages.len() <= room {
                messages.len() as int
            } else {
                room
            };
            queue_after_process(pending_after_all(pending, requests), queue, frames) == queue
                + messages.take(taken)
        }),
{
    law_no_request_is_lost(pending, requests);
    assert((|frame: Seq<u8>| frame.len() <= MAX_DEBUG_FRAME_SIZE) =~= (|frame: Seq<u8>|
        fits_message(frame)));
    assert((|frame: Seq<u8>| (frame, 0u8)) =~= (|frame: Seq<u8>| message_of(frame)));
}

/// A message that is no request leaves the request flag as it is.
pub proof fn law_other_messages_change_nothing(pending: bool)
    ensures
        pending_after(pending, None) == pending,
{
}

/// The staging buffer never holds more than its capacity.
pub proof fn law_staging_stays_within_capacity(staging: Seq<u8>, frames: Seq<Seq<u8>>)
    requires
        staging.len() <= STAGING_CAPACITY,
    ensures
        staged_all(staging, frames).len() <= STAGING_CAPACITY,
    decreases frames.len(),
{
    if frames.len() > 0 {
        law_staging_stays_within_capacity(staging, frames.drop_last());
    }
}

/// Frames that all have room are all kept, in their order, behind what was there.
pub proof fn law_staging_with_room_keeps_everything(staging: Seq<u8>, frames: Seq<Seq<u8>>)
    requires
        staging.len() + concatenated(frames).len() <= STAGING_CAPACITY,
    ensures
        staged_all(staging, frames) == staging + concatenated(frames),
    decreases frames.len(),
{
    if frames.len() == 0 {
        assert(staging + concatenated(frames) =~= staging);
    } else {
        law_staging_with_room_keeps_everything(staging, frames.drop_last());
        assert(staged_all(staging, frames) =~= staging + concatenated(frames));
    }
}

/// A drain that has room for all of its frames in an empty staging buffer counts as many bytes
/// as it stages.
pub proof fn law_drain_counts_what_it_stages(frames: Seq<Seq<u8>>)
    requires
        concatenated(frames).len() <= STAGING_CAPACITY,
    ensures
        staged_all(Seq::<u8>::empty(), frames).len() == counted_bytes(frames),
{
    law_staging_with_room_keeps_everything(Seq::<u8>::empty(), frames);
    law_counted_bytes_are_the_true_sum(frames);
}

/// The bytes that a drain counts are the lengths of its frames added up, wherever that sum fits
/// the counter.
pub proof fn law_counted_bytes_are_the_true_sum(frames: Seq<Seq<u8>>)
    requires
        concatenated(frames).len() <= u32::MAX,
    ensures
        counted_bytes(frames) == concatenated(frames).len(),
    decreases frames.len(),
{
    if frames.len() > 0 {
        law_counted_bytes_are_the_true_sum(frames.drop_last());
    }
}

/// Two drains one after the other leave the staging buffer as one drain of all their frames
/// does.
pub proof fn law_drains_compose(staging: Seq<u8>, a: Seq<Seq<u8>>, b: Seq<Seq<u8>>)
    ensures
        staged_all(staged_all(staging, a), b) == staged_all(staging, a + b),
    decreases b.len(),
{
    if b.len() == 0 {
        assert(a + b =~= a);
    } else {
        law_drains_compose(staging, a, b.drop_last());
        assert((a + b).drop_last() =~= a + b.drop_last());
        assert((a + b).last() == b.last());
    }
}

/// Where no frame is larger than the staging buffer, the buffer holds an unbroken run of the
/// newest bytes: either all that was there and all the frames, or the frames from some one on,
/// which in that case is the frame with the number that is returned.
pub proof fn law_staging_holds_the_newest_frames(staging: Seq<u8>, frames: Seq<Seq<u8>>) -> (first:
    int)
    requires
        forall|i: int| 0 <= i < frames.len() ==> (#[trigger] frames[i]).len() <= STAGING_CAPACITY,
    ensures
        0 <= first <= frames.len(),
        staged_all(staging, frames) == staging + concatenated(frames) || staged_all(staging, frames)
            == concatenated(frames.skip(first)),
        first == frames.len() ==> frames.len() == 0,
    decreases frames.len(),
{
    if frames.len() == 0 {
        assert(staging + concatenated(frames) =~= staging);
        0
    } else {
        let rest = frames.drop_last();
        assert forall|i: int| 0 <= i < rest.len() implies (#[trigger] rest[i]).len()
            <= STAGING_CAPACITY by {
            assert(frames[i].len() <= STAGING_CAPACITY);
        }
        let first = law_staging_holds_the_newest_frames(staging, rest);
        let held = staged_all(staging, rest);
        let last = frames.last();
        if held.len() + last.len() <= STAGING_CAPACITY {
            if held == staging + concatenated(rest) {
                assert(staged_all(staging, frames) =~= staging + concatenated(frames));
                0
            } else {
                assert(frames.skip(first).drop_last() =~= rest.skip(first));
                assert(frames.skip(first).last() == last);
                assert(staged_all(staging, frames) =~= concatenated(frames.skip(first)));
                first
            }
        } else {
            let tail = frames.skip(frames.len() - 1);
            assert(tail.drop_last() =~= Seq::<Seq<u8>>::empty());
            assert(concatenated(tail) =~= last) by {
                reveal_with_fuel(concatenated, 2);
            }
            frames.len() - 1
        }
    }
}

/// The statistics count every message that is not the marker, and nothing else: whatever was
/// drained or reported in between, the counters grow by the number of those messages and by
/// their bytes.
pub proof fn law_statistics_count_all_but_the_markers(state: MockView, events: Seq<MockEvent>)
    ensures
        after_events(state, events).frames == state.frames + without_markers(
            messages_in(events),
        ).len(),
        after_events(state, events).bytes == state.bytes + message_bytes(
            without_markers(messages_in(events)),
        ),
    decreases events.len(),
{
    reveal(Seq::filter);
    if events.len() > 0 {
        let rest = events.drop_last();
        law_statistics_count_all_but_the_markers(state, rest);
        if let MockEvent::Message { message, frames } = events.last() {
            let before = messages_in(rest);
            assert(before.push(message).drop_last() =~= before);
            if !is_marker(message) {
                let counted = without_markers(before);
                assert(without_markers(before.push(message)) =~= counted.push(message));
                assert(counted.push(message).drop_last() =~= counted);
            }
        }
    }
}

/// From the start on, the statistics are the number and the bytes of all messages received that
/// are not the marker.
pub proof fn law_statistics_from_the_start(now: u64, events: Seq<MockEvent>)
    ensures
        after_events(mock_start(now), events).frames == without_markers(messages_in(events)).len(),
        after_events(mock_start(now), events).bytes == message_bytes(
            without_markers(messages_in(events)),
        ),
{
    law_statistics_count_all_but_the_markers(mock_start(now), events);
}

/// What is staged after a run of events is what staging all the frames drained in it leaves:
/// other messages and lines of statistics do not touch the staging buffer.
pub proof fn law_staging_depends_on_the_drained_frames(state: MockView, events: Seq<MockEvent>)
    ensures
        after_events(state, events).staging == staged_all(state.staging, drained_in(events)),
    decreases events.len(),
{
    if events.len() > 0 {
        let rest = events.drop_last();
        law_staging_depends_on_the_drained_frames(state, rest);
        if let MockEvent::Message { message, frames } = events.last() {
            law_drains_compose(state.staging, drained_in(rest), frames);
        }
    }
}

/// After any run of events from the start on, the staging buffer is within its capacity. Where
/// no drained frame is larger than the buffer, it holds whole frames only, the newest ones in
/// their order with none missing in between: those from the returned number on.
pub proof fn law_staging_over_a_run(now: u64, events: Seq<MockEvent>) -> (first: int)
    ensures
        after_events(mock_start(now), events).staging.len() <= STAGING_CAPACITY,
        (forall|i: int|
            0 <= i < drained_in(events).len() ==> (#[trigger] drained_in(events)[i]).len()
                <= STAGING_CAPACITY) ==> {
            &&& 0 <= first <= drained_in(events).len()
            &&& after_events(mock_start(now), events).staging == concatenated(
                drained_in(events).skip(first),
            )
        },
{
    let frames = drained_in(events);
    let start = Seq::<u8>::empty();
    law_staging_depends_on_the_drained_frames(mock_start(now), events);
    law_staging_stays_within_capacity(start, frames);
    if forall|i: int| 0 <= i < frames.len() ==> (#[trigger] frames[i]).len() <= STAGING_CAPACITY {
        let first = law_staging_holds_the_newest_frames(start, frames);
        if staged_all(start, frames) == start + concatenated(frames) {
            assert(frames.skip(0) =~= frames);
            assert(start + concatenated(frames) =~= concatenated(frames));
            0
        } else {
            first
        }
    } else {
        0
    }
}

} // verus!
