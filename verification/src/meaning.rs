//! What the words of the contracts come to, in lengths, numbers and plain sequences.
//!
//! Each law here takes one of the notions that the contracts are written in and says what it is
//! for every input, by lengths, by numbers and by what comes where. Read together they leave each
//! notion one possible meaning.
use vstd::math::{max, min};
use vstd::prelude::*;

use crate::buffers::{frame_bytes, staging_bytes, MAX_DEBUG_FRAME_SIZE, STAGING_CAPACITY};
use crate::frames::{
    accepted_count, after_receive, after_send, concatenated, counted_bytes, fits_message, forwarded,
    frame_views, free_slots, message_of, messages_of, staged, staged_all, too_large_count,
    MessageView, DEBUG_CHANNEL_CAPACITY,
};
use crate::laws::{
    after_receives, queue_after_event, queue_after_events, received_in, taken_in, ChannelEvent,
};
use crate::mock_espi_service::{
    after_event, after_events, after_message, after_report, data_ready_marker, drain_countable,
    drained_in, is_marker, message_bytes, messages_in, mock_start, without_markers, MockEspiService,
    MockEvent, MockView, STATS_INTERVAL_SECS, TICKS_PER_SECOND,
};
use crate::service::{
    countable, pending_after, pending_after_all, queue_after_process, reports, signaled,
    DrainReport, Service,
};
use crate::transport::espi::{queued, DebugChannel, EspiDebugMessage};
use crate::DebugRxMessage;

verus! {

/// The limits: 1024 bytes to a message, 32 messages to the channel, 16 KiB to the staging buffer,
/// five seconds of a million ticks each between lines of statistics.
pub proof fn law_limits()
    ensures
        MAX_DEBUG_FRAME_SIZE == 1024,
        DEBUG_CHANNEL_CAPACITY == 32,
        STAGING_CAPACITY == 16384,
        STATS_INTERVAL_SECS * TICKS_PER_SECOND == 5_000_000,
{
}

/// The views leave nothing out and add nothing: a message is its bytes and its port, a channel
/// the messages queued in it, a pending request a signal that is set, and the state of the
/// stand-in its four fields.
pub proof fn law_views(
    message: EspiDebugMessage,
    channel: DebugChannel,
    service: Service,
    mock: MockEspiService,
)
    ensures
        message@.0 == frame_bytes(message.data),
        message@.1 == message.port,
        channel@ == queued(channel),
        service.request_pending() == signaled(service.request_signal),
        mock@.staging == staging_bytes(mock.staging),
        mock@.frames == mock.frames,
        mock@.bytes == mock.bytes,
        mock@.last_stats == mock.last_stats,
{
}

/// A list of frames is viewed frame by frame, each as all of its bytes.
pub proof fn law_frames_are_viewed_one_by_one(frames: Seq<Vec<u8>>)
    ensures
        frame_views(frames).len() == frames.len(),
        forall|i: int| 0 <= i < frames.len() ==> (#[trigger] frame_views(frames)[i]) == frames[i]@,
        frame_views(frames) == frames.map_values(|frame: Vec<u8>| frame@),
{
}

/// Whether a message can carry a frame is decided by the length of the frame alone: up to 1024
/// bytes it can, whatever the bytes are.
pub proof fn law_a_frame_fits_by_its_length(frame: Seq<u8>)
    ensures
        fits_message(frame) <==> frame.len() <= 1024,
{
}

/// A message carries all the bytes of its frame, to port 0.
pub proof fn law_a_message_carries_the_whole_frame(frame: Seq<u8>)
    ensures
        message_of(frame).0 == frame,
        message_of(frame).1 == 0,
{
}

/// The messages of a list of frames are the frames of up to 1024 bytes, in their order, each
/// for port 0.
pub proof fn law_messages_by_length(frames: Seq<Seq<u8>>)
    ensures
        messages_of(frames) == frames.filter(|frame: Seq<u8>| frame.len() <= 1024).map_values(
            |frame: Seq<u8>| (frame, 0u8),
        ),
        messages_of(frames).len() == frames.filter(|frame: Seq<u8>| frame.len() <= 1024).len(),
{
    assert((|frame: Seq<u8>| frame.len() <= 1024) =~= (|frame: Seq<u8>| fits_message(frame)));
    assert((|frame: Seq<u8>| (frame, 0u8)) =~= (|frame: Seq<u8>| message_of(frame)));
}

/// The frames that are too large are those of more than 1024 bytes; there are as many as there
/// are frames less the frames of up to 1024 bytes.
pub proof fn law_too_large_by_length(frames: Seq<Seq<u8>>)
    ensures
        too_large_count(frames) == frames.filter(|frame: Seq<u8>| frame.len() > 1024).len(),
        too_large_count(frames) == frames.len() - frames.filter(
            |frame: Seq<u8>| frame.len() <= 1024,
        ).len(),
{
    assert((|frame: Seq<u8>| frame.len() > 1024) =~= (|frame: Seq<u8>| !fits_message(frame)));
    law_messages_by_length(frames);
    crate::frames::lemma_frames_fit_or_are_too_large(frames);
}

/// A channel takes messages until 32 wait in it.
pub proof fn law_room_in_the_channel(queue: Seq<MessageView>)
    ensures
        free_slots(queue) == max(0, 32 - queue.len()),
        free_slots(queue) > 0 <==> queue.len() < 32,
{
}

/// With fewer than 32 messages waiting a sent message becomes the newest and the others stay as
/// they are; with 32 or more nothing changes.
pub proof fn law_send_to_a_queue(queue: Seq<MessageView>, message: MessageView)
    ensures
        queue.len() < 32 ==> {
            &&& after_send(queue, message).len() == queue.len() + 1
            &&& after_send(queue, message).drop_last() == queue
            &&& after_send(queue, message).last() == message
        },
        queue.len() >= 32 ==> after_send(queue, message) == queue,
{
    assert(queue.push(message).drop_last() =~= queue);
}

/// A receive takes away the oldest message and nothing else; from an empty queue it takes
/// nothing.
pub proof fn law_receive_from_a_queue(queue: Seq<MessageView>)
    ensures
        queue.len() > 0 ==> seq![queue[0]] + after_receive(queue) == queue,
        queue.len() == 0 ==> after_receive(queue).len() == 0,
{
    if queue.len() > 0 {
        assert(seq![queue[0]] + after_receive(queue) =~= queue);
    }
}

/// So many receives take away so many of the oldest messages.
pub proof fn law_receives_from_a_queue(queue: Seq<MessageView>, n: nat)
    requires
        n <= queue.len(),
    ensures
        after_receives(queue, n) == queue.skip(n as int),
    decreases n,
{
    if n == 0 {
        assert(queue.skip(0) =~= queue);
    } else {
        law_receives_from_a_queue(queue, (n - 1) as nat);
        assert(queue.skip(n - 1).drop_first() =~= queue.skip(n as int));
    }
}

/// A flush puts the frames of up to 1024 bytes behind what waits, each whole and for port 0, in
/// their order, from the first on, until 32 messages wait.
pub proof fn law_flush_by_length(queue: Seq<MessageView>, frames: Seq<Seq<u8>>)
    ensures
        ({
            let fitting = frames.filter(|frame: Seq<u8>| frame.len() <= 1024);
            let taken = min(fitting.len() as int, max(0, 32 - queue.len()));
            &&& accepted_count(queue, frames) == taken
            &&& forwarded(queue, frames) == queue + fitting.map_values(
                |frame: Seq<u8>| (frame, 0u8),
            ).take(taken)
        }),
{
    law_messages_by_length(frames);
}

/// A report counts every frame, the lengths of all of them added up, the frames of more than 1024
/// bytes, and as channel-full the frames of up to 1024 bytes by which the queue did not grow.
pub proof fn law_report_by_length(
    report: DrainReport,
    queue: Seq<MessageView>,
    frames: Seq<Seq<u8>>,
)
    ensures
        ({
            let fitting = frames.filter(|frame: Seq<u8>| frame.len() <= 1024).len();
            reports(report, queue, frames) <==> {
                &&& report.frames == frames.len()
                &&& report.bytes == frames.fold_left(
                    0int,
                    (|sum: int, frame: Seq<u8>| sum + frame.len()),
                )
                &&& report.too_large == frames.filter(|frame: Seq<u8>| frame.len() > 1024).len()
                &&& report.channel_full == fitting - (forwarded(queue, frames).len() - queue.len())
                &&& report.channel_full == fitting - min(
                    fitting as int,
                    max(0, 32 - queue.len()),
                )
            }
        }),
{
    law_flush_by_length(queue, frames);
    law_too_large_by_length(frames);
    law_messages_by_length(frames);
    law_concatenation_by_length(frames);
}

/// The bytes of several frames are the frames one after the other, and their number is the
/// lengths of the frames added up.
pub proof fn law_concatenation_by_length(frames: Seq<Seq<u8>>)
    ensures
        concatenated(frames) == frames.flatten(),
        concatenated(frames).len() == frames.fold_left(
            0int,
            (|sum: int, frame: Seq<u8>| sum + frame.len()),
        ),
    decreases frames.len(),
{
    frames.lemma_flatten_and_flatten_alt_are_equivalent();
    if frames.len() > 0 {
        let rest = frames.drop_last();
        law_concatenation_by_length(rest);
        rest.lemma_flatten_and_flatten_alt_are_equivalent();
    }
}

/// A flush can be counted whenever the number of the frames fits 32 bits and their bytes fit a
/// `usize`.
pub proof fn law_what_a_flush_can_count(frames: Seq<Seq<u8>>)
    ensures
        countable(frames) <==> {
            &&& frames.len() <= u32::MAX
            &&& frames.fold_left(0int, (|sum: int, frame: Seq<u8>| sum + frame.len()))
                <= usize::MAX
        },
{
    law_concatenation_by_length(frames);
}

/// A request is pending after a message just when it was before or the message is a request;
/// there is one kind of request.
pub proof fn law_request_flag(pending: bool, request: Option<DebugRxMessage>)
    ensures
        pending_after(pending, request) <==> pending || request is Some,
{
    if let Some(kind) = request {
        match kind {
            DebugRxMessage::GetDataBuffer => {},
        }
    }
}

/// Without a request the service leaves the channel alone, whatever is in the ring and whatever
/// other messages came in.
pub proof fn law_idle_service_leaves_the_channel_alone(
    requests: Seq<Option<DebugRxMessage>>,
    queue: Seq<MessageView>,
    frames: Seq<Seq<u8>>,
)
    requires
        !requests.contains(Some(DebugRxMessage::GetDataBuffer)),
    ensures
        queue_after_process(pending_after_all(false, requests), queue, frames) == queue,
        queue_after_process(false, queue, frames) == queue,
{
    crate::laws::law_no_request_is_lost(false, requests);
}

/// With a request the service does to the channel what a flush of the ring does.
pub proof fn law_requested_service_flushes(queue: Seq<MessageView>, frames: Seq<Seq<u8>>)
    ensures
        ({
            let fitting = frames.filter(|frame: Seq<u8>| frame.len() <= 1024);
            let taken = min(fitting.len() as int, max(0, 32 - queue.len()));
            queue_after_process(true, queue, frames) == queue + fitting.map_values(
                |frame: Seq<u8>| (frame, 0u8),
            ).take(taken)
        }),
{
    law_flush_by_length(queue, frames);
}

/// The marker is the text "DATA_READY", and a message is the marker just when its bytes are that
/// text, whatever its port.
pub proof fn law_the_marker(message: MessageView)
    ensures
        is_marker(message) <==> message.0 == seq![
            0x44u8, 0x41u8, 0x54u8, 0x41u8, 0x5Fu8, 0x52u8, 0x45u8, 0x41u8, 0x44u8, 0x59u8,
        ],
        is_marker(message) <==> message.0 == data_ready_marker(),
        data_ready_marker().map_values(|byte: u8| byte as char) == "DATA_READY"@,
{
    reveal_strlit("DATA_READY");
    assert(data_ready_marker().map_values(|byte: u8| byte as char) =~= "DATA_READY"@);
}

/// A frame that has room behind what is staged is added there and nothing is lost. One that has
/// none displaces what is staged, and is itself kept when it is no larger than the buffer.
pub proof fn law_staging_a_frame(staging: Seq<u8>, frame: Seq<u8>)
    ensures
        staging.len() + frame.len() <= 16384 ==> staged(staging, frame) == staging + frame,
        staging.len() + frame.len() > 16384 && frame.len() <= 16384 ==> staged(staging, frame)
            == frame,
        frame.len() > 16384 ==> staged(staging, frame).len() == 0,
{
}

/// Frames are staged one after the other, the first one first.
pub proof fn law_staging_frames_in_turn(staging: Seq<u8>, frames: Seq<Seq<u8>>)
    ensures
        staged_all(staging, frames) == frames.fold_left(
            staging,
            (|held: Seq<u8>, frame: Seq<u8>|
                if held.len() + frame.len() <= 16384 {
                    held + frame
                } else if frame.len() <= 16384 {
                    frame
                } else {
                    Seq::<u8>::empty()
                }),
        ),
    decreases frames.len(),
{
    if frames.len() > 0 {
        law_staging_frames_in_turn(staging, frames.drop_last());
    }
}

/// The counted bytes are the low 32 bits of each length added up.
pub proof fn law_counted_bytes_by_length(frames: Seq<Seq<u8>>)
    ensures
        counted_bytes(frames) == frames.fold_left(
            0int,
            (|sum: int, frame: Seq<u8>| sum + (frame.len() as u32)),
        ),
        drain_countable(frames) <==> {
            &&& frames.len() <= u32::MAX
            &&& frames.fold_left(0int, (|sum: int, frame: Seq<u8>| sum + (frame.len() as u32)))
                <= u32::MAX
        },
    decreases frames.len(),
{
    if frames.len() > 0 {
        law_counted_bytes_by_length(frames.drop_last());
    }
}

/// The stand-in can handle the marker whenever the drain can be counted, and any other message
/// whenever its counters have room for one message and its bytes.
pub proof fn law_what_the_mock_can_handle(
    mock: MockEspiService,
    message: MessageView,
    frames: Seq<Seq<u8>>,
)
    ensures
        is_marker(message) ==> (mock.can_handle(message, frames) <==> drain_countable(frames)),
        !is_marker(message) ==> (mock.can_handle(message, frames) <==> {
            &&& mock.frames + 1 <= u32::MAX
            &&& mock.bytes + message.0.len() <= u32::MAX
        }),
{
}

/// The stand-in starts with nothing staged and nothing counted.
pub proof fn law_mock_starts_empty(now: u64)
    ensures
        mock_start(now).staging.len() == 0,
        mock_start(now).frames == 0,
        mock_start(now).bytes == 0,
        mock_start(now).last_stats == now,
{
}

/// The marker changes only what is staged, any other message only the counters, by one and by
/// its length, and a report only the time of the last report.
pub proof fn law_mock_event(
    state: MockView,
    message: MessageView,
    frames: Seq<Seq<u8>>,
    now: u64,
)
    ensures
        is_marker(message) ==> after_message(state, message, frames) == (MockView {
            staging: staged_all(state.staging, frames),
            frames: state.frames,
            bytes: state.bytes,
            last_stats: state.last_stats,
        }),
        !is_marker(message) ==> after_message(state, message, frames) == (MockView {
            staging: state.staging,
            frames: state.frames + 1,
            bytes: state.bytes + message.0.len(),
            last_stats: state.last_stats,
        }),
        after_report(state, now) == (MockView {
            staging: state.staging,
            frames: state.frames,
            bytes: state.bytes,
            last_stats: now,
        }),
        after_event(state, MockEvent::Message { message, frames }) == after_message(
            state,
            message,
            frames,
        ),
        after_event(state, MockEvent::Reported { now }) == after_report(state, now),
{
}

/// A run of events happens one event after the other. Each message in it is among the messages of
/// the run, and the frames that come with a marker are among the drained ones.
pub proof fn law_mock_run(
    state: MockView,
    events: Seq<MockEvent>,
    message: MessageView,
    frames: Seq<Seq<u8>>,
    now: u64,
)
    ensures
        after_events(state, Seq::empty()) == state,
        after_events(state, events.push(MockEvent::Message { message, frames })) == after_message(
            after_events(state, events),
            message,
            frames,
        ),
        after_events(state, events.push(MockEvent::Reported { now })) == after_report(
            after_events(state, events),
            now,
        ),
        messages_in(Seq::empty()).len() == 0,
        messages_in(events.push(MockEvent::Message { message, frames })) == messages_in(
            events,
        ).push(message),
        messages_in(events.push(MockEvent::Reported { now })) == messages_in(events),
        drained_in(Seq::empty()).len() == 0,
        drained_in(events.push(MockEvent::Message { message, frames })) == if is_marker(message) {
            drained_in(events) + frames
        } else {
            drained_in(events)
        },
        drained_in(events.push(MockEvent::Reported { now })) == drained_in(events),
{
    assert(events.push(MockEvent::Message { message, frames }).drop_last() =~= events);
    assert(events.push(MockEvent::Reported { now }).drop_last() =~= events);
}

/// The messages that count are those whose bytes are not the marker, and their bytes are their
/// lengths added up.
pub proof fn law_messages_that_count(messages: Seq<MessageView>)
    ensures
        without_markers(messages) == messages.filter(
            |message: MessageView|
                message.0 != seq![
                    0x44u8, 0x41u8, 0x54u8, 0x41u8, 0x5Fu8, 0x52u8, 0x45u8, 0x41u8, 0x44u8, 0x59u8,
                ],
        ),
        message_bytes(messages) == messages.fold_left(
            0int,
            (|sum: int, message: MessageView| sum + message.0.len()),
        ),
    decreases messages.len(),
{
    assert((|message: MessageView|
        message.0 != seq![
            0x44u8, 0x41u8, 0x54u8, 0x41u8, 0x5Fu8, 0x52u8, 0x45u8, 0x41u8, 0x44u8, 0x59u8,
        ]) =~= (|message: MessageView| !is_marker(message)));
    if messages.len() > 0 {
        law_messages_that_count(messages.drop_last());
    }
}

/// What is done to the channel happens one event after the other. What a send or a flush adds to
/// the queue is taken in, and what a receive takes away from it is received.
pub proof fn law_channel_run(events: Seq<ChannelEvent>, event: ChannelEvent)
    ensures
        queue_after_events(Seq::empty()).len() == 0,
        taken_in(Seq::empty()).len() == 0,
        received_in(Seq::empty()).len() == 0,
        ({
            let before = queue_after_events(events);
            let after = queue_after_events(events.push(event));
            &&& after == queue_after_event(before, event)
            &&& event matches ChannelEvent::Sent { message } ==> after == after_send(
                before,
                message,
            )
            &&& event matches ChannelEvent::Flushed { frames } ==> after == forwarded(
                before,
                frames,
            )
            &&& event is Received ==> after == after_receive(before)
            &&& event !is Received ==> {
                &&& taken_in(events.push(event)) == taken_in(events) + after.skip(
                    before.len() as int,
                )
                &&& received_in(events.push(event)) == received_in(events)
            }
            &&& event is Received ==> {
                &&& taken_in(events.push(event)) == taken_in(events)
                &&& received_in(events.push(event)) == received_in(events) + before.take(
                    min(1, before.len() as int),
                )
            }
        }),
{
    assert(events.push(event).drop_last() =~= events);
    let before = queue_after_events(events);
    let after = queue_after_events(events.push(event));
    if event is Received {
        assert(received_in(events.push(event)) =~= received_in(events) + before.take(
            min(1, before.len() as int),
        ));
    } else {
        assert(taken_in(events.push(event)) =~= taken_in(events) + after.skip(
            before.len() as int,
        ));
    }
}

} // verus!
