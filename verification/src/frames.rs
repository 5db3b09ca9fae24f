//! What the contracts say of lists of frames.
use vstd::prelude::*;

use crate::buffers::{MAX_DEBUG_FRAME_SIZE, STAGING_CAPACITY};

verus! {

/// How many messages the debug channel holds at most.
pub const DEBUG_CHANNEL_CAPACITY: usize = 32;

/// A queued message, as its bytes and the port that it goes to.
pub type MessageView = (Seq<u8>, u8);

/// The frames of a list, each as its bytes.
pub open spec fn frame_views(frames: Seq<Vec<u8>>) -> Seq<Seq<u8>> {
    frames.map_values(|frame: Vec<u8>| frame@)
}

/// Whether one message can carry the frame.
pub open spec fn fits_message(frame: Seq<u8>) -> bool {
    frame.len() <= MAX_DEBUG_FRAME_SIZE
}

/// The message that carries a frame: all of its bytes, to the debug port.
pub open spec fn message_of(frame: Seq<u8>) -> MessageView {
    (frame, 0u8)
}

/// The messages for those of the frames that a message can carry, in the order of the frames.
pub open spec fn messages_of(frames: Seq<Seq<u8>>) -> Seq<MessageView> {
    frames.filter(|frame: Seq<u8>| fits_message(frame)).map_values(
        |frame: Seq<u8>| message_of(frame),
    )
}

/// How many of the frames no message can carry.
pub open spec fn too_large_count(frames: Seq<Seq<u8>>) -> nat {
    frames.filter(|frame: Seq<u8>| !fits_message(frame)).len()
}

/// How many more messages a channel with this queue takes.
pub open spec fn free_slots(queue: Seq<MessageView>) -> nat {
    if queue.len() < DEBUG_CHANNEL_CAPACITY {
        (DEBUG_CHANNEL_CAPACITY - queue.len()) as nat
    } else {
        0
    }
}

/// The queue after a message was sent to it: the message is at the end where there was room, and
/// is dropped where there was none.
pub open spec fn after_send(queue: Seq<MessageView>, message: MessageView) -> Seq<MessageView> {
    if free_slots(queue) > 0 {
        queue.push(message)
    } else {
        queue
    }
}

/// The queue after a receive: the oldest message has left it, where there was one.
pub open spec fn after_receive(queue: Seq<MessageView>) -> Seq<MessageView> {
    if queue.len() > 0 {
        queue.drop_first()
    } else {
        queue
    }
}

/// How many of the frames find a place in a channel with this queue.
pub open spec fn accepted_count(queue: Seq<MessageView>, frames: Seq<Seq<u8>>) -> nat {
    if messages_of(frames).len() <= free_slots(queue) {
        messages_of(frames).len()
    } else {
        free_slots(queue)
    }
}

/// The queue after the frames were forwarded to it: behind what waited there, the first of
/// their messages, as many as there was room for.
pub open spec fn forwarded(queue: Seq<MessageView>, frames: Seq<Seq<u8>>) -> Seq<MessageView> {
    queue + messages_of(frames).take(accepted_count(queue, frames) as int)
}

/// The bytes of all the frames, one frame after the other.
pub open spec fn concatenated(frames: Seq<Seq<u8>>) -> Seq<u8>
    decreases frames.len(),
{
    if frames.len() == 0 {
        Seq::empty()
    } else {
        concatenated(frames.drop_last()) + frames.last()
    }
}

/// What a staging buffer holds once a frame was added to it. A frame that has no room behind
/// what is there displaces all of it; one that is larger than the whole buffer is not kept.
pub open spec fn staged(staging: Seq<u8>, frame: Seq<u8>) -> Seq<u8> {
    if staging.len() + frame.len() <= STAGING_CAPACITY {
        staging + frame
    } else if frame.len() <= STAGING_CAPACITY {
        frame
    } else {
        Seq::empty()
    }
}

/// What a staging buffer holds once the frames were added to it, one after the other.
pub open spec fn staged_all(staging: Seq<u8>, frames: Seq<Seq<u8>>) -> Seq<u8>
    decreases frames.len(),
{
    if frames.len() == 0 {
        staging
    } else {
        staged(staged_all(staging, frames.drop_last()), frames.last())
    }
}

/// The lengths of the frames added up, each cut to its low 32 bits.
pub open spec fn counted_bytes(frames: Seq<Seq<u8>>) -> int
    decreases frames.len(),
{
    if frames.len() == 0 {
        0
    } else {
        counted_bytes(frames.drop_last()) + (frames.last().len() as u32)
    }
}

/// One more frame adds one message, or none when no message can carry it.
pub proof fn lemma_messages_of_push(frames: Seq<Seq<u8>>, frame: Seq<u8>)
    ensures
        messages_of(frames.push(frame)) == if fits_message(frame) {
            messages_of(frames).push(message_of(frame))
        } else {
            messages_of(frames)
        },
{
    assert(frames.push(frame).drop_last() =~= frames);
    assert(frames.push(frame).last() == frame);
    reveal(Seq::filter);
    assert(messages_of(frames.push(frame)) =~= if fits_message(frame) {
        messages_of(frames).push(message_of(frame))
    } else {
        messages_of(frames)
    });
}

/// One more frame adds one to the frames that no message can carry, or nothing when one can.
pub proof fn lemma_too_large_count_push(frames: Seq<Seq<u8>>, frame: Seq<u8>)
    ensures
        too_large_count(frames.push(frame)) == if fits_message(frame) {
            too_large_count(frames)
        } else {
            too_large_count(frames) + 1
        },
{
    assert(frames.push(frame).drop_last() =~= frames);
    assert(frames.push(frame).last() == frame);
    reveal(Seq::filter);
}

/// Every frame either has a message or is too large for one.
pub proof fn lemma_frames_fit_or_are_too_large(frames: Seq<Seq<u8>>)
    ensures
        messages_of(frames).len() + too_large_count(frames) == frames.len(),
    decreases frames.len(),
{
    if frames.len() == 0 {
        reveal(Seq::filter);
    } else {
        lemma_frames_fit_or_are_too_large(frames.drop_last());
        lemma_messages_of_push(frames.drop_last(), frames.last());
        lemma_too_large_count_push(frames.drop_last(), frames.last());
        assert(frames.drop_last().push(frames.last()) =~= frames);
    }
}

} // verus!
