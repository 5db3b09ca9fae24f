//! The service that flushes the log ring to the eSPI task on request.
use embassy_sync::blocking_mutex::raw::CriticalSectionRawMutex;
use embassy_sync::signal::Signal;
use vstd::math::{max, min};
use vstd::prelude::*;

use crate::frames::{
    accepted_count, concatenated, forwarded, frame_views,
    lemma_frames_fit_or_are_too_large, lemma_messages_of_push, lemma_too_large_count_push,
    messages_of, too_large_count, MessageView,
    DEBUG_CHANNEL_CAPACITY,
};
use crate::meaning::{
    law_concatenation_by_length, law_flush_by_length, law_messages_by_length,
    law_too_large_by_length,
};
use crate::transport::espi::{queued, DebugChannel, EspiDebugMessage};
use crate::DebugRxMessage;

verus! {

/// The endpoints inside the controller that this service knows.
#[derive(Copy, Clone, Debug, PartialEq, Eq, Structural)]
pub enum Internal {
    /// The debug service.
    Debug,
}

/// The endpoints outside the controller that this service knows.
#[derive(Copy, Clone, Debug, PartialEq, Eq, Structural)]
pub enum External {
    /// The host.
    Host,
}

/// Who sends or receives on the comms bus.
#[derive(Copy, Clone, Debug, PartialEq, Eq, Structural)]
pub enum EndpointID {
    Internal(Internal),
    External(External),
}

/// Why a message from the comms bus was not handled.
#[derive(Copy, Clone, Debug, PartialEq, Eq, Structural)]
pub enum MailboxDelegateError {
    /// The message is none that the service handles.
    MessageNotFound,
}

/// The signal that a request to flush has come in and was not served yet: an
/// `embassy_sync::signal::Signal`, of which the contracts see what [`signaled`] gives.
#[verifier::external_body]
pub struct RequestSignal {
    inner: Signal<CriticalSectionRawMutex, ()>,
}

/// Whether a value waits in the signal.
pub uninterp spec fn signaled(signal: RequestSignal) -> bool;

/// `embassy_sync::signal::Signal::new`: no value waits.
#[verifier::external_body]
fn signal_new() -> (signal: RequestSignal)
    ensures
        !signaled(signal),
{
    RequestSignal { inner: Signal::new() }
}

/// `embassy_sync::signal::Signal::signal`: a value waits now, in place of any that did.
#[verifier::external_body]
fn signal_signal(signal: &mut RequestSignal)
    ensures
        signaled(*final(signal)),
{
    signal.inner.signal(())
}

/// `embassy_sync::signal::Signal::try_take`: takes the value that waits. The result says
/// whether there was one; none waits afterwards.
#[verifier::external_body]
fn signal_try_take(signal: &mut RequestSignal) -> (taken: bool)
    ensures
        taken <==> signaled(*old(signal)),
        !signaled(*final(signal)),
{
    signal.inner.try_take().is_some()
}

/// What came of one flush.
#[derive(Copy, Clone, Debug, PartialEq, Eq, Structural)]
pub struct DrainReport {
    /// The frames that were taken out of the ring.
    pub frames: u32,
    /// The bytes in those frames.
    pub bytes: usize,
    /// The frames that were dropped because no message can carry them.
    pub too_large: u32,
    /// The frames that were dropped because the channel was full.
    pub channel_full: u32,
}

/// Whether the counters of a report can hold what there is to count in the frames.
pub open spec fn countable(frames: Seq<Seq<u8>>) -> bool {
    frames.len() <= u32::MAX && concatenated(frames).len() <= usize::MAX
}

/// Whether a report tells what comes of forwarding the frames to a channel with this queue.
pub open spec fn reports(
    report: DrainReport,
    queue: Seq<MessageView>,
    frames: Seq<Seq<u8>>,
) -> bool {
    &&& report.frames == frames.len()
    &&& report.bytes == concatenated(frames).len()
    &&& report.too_large == too_large_count(frames)
    &&& report.channel_full == messages_of(frames).len() - accepted_count(queue, frames)
}

/// The request flag after a message from the comms bus: a request to flush sets it, and
/// setting it again changes nothing.
pub open spec fn pending_after(pending: bool, request: Option<DebugRxMessage>) -> bool {
    pending || request == Some(DebugRxMessage::GetDataBuffer)
}

/// The request flag after several messages from the comms bus.
pub open spec fn pending_after_all(pending: bool, requests: Seq<Option<DebugRxMessage>>) -> bool
    decreases requests.len(),
{
    if requests.len() == 0 {
        pending
    } else {
        pending_after(pending_after_all(pending, requests.drop_last()), requests.last())
    }
}

/// The queue after the service got to run: the frames were forwarded to it if a request was
/// pending.
pub open spec fn queue_after_process(
    pending: bool,
    queue: Seq<MessageView>,
    frames: Seq<Seq<u8>>,
) -> Seq<MessageView> {
    if pending {
        forwarded(queue, frames)
    } else {
        queue
    }
}

proof fn lemma_concatenated_push(frames: Seq<Seq<u8>>, n: int)
    requires
        0 <= n < frames.len(),
    ensures
        concatenated(frames.take(n + 1)) == concatenated(frames.take(n)) + frames[n],
        concatenated(frames.take(n + 1)).len() <= concatenated(frames).len(),
    decreases frames.len() - n,
{
    assert(frames.take(n + 1).drop_last() =~= frames.take(n));
    if n + 1 < frames.len() {
        lemma_concatenated_push(frames, n + 1);
    } else {
        assert(frames.take(n + 1) =~= frames);
    }
}

/// Forwards the frames to the channel in their order, each in a message of its own. A frame
/// that no message can carry, or that finds the channel full, is dropped and counted.
pub fn drain_frames(frames: &[Vec<u8>], channel: &mut DebugChannel) -> (report: DrainReport)
    requires
        countable(frame_views(frames@)),
    ensures
        reports(report, old(channel)@, frame_views(frames@)),
        final(channel)@ == forwarded(old(channel)@, frame_views(frames@)),
        messages_of(frame_views(frames@)).len() > 0 ==> final(channel)@.len()
            <= DEBUG_CHANNEL_CAPACITY,
        ({
            let views = frames@.map_values(|frame: Vec<u8>| frame@);
            let fitting = views.filter(|frame: Seq<u8>| frame.len() <= 1024);
            let before = queued(*old(channel));
            let after = queued(*final(channel));
            let taken = min(fitting.len() as int, max(0, 32 - before.len()));
            &&& after == before + fitting.map_values(|frame: Seq<u8>| (frame, 0u8)).take(taken)
            &&& report.frames == frames@.len()
            &&& report.bytes == views.fold_left(
                0int,
                (|sum: int, frame: Seq<u8>| sum + frame.len()),
            )
            &&& report.too_large == views.filter(|frame: Seq<u8>| frame.len() > 1024).len()
            &&& report.channel_full == fitting.len() - (after.len() - before.len())
        }),
{
    let ghost views = frame_views(frames@);
    let ghost queue = channel@;
    let mut drained_frames: u32 = 0;
    let mut drained_bytes: usize = 0;
    let mut too_large: u32 = 0;
    let mut channel_full: u32 = 0;
    let mut i: usize = 0;
    proof {
        lemma_frames_fit_or_are_too_large(views.take(0));
        assert(channel@ =~= forwarded(queue, views.take(0)));
    }
    while i < frames.len()
        invariant
            i <= frames@.len(),
            views == frame_views(frames@),
            countable(views),
            drained_frames == i,
            drained_bytes == concatenated(views.take(i as int)).len(),
            too_large == too_large_count(views.take(i as int)),
            channel_full == messages_of(views.take(i as int)).len() - accepted_count(
                queue,
                views.take(i as int),
            ),
            channel@ == forwarded(queue, views.take(i as int)),
            messages_of(views.take(i as int)).len() > 0 ==> channel@.len()
                <= DEBUG_CHANNEL_CAPACITY,
        decreases frames@.len() - i,
    {
        let frame = frames[i].as_slice();
        let ghost before = views.take(i as int);
        proof {
            lemma_concatenated_push(views, i as int);
            lemma_messages_of_push(before, frame@);
            lemma_too_large_count_push(before, frame@);
            lemma_frames_fit_or_are_too_large(before);
            assert(views.take(i + 1) =~= before.push(frame@));
        }
        drained_frames += 1;
        drained_bytes += frame.len();
        match EspiDebugMessage::from_frame(frame) {
            Some(message) => {
                if !channel.try_send(message) {
                    channel_full += 1;
                }
            },
            None => {
                too_large += 1;
            },
        }
        proof {
            assert(channel@ =~= forwarded(queue, views.take(i + 1)));
        }
        i += 1;
    }
    proof {
        assert(views.take(views.len() as int) =~= views);
        law_flush_by_length(queue, views);
        law_messages_by_length(views);
        law_too_large_by_length(views);
        law_concatenation_by_length(views);
    }
    DrainReport { frames: drained_frames, bytes: drained_bytes, too_large, channel_full }
}

/// The debug service.
pub struct Service {
    /// Where the service is reached on the comms bus.
    pub endpoint: EndpointID,
    /// Set when a request to flush comes in, and taken when it is served.
    pub request_signal: RequestSignal,
}

impl Service {
    /// Whether a request to flush has come in and was not served yet.
    pub open spec fn request_pending(self) -> bool {
        signaled(self.request_signal)
    }

    /// Creates the service, with no request to serve.
    pub fn new() -> (service: Self)
        ensures
            service.endpoint == EndpointID::Internal(Internal::Debug),
            !service.request_pending(),
            !signaled(service.request_signal),
    {
        Service {
            endpoint: EndpointID::Internal(Internal::Debug),
            request_signal: signal_new(),
        }
    }

    /// Handles a message from the comms bus, of which `request` is the debug request in it, if
    /// there is one. A request to flush is noted; every other message is refused.
    pub fn receive(&mut self, request: Option<DebugRxMessage>) -> (handled: Result<
        (),
        MailboxDelegateError,
    >)
        ensures
            handled == if request == Some(DebugRxMessage::GetDataBuffer) {
                Ok::<(), MailboxDelegateError>(())
            } else {
                Err(MailboxDelegateError::MessageNotFound)
            },
            final(self).request_pending() == pending_after(old(self).request_pending(), request),
            handled is Ok <==> request is Some,
            signaled(final(self).request_signal) <==> signaled(old(self).request_signal)
                || request is Some,
            final(self).endpoint == old(self).endpoint,
    {
        if let Some(req) = request {
            match req {
                DebugRxMessage::GetDataBuffer => {
                    signal_signal(&mut self.request_signal);
                    return Ok(());
                },
            }
        }
        Err(MailboxDelegateError::MessageNotFound)
    }

    /// Takes the request to flush that is noted, and says whether there was one. Whoever takes
    /// it owes the flush: reads the frames that the ring has to offer and hands them to
    /// [`drain_frames`].
    pub fn take_request(&mut self) -> (taken: bool)
        ensures
            taken <==> old(self).request_pending(),
            !final(self).request_pending(),
            taken <==> signaled(old(self).request_signal),
            !signaled(final(self).request_signal),
            final(self).endpoint == old(self).endpoint,
    {
        signal_try_take(&mut self.request_signal)
    }

    /// Serves a request to flush, if one is noted: forwards the frames that the ring has to
    /// offer to the eSPI task, each in a message of its own, and tells what came of it. Without
    /// a request nothing happens, and the result is `None`.
    pub fn process(&mut self, frames: &[Vec<u8>], channel: &mut DebugChannel) -> (report: Option<
        DrainReport,
    >)
        requires
            old(self).request_pending() ==> countable(frame_views(frames@)),
        ensures
            report is Some <==> old(self).request_pending(),
            report matches Some(r) ==> reports(r, old(channel)@, frame_views(frames@)),
            final(channel)@ == queue_after_process(
                old(self).request_pending(),
                old(channel)@,
                frame_views(frames@),
            ),
            old(self).request_pending() && messages_of(frame_views(frames@)).len() > 0
                ==> final(channel)@.len() <= DEBUG_CHANNEL_CAPACITY,
            !final(self).request_pending(),
            report is Some <==> signaled(old(self).request_signal),
            !signaled(final(self).request_signal),
            report is None ==> queued(*final(channel)) == queued(*old(channel)),
            report matches Some(r) ==> {
                let views = frames@.map_values(|frame: Vec<u8>| frame@);
                let fitting = views.filter(|frame: Seq<u8>| frame.len() <= 1024);
                let before = queued(*old(channel));
                let after = queued(*final(channel));
                let taken = min(fitting.len() as int, max(0, 32 - before.len()));
                &&& after == before + fitting.map_values(|frame: Seq<u8>| (frame, 0u8)).take(taken)
                &&& r.frames == frames@.len()
                &&& r.bytes == views.fold_left(
                    0int,
                    (|sum: int, frame: Seq<u8>| sum + frame.len()),
                )
                &&& r.too_large == views.filter(|frame: Seq<u8>| frame.len() > 1024).len()
                &&& r.channel_full == fitting.len() - (after.len() - before.len())
            },
            final(self).endpoint == old(self).endpoint,
    {
        if signal_try_take(&mut self.request_signal) {
            Some(drain_frames(frames, channel))
        } else {
            None
        }
    }
}

impl Default for Service {
    fn default() -> (service: Self)
        ensures
            service.endpoint == EndpointID::Internal(Internal::Debug),
            !service.request_pending(),
            !signaled(service.request_signal),
    {
        Self::new()
    }
}

} // verus!
