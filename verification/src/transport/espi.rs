//! The channel to the eSPI task, and the transport that hands frames over on it.
use embassy_sync::blocking_mutex::raw::CriticalSectionRawMutex;
use embassy_sync::channel::Channel;
use vstd::prelude::*;

use super::{DebugTransport, TransportError};
use crate::buffers::{frame_as_slice, frame_bytes, frame_clone, frame_extend_from_slice, frame_new};
use crate::frames::{
    after_receive, after_send, fits_message, free_slots, message_of, MessageView,
};

pub use crate::buffers::MAX_DEBUG_FRAME_SIZE;
pub use crate::frames::DEBUG_CHANNEL_CAPACITY;

verus! {

/// A debug message for out-of-band transmission over eSPI.
#[derive(Debug)]
pub struct EspiDebugMessage {
    /// The bytes to send.
    pub data: heapless::Vec<u8, MAX_DEBUG_FRAME_SIZE>,
    /// The port to send them to, 0 for debug.
    pub port: u8,
}

impl View for EspiDebugMessage {
    type V = MessageView;

    open spec fn view(&self) -> MessageView {
        (frame_bytes(self.data), self.port)
    }
}

impl Clone for EspiDebugMessage {
    fn clone(&self) -> (copy: Self)
        ensures
            copy@ == self@,
            frame_bytes(copy.data) == frame_bytes(self.data),
            copy.port == self.port,
    {
        EspiDebugMessage { data: frame_clone(&self.data), port: self.port }
    }
}

impl EspiDebugMessage {
    /// The message that carries a whole frame to the debug port, or nothing for a frame that is
    /// too large for one message.
    pub fn from_frame(frame: &[u8]) -> (message: Option<Self>)
        ensures
            message is Some <==> fits_message(frame@),
            message matches Some(m) ==> m@ == message_of(frame@),
            message is Some <==> frame@.len() <= 1024,
            message matches Some(m) ==> frame_bytes(m.data) == frame@ && m.port == 0,
    {
        let mut data = frame_new();
        if frame_extend_from_slice(&mut data, frame) {
            proof {
                assert(Seq::<u8>::empty() + frame@ =~= frame@);
            }
            Some(EspiDebugMessage { data, port: 0 })
        } else {
            None
        }
    }

    /// The bytes of the message.
    pub fn bytes(&self) -> (bytes: &[u8])
        ensures
            bytes@ == self@.0,
            bytes@ == frame_bytes(self.data),
            bytes@.len() <= MAX_DEBUG_FRAME_SIZE,
    {
        frame_as_slice(&self.data)
    }
}

/// The channel on which debug messages wait for the eSPI task: an
/// `embassy_sync::channel::Channel`, of which the contracts see what [`queued`] gives.
#[verifier::external_body]
pub struct DebugChannel {
    inner: Channel<CriticalSectionRawMutex, EspiDebugMessage, DEBUG_CHANNEL_CAPACITY>,
}

/// The messages in a debug channel, the oldest first.
pub uninterp spec fn queued(channel: DebugChannel) -> Seq<MessageView>;

impl View for DebugChannel {
    type V = Seq<MessageView>;

    open spec fn view(&self) -> Seq<MessageView> {
        queued(*self)
    }
}

/// `embassy_sync::channel::Channel::new`: no message waits in the channel.
#[verifier::external_body]
fn channel_new() -> (channel: DebugChannel)
    ensures
        queued(channel) == Seq::<MessageView>::empty(),
{
    DebugChannel { inner: Channel::new() }
}

/// `embassy_sync::channel::Channel::try_send`: the message goes behind those that wait when
/// there are fewer of them than the capacity, and otherwise nothing changes. The result says
/// which. Never more messages wait than the capacity. The channel is borrowed for this call
/// alone, so nobody else sends or receives meanwhile.
#[verifier::external_body]
fn channel_try_send(channel: &mut DebugChannel, message: EspiDebugMessage) -> (taken: bool)
    ensures
        taken <==> queued(*old(channel)).len() < DEBUG_CHANNEL_CAPACITY,
        taken ==> queued(*final(channel)) == queued(*old(channel)).push(message@),
        !taken ==> queued(*final(channel)) == queued(*old(channel)),
        queued(*final(channel)).len() <= DEBUG_CHANNEL_CAPACITY,
{
    channel.inner.try_send(message).is_ok()
}

/// `embassy_sync::channel::Channel::try_receive`: the oldest message leaves the channel, or
/// nothing changes when none waits. Never more messages wait than the capacity. The channel is
/// borrowed for this call alone, so nobody else sends or receives meanwhile.
#[verifier::external_body]
fn channel_try_receive(channel: &mut DebugChannel) -> (message: Option<EspiDebugMessage>)
    ensures
        message is Some <==> queued(*old(channel)).len() > 0,
        message matches Some(m) ==> m@ == queued(*old(channel))[0],
        message is Some ==> queued(*final(channel)) == queued(*old(channel)).drop_first(),
        message is None ==> queued(*final(channel)) == queued(*old(channel)),
        queued(*final(channel)).len() <= DEBUG_CHANNEL_CAPACITY,
{
    channel.inner.try_receive().ok()
}

impl DebugChannel {
    /// Creates a channel in which no message waits.
    pub fn new() -> (channel: Self)
        ensures
            channel@ == Seq::<MessageView>::empty(),
            queued(channel).len() == 0,
    {
        channel_new()
    }

    /// Puts a message at the end of the queue. Says whether there was room for it; without room
    /// the message is dropped.
    pub fn try_send(&mut self, message: EspiDebugMessage) -> (taken: bool)
        ensures
            taken <==> free_slots(old(self)@) > 0,
            final(self)@ == after_send(old(self)@, message@),
            final(self)@.len() <= DEBUG_CHANNEL_CAPACITY,
            taken <==> queued(*old(self)).len() < 32,
            queued(*final(self)) == if taken {
                queued(*old(self)).push((frame_bytes(message.data), message.port))
            } else {
                queued(*old(self))
            },
    {
        channel_try_send(self, message)
    }

    /// Takes the oldest message out of the queue, if one waits.
    pub fn try_receive(&mut self) -> (message: Option<EspiDebugMessage>)
        ensures
            message is Some <==> old(self)@.len() > 0,
            message matches Some(m) ==> m@ == old(self)@.first(),
            final(self)@ == after_receive(old(self)@),
            final(self)@.len() <= DEBUG_CHANNEL_CAPACITY,
            message is None ==> queued(*old(self)).len() == 0 && queued(*final(self)).len() == 0,
            message matches Some(m) ==> queued(*old(self)) == seq![
                (frame_bytes(m.data), m.port),
            ] + queued(*final(self)),
    {
        let ghost before = queued(*self);
        let message = channel_try_receive(self);
        proof {
            if before.len() > 0 {
                assert(before =~= seq![before[0]] + before.drop_first());
            }
        }
        message
    }
}

/// The transport that hands each frame to the eSPI task in one message.
pub struct EspiTransport {}

impl EspiTransport {
    /// Creates the eSPI transport.
    pub fn new() -> (transport: Self)
        ensures
            transport == (EspiTransport {  }),
    {
        Self {  }
    }

    /// Creates the eSPI transport from a configuration, of which there is none so far.
    pub fn with_config() -> (transport: Self)
        ensures
            transport == (EspiTransport {  }),
    {
        Self {  }
    }
}

impl Default for EspiTransport {
    fn default() -> (transport: Self)
        ensures
            transport == (EspiTransport {  }),
    {
        Self::new()
    }
}

impl DebugTransport for EspiTransport {
    /// Queues the frame for the eSPI task. A frame that is too large for one message, or that
    /// finds the channel full, is dropped, and the error is `BufferFull` in both cases.
    fn send(&mut self, data: &[u8], channel: &mut DebugChannel) -> (sent: Result<(), TransportError>)
        ensures
            *final(self) == *old(self),
            sent is Ok <==> fits_message(data@) && free_slots(old(channel)@) > 0,
            sent matches Err(error) ==> error is BufferFull,
            final(channel)@ == if fits_message(data@) {
                after_send(old(channel)@, message_of(data@))
            } else {
                old(channel)@
            },
            fits_message(data@) ==> final(channel)@.len() <= DEBUG_CHANNEL_CAPACITY,
            sent is Ok <==> data@.len() <= 1024 && queued(*old(channel)).len() < 32,
            queued(*final(channel)) == if sent is Ok {
                queued(*old(channel)).push((data@, 0u8))
            } else {
                queued(*old(channel))
            },
    {
        match EspiDebugMessage::from_frame(data) {
            None => Err(TransportError::BufferFull),
            Some(message) => {
                if channel.try_send(message) {
                    Ok(())
                } else {
                    Err(TransportError::BufferFull)
                }
            },
        }
    }
}

} // verus!
