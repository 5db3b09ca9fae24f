//! How debug frames leave the service.
use vstd::prelude::*;

pub mod espi;

pub use espi::EspiTransport;

use crate::transport::espi::DebugChannel;

verus! {

/// Why a transport did not take a frame.
#[derive(Debug)]
pub enum TransportError {
    /// The transport is not available.
    Unavailable,
    /// The buffer is full.
    BufferFull,
    /// The connection failed.
    ConnectionError,
    /// An error of the transport's own.
    Other(&'static str),
}

/// A way to send debug frames.
pub trait DebugTransport {
    /// Sends one frame. `channel` is the channel to the eSPI task, for the transports that hand
    /// their frames over there.
    fn send(&mut self, data: &[u8], channel: &mut DebugChannel) -> Result<(), TransportError>;
}

/// Creates the transport that the service uses by default, which is the eSPI transport.
pub fn create_default_transport() -> (transport: EspiTransport)
    ensures
        transport == (EspiTransport {  }),
{
    EspiTransport::new()
}

} // verus!
