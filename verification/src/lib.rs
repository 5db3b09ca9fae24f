//! A debug service that takes log frames out of a ring buffer and hands them to an eSPI task.
//!
//! - [`transport`] holds the message that carries one frame, the bounded channel on which the
//!   messages wait for the eSPI task, and the transport that puts single frames on it.
//! - [`service`] holds the service that waits for a request to flush and then forwards every
//!   frame that the ring has to offer.
//! - [`mock_espi_service`] holds the consumer at the other end of the channel, which answers a
//!   "DATA_READY" marker by collecting frames in a staging buffer.
//! - [`buffers`] ties the fixed-capacity byte vectors to the byte sequences they hold.
//! - [`frames`] holds the vocabulary of the contracts, [`meaning`] what its words come to in plain
//!   lengths and sequences, and [`laws`] what follows from them.
use vstd::prelude::*;

pub mod buffers;
pub mod frames;
pub mod laws;
pub mod meaning;
pub mod mock_espi_service;
pub mod service;
pub mod transport;

pub use service::Service;
pub use transport::create_default_transport;
pub use transport::{DebugTransport, EspiTransport, TransportError};

verus! {

/// What the debug service announces over the comms bus.
#[derive(Copy, Clone, Debug, PartialEq, Eq, Structural)]
pub enum DebugTxMessage {
    DataReady,
    ResponseDataBuffer,
}

/// Requests that the debug service handles over the comms bus.
#[derive(Copy, Clone, Debug, PartialEq, Eq, Structural)]
pub enum DebugRxMessage {
    /// Flush the log frames that are available to the eSPI channel.
    GetDataBuffer,
}

} // verus!
