//! Host-side driver for a companion connectivity module ("the peer") spoken to
//! over a shared two-wire serial bus with a line-delimited JSON
//! request/response protocol.
//!
//! The core is the protocol engine: it frames outbound JSON requests into
//! bus-legal chunks, polls the peer for response readiness, reassembles the
//! response within a fixed-capacity buffer, and classifies the result as a
//! typed success payload, a device-reported error envelope, or a transport
//! fault.
use vstd::prelude::*;

pub mod card;
pub mod engine;
pub mod hub;
pub mod json;

verus! {

/// A transport-level failure of one request/response cycle.
///
/// These are faults of the bus or of the framing; a semantic failure that the
/// peer itself reports travels as a [`NotecardError`] instead.
#[derive(Clone, Copy, PartialEq, Eq, Structural, Debug)]
pub enum TransportFault {
    /// The peer did not acknowledge a chunk write or read.
    NoAck,
    /// The poller exhausted its attempt budget without the peer reporting data.
    Timeout,
    /// The peer signalled end-of-data before a frame terminator was found.
    Malformed,
    /// The response would exceed the fixed response buffer; the partial
    /// response is drained from the peer before this fault is reported.
    Overflow,
    /// The outbound request exceeds the request buffer capacity; detected
    /// before any bus activity.
    TooLarge,
    /// The frame was received but does not decode as the expected shape.
    DecodeError,
}

/// The engine's configuration surface. All sizes are counts of bytes; the
/// timeout is a count of poll attempts, not wall-clock time, so that the
/// engine needs no timer source.
#[derive(Clone, Copy, PartialEq, Eq, Structural, Debug)]
pub struct EngineConfig {
    /// Largest payload of one bus transfer; the per-chunk length prefix is one
    /// byte, so at most 255.
    pub chunk_size: usize,
    /// How many status reads the poller issues before reporting a timeout.
    pub max_attempts: usize,
    /// Capacity of the outbound request buffer, terminator included.
    pub request_capacity: usize,
    /// Capacity of the response reassembly buffer, terminator included.
    pub response_capacity: usize,
}

/// The documented defaults: 30-byte chunks, 50 poll attempts, a 256-byte
/// request buffer and a 1024-byte response buffer.
pub open spec fn spec_default_config() -> EngineConfig {
    EngineConfig { chunk_size: 30, max_attempts: 50, request_capacity: 256, response_capacity: 1024 }
}

impl EngineConfig {
    /// The bounds the protocol forces: a chunk must fit its one-byte length
    /// prefix, and every buffer and budget is positive and fits the scanner's
    /// frame ceiling.
    pub open spec fn wf(self) -> bool {
        &&& 1 <= self.chunk_size <= 255
        &&& 1 <= self.max_attempts <= 65535
        &&& 1 <= self.request_capacity <= 65535
        &&& 1 <= self.response_capacity <= 65535
    }

    /// The default configuration.
    pub fn new() -> (r: EngineConfig)
        ensures
            r == spec_default_config(),
            r.wf(),
    {
        EngineConfig { chunk_size: 30, max_attempts: 50, request_capacity: 256, response_capacity: 1024 }
    }
}

} // verus!
