//! The device runtime boundary, modeled.
//!
//! Status codes, tensor-usage and data-type tags mirror the closed sets
//! that the device runtime's interface exposes.  Usage and data-type tags
//! are plain `u32` values rather than Rust enums because callers of the
//! runtime can hand it any word: rejecting a tag outside the valid set is
//! part of the behaviour specified here.

use vstd::prelude::*;

verus! {

/// Outcome of a runtime call.
///
/// `Invalid` reports a malformed argument caught before any device work;
/// `Failure` reports everything else that goes wrong.
#[derive(Clone, Copy, Debug, PartialEq, Eq, Structural)]
pub enum NrtStatus {
    Success,
    Failure,
    Invalid,
}

/// Tag of a tensor that the model reads.
pub const NRT_TENSOR_USAGE_INPUT: u32 = 0;

/// Tag of a tensor that the model writes.
pub const NRT_TENSOR_USAGE_OUTPUT: u32 = 1;

/// Tag of a tensor holding packed 4-byte floating-point words.
pub const NRT_DTYPE_FLOAT32: u32 = 2;

/// Tag of a tensor holding one byte per element.
pub const NRT_DTYPE_UINT8: u32 = 3;

/// A usage tag the runtime accepts.
pub open spec fn usage_valid(usage: u32) -> bool {
    usage == NRT_TENSOR_USAGE_INPUT || usage == NRT_TENSOR_USAGE_OUTPUT
}

/// A data type this engine can decode.
pub open spec fn dtype_supported(dtype: u32) -> bool {
    dtype == NRT_DTYPE_FLOAT32 || dtype == NRT_DTYPE_UINT8
}

/// Width in bytes of one element of a supported data type.
pub open spec fn elem_width(dtype: u32) -> nat {
    if dtype == NRT_DTYPE_FLOAT32 {
        4
    } else {
        1
    }
}

/// Runtime check matching [`usage_valid`].
pub fn check_usage_valid(usage: u32) -> (r: bool)
    ensures
        r == usage_valid(usage),
{
    usage == NRT_TENSOR_USAGE_INPUT || usage == NRT_TENSOR_USAGE_OUTPUT
}

/// Phase of the process-wide runtime: it can be initialized at most once,
/// and once closed it cannot be initialized again.
#[derive(Clone, Copy, Debug, PartialEq, Eq, Structural)]
pub enum NrtPhase {
    Fresh,
    Live,
    Closed,
}

/// Process-wide state of the device runtime, modeled as an explicit value
/// threaded through the orchestrator instead of ambient global state.
///
/// The underlying runtime supports one initialize and one close per
/// process; an initialize after a close fails rather than retrying, a
/// documented limitation of the runtime.
pub struct NrtRuntime {
    phase: NrtPhase,
}

/// Error of a runtime initialization attempt.
#[derive(Clone, Copy, Debug, PartialEq, Eq, Structural)]
pub enum InitError {
    /// The runtime is already live; a second initialize is not defined.
    AlreadyInitialized,
    /// The runtime was closed earlier in this process; it cannot come back.
    AlreadyClosed,
}

impl NrtRuntime {
    /// The current phase, for specifications.
    pub closed spec fn phase(self) -> NrtPhase {
        self.phase
    }

    /// The state of a process in which the runtime was never touched.
    pub fn start() -> (r: NrtRuntime)
        ensures
            r.phase() == NrtPhase::Fresh,
    {
        NrtRuntime { phase: NrtPhase::Fresh }
    }

    /// One initialize attempt: succeeds exactly once per process.
    pub fn init(&mut self) -> (r: Result<(), InitError>)
        ensures
            match r {
                Ok(()) => old(self).phase() == NrtPhase::Fresh && final(self).phase()
                    == NrtPhase::Live,
                Err(e) => *final(self) == *old(self) && ((e == InitError::AlreadyInitialized
                    && old(self).phase() == NrtPhase::Live) || (e == InitError::AlreadyClosed
                    && old(self).phase() == NrtPhase::Closed)),
            },
    {
        match self.phase {
            NrtPhase::Fresh => {
                self.phase = NrtPhase::Live;
                Ok(())
            },
            NrtPhase::Live => Err(InitError::AlreadyInitialized),
            NrtPhase::Closed => Err(InitError::AlreadyClosed),
        }
    }

    /// Closes a live runtime; after this, no initialize can succeed.
    pub fn close(&mut self)
        requires
            old(self).phase() == NrtPhase::Live,
        ensures
            final(self).phase() == NrtPhase::Closed,
    {
        self.phase = NrtPhase::Closed;
    }
}

} // verus!
