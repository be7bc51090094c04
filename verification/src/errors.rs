use vstd::prelude::*;

verus! {

/// Error taxonomy of the engine.
///
/// `InvalidArgument` rejects a bad request (zero time-to-live, or an
/// expiration that does not fit the timestamp range). `Unavailable` and
/// `Internal` are reserved for the store adapter at the process edge:
/// an unreachable store, or a store response of an unexpected shape.
/// `ResourceExhausted` reports that code generation kept colliding with
/// still-active codes and gave up after its bounded retries.
#[derive(Clone, Copy, Debug, PartialEq, Eq, Structural)]
pub enum OtpError {
    InvalidArgument,
    Unavailable,
    ResourceExhausted,
    Internal,
}

} // verus!
