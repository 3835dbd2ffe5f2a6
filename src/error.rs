use vstd::prelude::*;

verus! {

/// Errors reported by the library.
#[derive(Debug, Clone, Copy, PartialEq, Eq, Structural)]
pub enum Error {
    /// Parallel arrays differ in length, or an entity without an engine position was used
    /// where a position is needed. Raised before any engine call.
    DimensionMismatch,
    /// The engine reported a non-zero status; the code is kept as it came.
    EngineStatus(i32),
    /// A query needed to build a callback context failed before the host closure ran.
    ContextConstructionFailed,
    /// The host closure terminated abnormally inside a callback.
    InternalBridgeFailure,
    /// The operation is not available at the callback location it was called from.
    InvalidCallSite,
}

/// Turns a status code returned by the engine into a result: zero is success, any other
/// code is surfaced verbatim.
pub fn check_status(code: i32) -> (r: Result<(), Error>)
    ensures
        code == 0 ==> r == Ok::<(), Error>(()),
        code != 0 ==> r == Err::<(), Error>(Error::EngineStatus(code)),
{
    if code != 0 {
        Err(Error::EngineStatus(code))
    } else {
        Ok(())
    }
}

} // verus!
