use vstd::prelude::*;

verus! {

/// Failure taxonomy of the bridge.
///
/// `InvalidRange` and `RuntimeStateError` are local, synchronous and
/// recoverable; `CallbackFailure` aborts the one algorithm call it arose in;
/// `BootstrapFailure` is fatal to runtime start-up and prevents any
/// transition to the running state.
#[derive(Clone, Copy, Debug, PartialEq, Eq, Structural)]
pub enum HpxError {
    /// A count or bound exceeds the length of the sequence it addresses.
    InvalidRange,
    /// The operation is not legal in the current lifecycle state, for
    /// example a second initialization or a shutdown request with no
    /// running runtime.
    RuntimeStateError,
    /// A host-supplied callable failed during a parallel call; the
    /// destination buffer of that call must not be read as valid.
    CallbackFailure,
    /// The native runtime failed to start.
    BootstrapFailure,
}

} // verus!
