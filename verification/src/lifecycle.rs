use crate::errors::HpxError;
use vstd::prelude::*;

verus! {

/// Process-wide lifecycle state of the native parallel runtime.
#[derive(Clone, Copy, Debug, PartialEq, Eq, Structural)]
pub enum RuntimeState {
    /// No runtime has been started in this process.
    Uninitialized,
    /// The runtime is live and the registered entry point is executing.
    Running,
    /// Shutdown has been requested; in-flight parallel work is being
    /// drained (orderly) or abandoned (terminate).
    ShuttingDown,
    /// The runtime has shut down. Re-initialization within the same
    /// process is treated as unsupported.
    Terminated,
}

/// The runtime lifecycle manager: the single piece of process-wide shared
/// state. It decides which transitions are legal; the caller performs the
/// native bootstrap or shutdown action only after the corresponding
/// request here has succeeded.
///
/// Legal transitions: Uninitialized to Running (initialize); Running to
/// ShuttingDown (finalize, terminate or disconnect); ShuttingDown to
/// Terminated (drain or abandon); Running to Terminated (failed
/// bootstrap). Every other request is refused with `RuntimeStateError`,
/// never silently ignored, and leaves the state unchanged.
pub struct Lifecycle {
    state: RuntimeState,
}

impl Lifecycle {
    /// The lifecycle state this manager currently records.
    pub closed spec fn state(self) -> RuntimeState {
        self.state
    }

    /// A fresh process has no runtime.
    pub fn new() -> (r: Lifecycle)
        ensures
            r.state() == RuntimeState::Uninitialized,
    {
        Lifecycle { state: RuntimeState::Uninitialized }
    }

    /// The state, readable by unverified callers that must branch on it.
    pub fn current_state(&self) -> (r: RuntimeState)
        ensures
            r == self.state(),
    {
        self.state
    }

    /// Algorithm calls are legal exactly while the runtime is running.
    pub fn is_running(&self) -> (r: bool)
        ensures
            r == (self.state() == RuntimeState::Running),
    {
        matches!(self.state, RuntimeState::Running)
    }

    /// Claim the one Uninitialized-to-Running transition. Succeeds exactly
    /// when no runtime has ever been started in this process; a second or
    /// concurrent initialization attempt, and one after shutdown, is
    /// refused with `RuntimeStateError`.
    pub fn begin_initialize(&mut self) -> (r: Result<(), HpxError>)
        ensures
            old(self).state() == RuntimeState::Uninitialized ==> r == Ok::<(), HpxError>(())
                && final(self).state() == RuntimeState::Running,
            old(self).state() != RuntimeState::Uninitialized ==> r == Err::<(), HpxError>(
                HpxError::RuntimeStateError,
            ) && final(self).state() == old(self).state(),
    {
        match self.state {
            RuntimeState::Uninitialized => {
                self.state = RuntimeState::Running;
                Ok(())
            },
            _ => Err(HpxError::RuntimeStateError),
        }
    }

    /// Request an orderly shutdown of the running runtime, with or without
    /// a timeout bounding how long the drain may take. Legal only from
    /// within the entry point, that is while the runtime is running;
    /// with no running runtime it fails with `RuntimeStateError`.
    pub fn request_finalize(&mut self) -> (r: Result<(), HpxError>)
        ensures
            old(self).state() == RuntimeState::Running ==> r == Ok::<(), HpxError>(())
                && final(self).state() == RuntimeState::ShuttingDown,
            old(self).state() != RuntimeState::Running ==> r == Err::<(), HpxError>(
                HpxError::RuntimeStateError,
            ) && final(self).state() == old(self).state(),
    {
        match self.state {
            RuntimeState::Running => {
                self.state = RuntimeState::ShuttingDown;
                Ok(())
            },
            _ => Err(HpxError::RuntimeStateError),
        }
    }

    /// Request an immediate, non-graceful shutdown; in-flight parallel
    /// calls may be abandoned with their destination buffers in an
    /// unspecified state. The transition discipline is the same as for an
    /// orderly shutdown: legal only while the runtime is running.
    pub fn request_terminate(&mut self) -> (r: Result<(), HpxError>)
        ensures
            old(self).state() == RuntimeState::Running ==> r == Ok::<(), HpxError>(())
                && final(self).state() == RuntimeState::ShuttingDown,
            old(self).state() != RuntimeState::Running ==> r == Err::<(), HpxError>(
                HpxError::RuntimeStateError,
            ) && final(self).state() == old(self).state(),
    {
        match self.state {
            RuntimeState::Running => {
                self.state = RuntimeState::ShuttingDown;
                Ok(())
            },
            _ => Err(HpxError::RuntimeStateError),
        }
    }

    /// Detach this process from a multi-process runtime without a full
    /// shutdown of the other processes. For this process the lifecycle
    /// ends all the same, so the local transition is the one of an
    /// orderly shutdown request.
    pub fn request_disconnect(&mut self) -> (r: Result<(), HpxError>)
        ensures
            old(self).state() == RuntimeState::Running ==> r == Ok::<(), HpxError>(())
                && final(self).state() == RuntimeState::ShuttingDown,
            old(self).state() != RuntimeState::Running ==> r == Err::<(), HpxError>(
                HpxError::RuntimeStateError,
            ) && final(self).state() == old(self).state(),
    {
        match self.state {
            RuntimeState::Running => {
                self.state = RuntimeState::ShuttingDown;
                Ok(())
            },
            _ => Err(HpxError::RuntimeStateError),
        }
    }

    /// Record that the native side finished draining or abandoning work,
    /// so the process has reached its terminal state. Legal exactly once,
    /// after a shutdown request.
    pub fn complete_shutdown(&mut self) -> (r: Result<(), HpxError>)
        ensures
            old(self).state() == RuntimeState::ShuttingDown ==> r == Ok::<(), HpxError>(())
                && final(self).state() == RuntimeState::Terminated,
            old(self).state() != RuntimeState::ShuttingDown ==> r == Err::<(), HpxError>(
                HpxError::RuntimeStateError,
            ) && final(self).state() == old(self).state(),
    {
        match self.state {
            RuntimeState::ShuttingDown => {
                self.state = RuntimeState::Terminated;
                Ok(())
            },
            _ => Err(HpxError::RuntimeStateError),
        }
    }

    /// Record that the native bootstrap failed after initialization was
    /// claimed: the entry point never ran and the runtime will not come
    /// up. The state lands in Terminated, never in an indeterminate
    /// value, so a failed initialization still leaves a well-defined
    /// lifecycle behind.
    pub fn abort_bootstrap(&mut self) -> (r: Result<(), HpxError>)
        ensures
            old(self).state() == RuntimeState::Running ==> r == Ok::<(), HpxError>(())
                && final(self).state() == RuntimeState::Terminated,
            old(self).state() != RuntimeState::Running ==> r == Err::<(), HpxError>(
                HpxError::RuntimeStateError,
            ) && final(self).state() == old(self).state(),
    {
        match self.state {
            RuntimeState::Running => {
                self.state = RuntimeState::Terminated;
                Ok(())
            },
            _ => Err(HpxError::RuntimeStateError),
        }
    }
}

} // verus!
