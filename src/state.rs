use vstd::prelude::*;

use crate::error::StartError;

verus! {

/// Port the worker is asked to bind when no other port has been chosen.
pub const DEFAULT_PORT: u16 = 9824;

/// Lifecycle status of the worker process as seen by the supervisor.
#[derive(Debug, Clone, PartialEq, Eq)]
pub enum SidecarStatus {
    Stopped,
    Loading,
    Ready,
    Error(String),
}

impl SidecarStatus {
    /// A copy of this status that is known to equal it.
    pub fn duplicate(&self) -> (r: SidecarStatus)
        ensures
            r == *self,
    {
        match self {
            SidecarStatus::Stopped => SidecarStatus::Stopped,
            SidecarStatus::Loading => SidecarStatus::Loading,
            SidecarStatus::Ready => SidecarStatus::Ready,
            SidecarStatus::Error(m) => SidecarStatus::Error(m.clone()),
        }
    }
}

/// What a successful start reports: the port the worker actually bound.
pub struct SidecarStartResult {
    pub port: u16,
}

/// A snapshot of the supervisor's status and port.
pub struct SidecarStatusResponse {
    pub status: SidecarStatus,
    pub port: u16,
}

/// The single record of the worker's state. `P` is the handle of the
/// worker process; whoever holds the state owns that handle.
pub struct SidecarState<P> {
    pub child: Option<P>,
    pub port: u16,
    pub status: SidecarStatus,
}

/// The answer to a start request on a state that does or does not hold a worker.
pub open spec fn start_gate(running: bool) -> Result<(), StartError> {
    if running {
        Err(StartError::AlreadyRunning)
    } else {
        Ok(())
    }
}

impl<P> SidecarState<P> {
    /// The state after a start has passed its setup check.
    pub open spec fn loading(self) -> SidecarState<P> {
        SidecarState { status: SidecarStatus::Loading, ..self }
    }

    /// The state after a successful handshake reported `port`.
    pub open spec fn committed(self, child: P, port: u16) -> SidecarState<P> {
        SidecarState { child: Some(child), port, status: SidecarStatus::Ready }
    }

    /// `self` is `before` after a failed start that reported `text`: a state
    /// holding no process takes the failure as its status, one holding a
    /// process is left untouched.
    pub open spec fn failure_of(self, before: SidecarState<P>, text: Seq<char>) -> bool {
        if before.child is None {
            &&& self.child is None
            &&& self.port == before.port
            &&& self.status is Error
            &&& self.status->Error_0@ == text
        } else {
            self == before
        }
    }

    /// The state after its process has been taken out for termination.
    pub open spec fn stopped(self) -> SidecarState<P> {
        SidecarState { child: None, status: SidecarStatus::Stopped, ..self }
    }

    /// The state holds a worker process.
    pub open spec fn running(&self) -> bool {
        self.child is Some
    }

    /// A held process is always one that is starting or ready; a stopped or
    /// failed state holds none.
    pub open spec fn wf(&self) -> bool {
        self.running() ==> (self.status is Loading || self.status is Ready)
    }

    /// The state at application start: stopped, on the default port, no process.
    pub fn new() -> (r: SidecarState<P>)
        ensures
            r.wf(),
            r.child is None,
            r.port == DEFAULT_PORT,
            r.status is Stopped,
    {
        SidecarState { child: None, port: DEFAULT_PORT, status: SidecarStatus::Stopped }
    }

    /// First step of a start: refuse when a worker is already held.
    pub fn check_not_running(&self) -> (r: Result<(), StartError>)
        ensures
            r == start_gate(self.running()),
    {
        if self.child.is_some() {
            Err(StartError::AlreadyRunning)
        } else {
            Ok(())
        }
    }

    /// Validates the worker's executable and script, then marks the state as
    /// loading. On a missing path nothing changes and the error names the
    /// first path that is missing.
    pub fn enter_loading(
        &mut self,
        executable: String,
        executable_exists: bool,
        script: String,
        script_exists: bool,
    ) -> (r: Result<(), StartError>)
        ensures
            !executable_exists ==> r == Err::<(), StartError>(
                StartError::SetupIncomplete(executable),
            ) && *final(self) == *old(self),
            executable_exists && !script_exists ==> r == Err::<(), StartError>(
                StartError::SetupIncomplete(script),
            ) && *final(self) == *old(self),
            executable_exists && script_exists ==> r is Ok && *final(self) == old(self).loading(),
            old(self).wf() ==> final(self).wf(),
    {
        if !executable_exists {
            return Err(StartError::SetupIncomplete(executable));
        }
        if !script_exists {
            return Err(StartError::SetupIncomplete(script));
        }
        self.status = SidecarStatus::Loading;
        Ok(())
    }

    /// Last step of a successful start: the handshake's port and the process
    /// are recorded together and the state becomes ready.
    pub fn commit_ready(&mut self, child: P, port: u16) -> (r: SidecarStartResult)
        ensures
            *final(self) == old(self).committed(child, port),
            final(self).wf(),
            r.port == port,
    {
        self.child = Some(child);
        self.port = port;
        self.status = SidecarStatus::Ready;
        SidecarStartResult { port }
    }

    /// Records a failed start that holds no process of its own.
    pub fn record_failure(&mut self, error: &StartError)
        ensures
            final(self).failure_of(*old(self), error.message_text()),
            old(self).wf() ==> final(self).wf(),
    {
        if self.child.is_none() {
            self.status = SidecarStatus::Error(error.message());
        }
    }

    /// Ends a start whose process `child` has been spawned, given the outcome
    /// of its handshake. On success the process and the reported port are
    /// committed; on failure the failure is recorded and the process is
    /// handed back so that the caller terminates it.
    pub fn conclude_start(&mut self, child: P, outcome: Result<u16, StartError>) -> (r: Result<
        SidecarStartResult,
        (StartError, P),
    >)
        ensures
            outcome is Ok ==> r == Ok::<SidecarStartResult, (StartError, P)>(
                SidecarStartResult { port: outcome->Ok_0 },
            ) && *final(self) == old(self).committed(child, outcome->Ok_0),
            outcome is Err ==> r == Err::<SidecarStartResult, (StartError, P)>(
                (outcome->Err_0, child),
            ) && final(self).failure_of(*old(self), outcome->Err_0.message_text()),
            old(self).wf() ==> final(self).wf(),
    {
        match outcome {
            Ok(port) => Ok(self.commit_ready(child, port)),
            Err(e) => {
                self.record_failure(&e);
                Err((e, child))
            },
        }
    }

    /// Takes the process out of the state and marks it stopped. The caller
    /// then owns the process and terminates it outside any lock.
    pub fn take_for_stop(&mut self) -> (r: Option<P>)
        ensures
            r == old(self).child,
            *final(self) == old(self).stopped(),
            final(self).wf(),
    {
        self.status = SidecarStatus::Stopped;
        self.child.take()
    }

    /// The current status and port.
    pub fn status(&self) -> (r: SidecarStatusResponse)
        ensures
            r.status == self.status,
            r.port == self.port,
    {
        SidecarStatusResponse { status: self.status.duplicate(), port: self.port }
    }
}

/// A start on a state that a successful start has just committed is refused
/// as already running, whatever the state was before.
pub proof fn lemma_second_start_rejected<P>(s: SidecarState<P>, child: P, port: u16)
    ensures
        start_gate(s.committed(child, port).running()) == Err::<(), StartError>(
            StartError::AlreadyRunning,
        ),
        s.committed(child, port).status is Ready,
        s.committed(child, port).port == port,
{
}

/// After a stop the state is stopped on the same port, holds no process, and
/// a new start passes the running check.
pub proof fn lemma_stop_then_start_allowed<P>(s: SidecarState<P>)
    ensures
        s.stopped().status is Stopped,
        s.stopped().port == s.port,
        s.stopped().child is None,
        start_gate(s.stopped().running()) == Ok::<(), StartError>(()),
{
}

/// Stopping a state that holds no process only resets its status.
pub proof fn lemma_stop_when_idle<P>(s: SidecarState<P>)
    requires
        s.child is None,
    ensures
        s.stopped() == (SidecarState::<P> { status: SidecarStatus::Stopped, ..s }),
{
}

/// A start that fails on a state holding no process leaves it neither ready
/// nor holding a process.
pub proof fn lemma_failed_start_not_ready<P>(
    before: SidecarState<P>,
    after: SidecarState<P>,
    text: Seq<char>,
)
    requires
        before.child is None,
        after.failure_of(before, text),
    ensures
        !(after.status is Ready),
        after.child is None,
        after.wf(),
{
}

/// Every transition keeps a well-formed state well-formed.
pub proof fn lemma_transitions_keep_wf<P>(
    s: SidecarState<P>,
    child: P,
    port: u16,
    failed: SidecarState<P>,
    text: Seq<char>,
)
    requires
        s.wf(),
        failed.failure_of(s, text),
    ensures
        s.loading().wf(),
        s.committed(child, port).wf(),
        failed.wf(),
        s.stopped().wf(),
{
}

} // verus!
