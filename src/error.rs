use vstd::prelude::*;
use vstd::string::StringExecFns;

verus! {

/// Why an attempt to start the worker did not succeed.
#[derive(Debug, Clone, PartialEq, Eq)]
pub enum StartError {
    /// A worker process is already held by the supervisor.
    AlreadyRunning,
    /// The worker executable or its entry script is missing; holds the missing path.
    SetupIncomplete(String),
    /// The operating system refused to create the process; holds its error text.
    SpawnFailed(String),
    /// The worker's output closed before it announced readiness.
    WorkerExitedEarly,
    /// No readiness announcement arrived within the startup bound.
    StartupTimeout,
    /// The readiness announcement carried digits that are not a port number.
    BadReadyPort,
}

impl StartError {
    /// The text shown to the user for this error.
    pub open spec fn message_text(self) -> Seq<char> {
        match self {
            StartError::AlreadyRunning => "Sidecar is already running"@,
            StartError::SetupIncomplete(path) => "Sidecar setup incomplete: "@ + path@
                + " not found. Run the sidecar setup first."@,
            StartError::SpawnFailed(msg) => "Failed to spawn sidecar: "@ + msg@,
            StartError::WorkerExitedEarly => "Sidecar exited before sending READY signal"@,
            StartError::StartupTimeout => "Sidecar startup timed out after 120s"@,
            StartError::BadReadyPort => "Bad port in READY signal"@,
        }
    }

    /// The text shown to the user for this error.
    pub fn message(&self) -> (r: String)
        ensures
            r@ == self.message_text(),
    {
        match self {
            StartError::AlreadyRunning => String::from_str("Sidecar is already running"),
            StartError::SetupIncomplete(path) => {
                let s = String::from_str("Sidecar setup incomplete: ");
                let s = s.concat(path.as_str());
                s.concat(" not found. Run the sidecar setup first.")
            },
            StartError::SpawnFailed(msg) => {
                let s = String::from_str("Failed to spawn sidecar: ");
                s.concat(msg.as_str())
            },
            StartError::WorkerExitedEarly => String::from_str(
                "Sidecar exited before sending READY signal",
            ),
            StartError::StartupTimeout => String::from_str("Sidecar startup timed out after 120s"),
            StartError::BadReadyPort => String::from_str("Bad port in READY signal"),
        }
    }
}

} // verus!
