//! A sandbox in use: where its commands go, and what happens when it is not
//! there.
use vstd::prelude::*;

use crate::api::{SnapshotSandboxBody, TensorlakeSnapshotManifest};
use crate::error::{Activity, BackendError, Operation};
use crate::http::{
    ApiRequest, HttpStatus, Method, Reply, BAD_GATEWAY, GATEWAY_TIMEOUT, NOT_FOUND,
    SERVICE_UNAVAILABLE,
};
use crate::lifecycle::{
    acknowledges, Intent, LookUp, Step, TensorlakeBackendHandle, TensorlakeSandboxTarget,
};
use crate::sandbox::{SandboxCommand, SandboxRequest, SnapshotKind};

verus! {

/// How often a call is made whose sandbox cannot be reached.
pub const PROXY_ATTEMPTS: usize = 2;

/// A sandbox that was acquired.
#[derive(Debug)]
pub struct TensorlakeSandboxHandle {
    pub id: String,
    /// The name of a sandbox that can be resumed.
    pub name: Option<String>,
    pub request: SandboxRequest,
    pub backend: TensorlakeBackendHandle,
}

/// Where a sandbox was last found, and whether it can still be reached there as
/// far as anybody knows.
#[derive(Debug)]
pub struct Session {
    pub target: TensorlakeSandboxTarget,
    pub live: bool,
}

impl Session {
    /// The session of a sandbox that has just been found.
    pub fn new(target: TensorlakeSandboxTarget) -> (session: Self)
        ensures
            session == (Session { target, live: true }),
    {
        Session { target, live: true }
    }

    /// Records that the sandbox was out of reach.
    pub fn mark_unreachable(&mut self)
        ensures
            *final(self) == (Session { target: old(self).target, live: false }),
    {
        self.live = false;
    }

    /// Records where the sandbox was found again.
    pub fn found_again(&mut self, target: TensorlakeSandboxTarget)
        ensures
            *final(self) == (Session { target, live: true }),
    {
        self.target = target;
        self.live = true;
    }
}

/// Where the next command goes.
#[derive(Debug)]
pub enum Placement {
    /// The sandbox is where it was.
    Live(TensorlakeSandboxTarget),
    /// The sandbox has to be found first.
    Unknown(Step),
}

/// The failure of a call to a sandbox.
#[derive(Debug)]
pub enum ProxyCallError {
    /// The sandbox could not be reached, and has done nothing: worth another
    /// try once it is found again.
    Unavailable(BackendError),
    /// The call failed.
    Failed(BackendError),
}

/// The calls that are made to a sandbox.
#[derive(Clone, Copy, PartialEq, Eq, Structural, Debug)]
pub enum ProxyCall {
    RunProcess,
    StartProcess,
}

impl ProxyCall {
    pub open spec fn operation(self) -> Operation {
        match self {
            ProxyCall::RunProcess => Operation::RunProcess,
            ProxyCall::StartProcess => Operation::StartProcess,
        }
    }

    pub open spec fn activity(self) -> Activity {
        match self {
            ProxyCall::RunProcess => Activity::RunningProcess,
            ProxyCall::StartProcess => Activity::StartingProcess,
        }
    }
}

/// Whether a status says that the sandbox is not there.
pub open spec fn says_unreachable(status: HttpStatus) -> bool {
    ||| status.number() == NOT_FOUND
    ||| status.number() == BAD_GATEWAY
    ||| status.number() == SERVICE_UNAVAILABLE
    ||| status.number() == GATEWAY_TIMEOUT
}

/// Sorts out a call that was answered with a status other than success.
pub fn classify_proxy_status(status: HttpStatus, call: ProxyCall, body: String) -> (error:
    ProxyCallError)
    ensures
        ({
            let refused = BackendError::Refused { operation: call.operation(), status, body };
            error == if says_unreachable(status) {
                ProxyCallError::Unavailable(refused)
            } else {
                ProxyCallError::Failed(refused)
            }
        }),
{
    let operation = match call {
        ProxyCall::RunProcess => Operation::RunProcess,
        ProxyCall::StartProcess => Operation::StartProcess,
    };
    let refused = BackendError::Refused { operation, status, body };
    let code: u16 = status.as_u16();
    if code == NOT_FOUND || code == BAD_GATEWAY || code == SERVICE_UNAVAILABLE || code
        == GATEWAY_TIMEOUT {
        ProxyCallError::Unavailable(refused)
    } else {
        ProxyCallError::Failed(refused)
    }
}

/// Sorts out a call that got no answer.
pub fn classify_transport_error(cause: String, call: ProxyCall) -> (error: ProxyCallError)
    ensures
        error == ProxyCallError::Unavailable(
            BackendError::Transport { activity: call.activity(), cause },
        ),
{
    let activity = match call {
        ProxyCall::RunProcess => Activity::RunningProcess,
        ProxyCall::StartProcess => Activity::StartingProcess,
    };
    ProxyCallError::Unavailable(BackendError::Transport { activity, cause })
}

/// One try at a command.
#[derive(Debug)]
pub struct ProxyAttempt {
    /// How many tries came before.
    pub number: usize,
    /// The directory that the command runs in.
    pub cwd: String,
}

/// What follows a try.
#[derive(Debug)]
pub enum Verdict<T> {
    Return(Result<T, BackendError>),
    TryAgain(ProxyAttempt),
}

/// What a try comes to: what follows, and whether the sandbox was out of reach.
pub open spec fn judged<T>(attempt: ProxyAttempt, result: Result<T, ProxyCallError>) -> (
    Verdict<T>,
    bool,
) {
    match result {
        Ok(value) => (Verdict::Return(Ok(value)), false),
        Err(ProxyCallError::Failed(error)) => (Verdict::Return(Err(error)), false),
        Err(ProxyCallError::Unavailable(error)) => (
            if attempt.number + 1 < PROXY_ATTEMPTS {
                Verdict::TryAgain(
                    ProxyAttempt { number: (attempt.number + 1) as usize, cwd: attempt.cwd },
                )
            } else {
                Verdict::Return(Err(error))
            },
            true,
        ),
    }
}

/// Decides whether a command is tried again: once, and only when the sandbox
/// was out of reach. The flag says whether it was; it has to be found again
/// before the next command.
pub fn with_proxy_retry<T>(attempt: ProxyAttempt, result: Result<T, ProxyCallError>) -> (res: (
    Verdict<T>,
    bool,
))
    ensures
        res == judged(attempt, result),
{
    match result {
        Ok(value) => (Verdict::Return(Ok(value)), false),
        Err(ProxyCallError::Failed(error)) => (Verdict::Return(Err(error)), false),
        Err(ProxyCallError::Unavailable(error)) => {
            if attempt.number < PROXY_ATTEMPTS - 1 {
                let again = ProxyAttempt { number: attempt.number + 1, cwd: attempt.cwd };
                (Verdict::TryAgain(again), true)
            } else {
                (Verdict::Return(Err(error)), true)
            }
        },
    }
}

impl TensorlakeSandboxHandle {
    /// The handle of a sandbox that has just been found, and its session.
    pub fn new(
        id: String,
        name: Option<String>,
        target: TensorlakeSandboxTarget,
        request: SandboxRequest,
        backend: TensorlakeBackendHandle,
    ) -> (res: (Self, Session))
        ensures
            res.0 == (TensorlakeSandboxHandle { id, name, request, backend }),
            res.1 == (Session { target, live: true }),
    {
        (TensorlakeSandboxHandle { id, name, request, backend }, Session::new(target))
    }

    /// What the sandbox is found by: its name, else the id it had last.
    pub open spec fn identifier(self, target: TensorlakeSandboxTarget) -> String {
        match self.name {
            Some(name) => name,
            None => target.sandbox_id,
        }
    }

    pub open spec fn placed(self, session: Session) -> Placement {
        if session.live {
            Placement::Live(session.target)
        } else {
            Placement::Unknown(
                Step::LookUp(
                    LookUp { identifier: self.identifier(session.target), intent: Intent::Refresh },
                ),
            )
        }
    }

    /// Where the next command goes: where the last one went, unless that was
    /// out of reach. Named sandboxes suspend when idle, so one that is out of
    /// reach is found again and resumed.
    pub fn running_target(&self, session: &Session) -> (placement: Placement)
        ensures
            placement == self.placed(*session),
    {
        if session.live {
            return Placement::Live(session.target.clone());
        }
        let identifier = match &self.name {
            Some(name) => name.clone(),
            None => session.target.sandbox_id.clone(),
        };
        Placement::Unknown(Step::LookUp(LookUp { identifier, intent: Intent::Refresh }))
    }

    /// The directory that a command runs in.
    pub open spec fn workdir(self, command: SandboxCommand) -> String {
        match command.cwd {
            Some(cwd) => cwd,
            None => self.request.spec.default_workdir,
        }
    }

    fn first_attempt(&self, command: &SandboxCommand) -> (res: Result<ProxyAttempt, BackendError>)
        ensures
            res == if command.argv@.len() == 0 {
                Err(BackendError::EmptyCommand)
            } else {
                Ok(ProxyAttempt { number: 0, cwd: self.workdir(*command) })
            },
    {
        if command.argv.len() == 0 {
            return Err(BackendError::EmptyCommand);
        }
        let cwd = match &command.cwd {
            Some(cwd) => cwd.clone(),
            None => self.request.spec.default_workdir.clone(),
        };
        Ok(ProxyAttempt { number: 0, cwd })
    }

    /// Begins to run a command to its end.
    pub fn exec(&self, command: &SandboxCommand) -> (res: Result<ProxyAttempt, BackendError>)
        ensures
            res == if command.argv@.len() == 0 {
                Err(BackendError::EmptyCommand)
            } else {
                Ok(ProxyAttempt { number: 0, cwd: self.workdir(*command) })
            },
    {
        self.first_attempt(command)
    }

    /// Begins to start a command.
    pub fn start_process(&self, command: &SandboxCommand) -> (res: Result<
        ProxyAttempt,
        BackendError,
    >)
        ensures
            res == if command.argv@.len() == 0 {
                Err(BackendError::EmptyCommand)
            } else {
                Ok(ProxyAttempt { number: 0, cwd: self.workdir(*command) })
            },
    {
        self.first_attempt(command)
    }

    /// Puts the sandbox away. A named one is suspended and keeps its files, so
    /// that it can be acquired again; one without a name is deleted.
    pub fn stop(&self, target: &TensorlakeSandboxTarget) -> (request: ApiRequest)
        ensures
            match self.name {
                Some(name) => request.is(
                    Method::Post,
                    self.backend.endpoint("/sandboxes/"@ + name@ + "/suspend"@),
                ),
                None => request.is(
                    Method::Delete,
                    self.backend.sandbox_endpoint(target.sandbox_id@),
                ),
            },
    {
        match &self.name {
            Some(name) => self.backend.suspend_sandbox(name.as_str()),
            None => self.backend.delete_sandbox(target.sandbox_id.as_str()),
        }
    }

    /// Reads the answer to [`Self::stop`].
    pub fn stopped(&self, target: &TensorlakeSandboxTarget, reply: Reply<()>) -> (res: Result<
        (),
        BackendError,
    >)
        ensures
            match self.name {
                Some(name) => acknowledges(
                    reply,
                    Activity::Suspending { identifier: name },
                    Operation::SuspendSandbox,
                    res,
                ),
                None => acknowledges(
                    reply,
                    Activity::Deleting { identifier: target.sandbox_id },
                    Operation::DeleteSandbox,
                    res,
                ),
            },
    {
        match &self.name {
            Some(name) => TensorlakeBackendHandle::sandbox_suspended(name.clone(), reply),
            None => TensorlakeBackendHandle::sandbox_deleted(target.sandbox_id.clone(), reply),
        }
    }

    /// Takes a snapshot of the sandbox.
    pub fn snapshot(&self, target: &TensorlakeSandboxTarget) -> (res: (
        ApiRequest,
        SnapshotSandboxBody,
    ))
        ensures
            res.0.is(
                Method::Post,
                self.backend.endpoint("/sandboxes/"@ + target.sandbox_id@ + "/snapshot"@),
            ),
            res.1.snapshot_type@ == "filesystem"@,
    {
        self.backend.snapshot_sandbox(target.sandbox_id.as_str())
    }

    /// What to keep of a snapshot that was taken.
    pub fn manifest(&self, snapshot_id: String) -> (res: (SnapshotKind, TensorlakeSnapshotManifest))
        ensures
            res == (
                SnapshotKind::TensorlakeSnapshot,
                TensorlakeSnapshotManifest { snapshot_id, sandbox_name: self.name },
            ),
    {
        let sandbox_name = match &self.name {
            Some(name) => Some(name.clone()),
            None => None,
        };
        (
            SnapshotKind::TensorlakeSnapshot,
            TensorlakeSnapshotManifest { snapshot_id, sandbox_name },
        )
    }
}

} // verus!
