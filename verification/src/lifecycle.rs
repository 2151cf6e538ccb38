//! Bringing a sandbox up.
//!
//! A [`Step`] is either a request to send, a pause to make, or the outcome. The
//! driver carries a step out and hands what came back to the method of
//! [`TensorlakeBackendHandle`] that belongs to the step; that method decides on
//! the next step.
use vstd::prelude::*;

use crate::api::{
    CreateSandboxBody, CreateSandboxResponse, SandboxInfo, SandboxStatus, SnapshotSandboxBody,
    SnapshotSandboxResponse,
};
use crate::error::{Activity, BackendError, Operation, SANDBOX_READY_TIMEOUT_SECS};
use crate::http::{ApiRequest, HttpStatus, Method, Reply, ReplyBody, CONFLICT, NOT_FOUND};
use crate::sandbox::TimeSpan;
use crate::text::{concat_text, trim_end_text, trimmed_end, CharClass};

verus! {

/// The pause between two looks at a sandbox that is not ready yet.
pub const SANDBOX_READY_POLL_MILLIS: u64 = 500;

/// How often a sandbox is created whose name is still taken. The name of a
/// sandbox that was just terminated can linger for a moment.
pub const NAME_CONFLICT_RETRIES: usize = 5;

pub const NAME_CONFLICT_RETRY_MILLIS: u64 = 1000;

/// A sandbox that is running and can be reached: its id, and where its commands
/// go.
#[derive(Debug)]
pub struct TensorlakeSandboxTarget {
    pub sandbox_id: String,
    pub base_url: String,
}

impl Clone for TensorlakeSandboxTarget {
    fn clone(&self) -> (copy: Self)
        ensures
            copy == *self,
    {
        TensorlakeSandboxTarget {
            sandbox_id: self.sandbox_id.clone(),
            base_url: self.base_url.clone(),
        }
    }
}

/// Where the platform is reached.
#[derive(Debug)]
pub struct TensorlakeBackendHandle {
    pub api_url: String,
    /// Where commands go in place of the URL that the platform reports.
    pub sandbox_base_url: Option<String>,
}

/// What a look at a sandbox is for.
#[derive(Debug)]
pub enum Intent {
    /// Use the sandbox if it is there, else create it.
    Acquire { body: CreateSandboxBody },
    /// Create the sandbox anew, in place of one that is there.
    Restore { body: CreateSandboxBody },
    /// Find a sandbox again that was there before.
    Refresh,
}

/// `GET /sandboxes/{identifier}`.
#[derive(Debug)]
pub struct LookUp {
    pub identifier: String,
    pub intent: Intent,
}

/// `DELETE /sandboxes/{name}`, to make room for a restored sandbox.
#[derive(Debug)]
pub struct Evict {
    pub name: String,
    pub body: CreateSandboxBody,
}

/// `POST /sandboxes`. Earlier attempts met a taken name.
#[derive(Debug)]
pub struct Create {
    pub attempt: usize,
    pub body: CreateSandboxBody,
}

/// `POST /sandboxes/{sandbox_id}/resume`.
#[derive(Debug)]
pub struct Resume {
    pub sandbox_id: String,
}

/// `GET /sandboxes/{sandbox_id}`, to see whether it is ready.
#[derive(Debug)]
pub struct Poll {
    pub sandbox_id: String,
    /// Whether a resume has been sent already.
    pub resumed: bool,
    /// When to give up, in nanoseconds.
    pub deadline: u128,
}

/// `POST /sandboxes/{sandbox_id}/resume`, for a sandbox that turned out to be
/// suspended while it was awaited.
#[derive(Debug)]
pub struct PollResume {
    pub sandbox_id: String,
    pub deadline: u128,
    pub pending_reason: Option<String>,
}

/// What to do next.
#[derive(Debug)]
pub enum Step {
    LookUp(LookUp),
    Evict(Evict),
    Create(Create),
    /// Pause, then create.
    Backoff(Create),
    Resume(Resume),
    Poll(Poll),
    PollResume(PollResume),
    /// Pause, then look again.
    Pause(Poll),
    Done(TensorlakeSandboxTarget),
    Failed(BackendError),
}

/// What an answer with a JSON body says.
pub open spec fn decoded<T>(
    status: HttpStatus,
    body: ReplyBody<T>,
    operation: Operation,
) -> Result<T, BackendError> {
    match body {
        ReplyBody::Unreadable { cause } => Err(BackendError::UnreadableBody { operation, cause }),
        ReplyBody::Text { text, parsed } => if !status.succeeded() {
            Err(BackendError::Refused { operation, status, body: text })
        } else {
            match parsed {
                Ok(value) => Ok(value),
                Err(cause) => Err(BackendError::Undecodable { operation, body: text, cause }),
            }
        },
    }
}

/// Reads an answer that should hold JSON.
pub fn decode_json_response<T>(
    status: HttpStatus,
    body: ReplyBody<T>,
    operation: Operation,
) -> (res: Result<T, BackendError>)
    ensures
        res == decoded(status, body, operation),
{
    match body {
        ReplyBody::Unreadable { cause } => Err(BackendError::UnreadableBody { operation, cause }),
        ReplyBody::Text { text, parsed } => {
            if !status.is_success() {
                return Err(BackendError::Refused { operation, status, body: text });
            }
            match parsed {
                Ok(value) => Ok(value),
                Err(cause) => Err(BackendError::Undecodable { operation, body: text, cause }),
            }
        },
    }
}

/// `error` reports that `operation` was answered with `status` and the body `shown`.
pub open spec fn reports_refusal(
    error: BackendError,
    operation: Operation,
    status: HttpStatus,
    shown: Seq<char>,
) -> bool {
    error matches BackendError::Refused { operation: o, status: s, body } && o == operation && s
        == status && body@ == shown
}

/// The outcome of a request of which only the status matters. A sandbox that
/// is gone already counts as deleted.
pub open spec fn acknowledges(
    reply: Reply<()>,
    activity: Activity,
    operation: Operation,
    res: Result<(), BackendError>,
) -> bool {
    match reply {
        Reply::Unsent { cause } => res == Err::<(), _>(
            BackendError::Transport { activity, cause },
        ),
        Reply::Answered { status, body } => if status.succeeded() || (operation
            == Operation::DeleteSandbox && status.number() == NOT_FOUND) {
            res is Ok
        } else {
            res matches Err(error) && reports_refusal(error, operation, status, body.shown())
        },
    }
}

fn acknowledge(reply: Reply<()>, activity: Activity, operation: Operation) -> (res: Result<
    (),
    BackendError,
>)
    ensures
        acknowledges(reply, activity, operation, res),
{
    match reply {
        Reply::Unsent { cause } => Err(BackendError::Transport { activity, cause }),
        Reply::Answered { status, body } => {
            if status.is_success() {
                return Ok(());
            }
            if operation == Operation::DeleteSandbox && status.as_u16() == NOT_FOUND {
                return Ok(());
            }
            Err(BackendError::Refused { operation, status, body: body.into_text() })
        },
    }
}

/// The sandbox that an answer to a look reports. One that is terminated leaves
/// nothing but its name behind, and counts as absent.
pub open spec fn found(identifier: String, reply: Reply<SandboxInfo>) -> Result<
    Option<SandboxInfo>,
    BackendError,
> {
    match reply {
        Reply::Unsent { cause } => Err(
            BackendError::Transport { activity: Activity::Fetching { identifier }, cause },
        ),
        Reply::Answered { status, body } => if status.number() == NOT_FOUND {
            Ok(None)
        } else {
            match decoded(status, body, Operation::GetSandbox) {
                Ok(info) => if info.status == SandboxStatus::Terminated {
                    Ok(None)
                } else {
                    Ok(Some(info))
                },
                Err(error) => Err(error),
            }
        },
    }
}

/// When to give up on a sandbox that is awaited from `now` on.
pub open spec fn deadline_from(now: TimeSpan) -> u128 {
    (now.total() + SANDBOX_READY_TIMEOUT_SECS * 1_000_000_000) as u128
}

/// The next step for a sandbox that is not ready yet.
pub open spec fn keeps_waiting(
    poll: Poll,
    status: SandboxStatus,
    pending_reason: Option<String>,
    now: TimeSpan,
) -> Step {
    if now.total() >= poll.deadline {
        Step::Failed(
            BackendError::NotReady { sandbox_id: poll.sandbox_id, status, pending_reason },
        )
    } else {
        Step::Pause(poll)
    }
}

impl TensorlakeBackendHandle {
    pub open spec fn endpoint(self, path: Seq<char>) -> Seq<char> {
        self.api_url@ + path
    }

    pub open spec fn sandbox_endpoint(self, identifier: Seq<char>) -> Seq<char> {
        self.endpoint("/sandboxes/"@ + identifier)
    }

    /// A URL of the platform.
    pub fn api_endpoint(&self, path: &str) -> (url: String)
        ensures
            url@ == self.endpoint(path@),
    {
        concat_text(self.api_url.as_str(), path)
    }

    fn on_sandbox(&self, method: Method, identifier: &str, action: &str) -> (request: ApiRequest)
        ensures
            request.is(method, self.endpoint("/sandboxes/"@ + identifier@ + action@)),
    {
        let mut path = concat_text("/sandboxes/", identifier);
        path.append(action);
        ApiRequest { method, url: self.api_endpoint(path.as_str()) }
    }

    /// Asks what the platform knows about a sandbox.
    pub fn get_sandbox(&self, identifier: &str) -> (request: ApiRequest)
        ensures
            request.is(Method::Get, self.sandbox_endpoint(identifier@)),
    {
        ApiRequest {
            method: Method::Get,
            url: self.api_endpoint(concat_text("/sandboxes/", identifier).as_str()),
        }
    }

    /// Reads the answer to [`Self::get_sandbox`].
    pub fn sandbox_found(identifier: String, reply: Reply<SandboxInfo>) -> (res: Result<
        Option<SandboxInfo>,
        BackendError,
    >)
        ensures
            res == found(identifier, reply),
    {
        match reply {
            Reply::Unsent { cause } => Err(
                BackendError::Transport { activity: Activity::Fetching { identifier }, cause },
            ),
            Reply::Answered { status, body } => {
                if status.as_u16() == NOT_FOUND {
                    return Ok(None);
                }
                match decode_json_response(status, body, Operation::GetSandbox) {
                    Ok(info) => if info.status == SandboxStatus::Terminated {
                        Ok(None)
                    } else {
                        Ok(Some(info))
                    },
                    Err(error) => Err(error),
                }
            },
        }
    }

    /// Creates a sandbox and waits until it is running.
    pub fn create_and_wait(body: CreateSandboxBody) -> (next: Step)
        ensures
            next == Step::Create(Create { attempt: 0, body }),
    {
        Step::Create(Create { attempt: 0, body })
    }

    /// Creates a sandbox.
    pub fn create_sandbox(&self) -> (request: ApiRequest)
        ensures
            request.is(Method::Post, self.endpoint("/sandboxes"@)),
    {
        ApiRequest { method: Method::Post, url: self.api_endpoint("/sandboxes") }
    }

    /// Deletes a sandbox.
    pub fn delete_sandbox(&self, identifier: &str) -> (request: ApiRequest)
        ensures
            request.is(Method::Delete, self.sandbox_endpoint(identifier@)),
    {
        ApiRequest {
            method: Method::Delete,
            url: self.api_endpoint(concat_text("/sandboxes/", identifier).as_str()),
        }
    }

    /// Reads the answer to [`Self::delete_sandbox`].
    pub fn sandbox_deleted(identifier: String, reply: Reply<()>) -> (res: Result<(), BackendError>)
        ensures
            acknowledges(
                reply,
                Activity::Deleting { identifier },
                Operation::DeleteSandbox,
                res,
            ),
    {
        acknowledge(reply, Activity::Deleting { identifier }, Operation::DeleteSandbox)
    }

    /// Suspends a sandbox.
    pub fn suspend_sandbox(&self, identifier: &str) -> (request: ApiRequest)
        ensures
            request.is(Method::Post, self.endpoint("/sandboxes/"@ + identifier@ + "/suspend"@)),
    {
        self.on_sandbox(Method::Post, identifier, "/suspend")
    }

    /// Reads the answer to [`Self::suspend_sandbox`].
    pub fn sandbox_suspended(identifier: String, reply: Reply<()>) -> (res: Result<
        (),
        BackendError,
    >)
        ensures
            acknowledges(
                reply,
                Activity::Suspending { identifier },
                Operation::SuspendSandbox,
                res,
            ),
    {
        acknowledge(reply, Activity::Suspending { identifier }, Operation::SuspendSandbox)
    }

    /// Resumes a sandbox.
    pub fn resume_sandbox(&self, identifier: &str) -> (request: ApiRequest)
        ensures
            request.is(Method::Post, self.endpoint("/sandboxes/"@ + identifier@ + "/resume"@)),
    {
        self.on_sandbox(Method::Post, identifier, "/resume")
    }

    /// Reads the answer to [`Self::resume_sandbox`].
    pub fn sandbox_resumed(identifier: String, reply: Reply<()>) -> (res: Result<(), BackendError>)
        ensures
            acknowledges(
                reply,
                Activity::Resuming { identifier },
                Operation::ResumeSandbox,
                res,
            ),
    {
        acknowledge(reply, Activity::Resuming { identifier }, Operation::ResumeSandbox)
    }

    /// `res` is where the commands for a running sandbox go.
    pub open spec fn locates(
        self,
        info: SandboxInfo,
        res: Result<TensorlakeSandboxTarget, BackendError>,
    ) -> bool {
        match (self.sandbox_base_url, info.sandbox_url) {
            (Some(url), _) => res matches Ok(target) && target.sandbox_id == info.id
                && target.base_url@ == url@,
            (None, Some(url)) => res matches Ok(target) && target.sandbox_id == info.id
                && target.base_url@ == trimmed_end(url@, CharClass::Slash),
            (None, None) => res == Err::<TensorlakeSandboxTarget, _>(
                BackendError::NoSandboxUrl { sandbox_id: info.id },
            ),
        }
    }

    /// Where the commands for a running sandbox go.
    pub fn target_for(&self, info: &SandboxInfo) -> (res: Result<
        TensorlakeSandboxTarget,
        BackendError,
    >)
        ensures
            self.locates(*info, res),
    {
        let base_url = match &self.sandbox_base_url {
            Some(url) => url.clone(),
            None => match &info.sandbox_url {
                Some(url) => trim_end_text(url.as_str(), CharClass::Slash),
                None => {
                    return Err(BackendError::NoSandboxUrl { sandbox_id: info.id.clone() });
                },
            },
        };
        Ok(TensorlakeSandboxTarget { sandbox_id: info.id.clone(), base_url })
    }

    /// Takes a snapshot of a sandbox. Its file system is captured, its memory is
    /// not.
    pub fn snapshot_sandbox(&self, sandbox_id: &str) -> (res: (ApiRequest, SnapshotSandboxBody))
        ensures
            res.0.is(Method::Post, self.endpoint("/sandboxes/"@ + sandbox_id@ + "/snapshot"@)),
            res.1.snapshot_type@ == "filesystem"@,
    {
        (
            self.on_sandbox(Method::Post, sandbox_id, "/snapshot"),
            SnapshotSandboxBody { snapshot_type: "filesystem".to_string() },
        )
    }

    /// Reads the answer to [`Self::snapshot_sandbox`]: the id of the snapshot.
    pub fn snapshot_taken(sandbox_id: String, reply: Reply<SnapshotSandboxResponse>) -> (res: Result<
        String,
        BackendError,
    >)
        ensures
            res == (match reply {
                Reply::Unsent { cause } => Err(
                    BackendError::Transport {
                        activity: Activity::Snapshotting { sandbox_id },
                        cause,
                    },
                ),
                Reply::Answered { status, body } => match decoded(
                    status,
                    body,
                    Operation::SnapshotSandbox,
                ) {
                    Ok(snapshot) => Ok(snapshot.snapshot_id),
                    Err(error) => Err(error),
                },
            }),
    {
        match reply {
            Reply::Unsent { cause } => Err(
                BackendError::Transport { activity: Activity::Snapshotting { sandbox_id }, cause },
            ),
            Reply::Answered { status, body } => match decode_json_response(
                status,
                body,
                Operation::SnapshotSandbox,
            ) {
                Ok(snapshot) => Ok(snapshot.snapshot_id),
                Err(error) => Err(error),
            },
        }
    }

    /// `next` ends the run with a sandbox that is running.
    pub open spec fn settles(self, info: SandboxInfo, next: Step) -> bool {
        match next {
            Step::Done(target) => self.locates(info, Ok(target)),
            Step::Failed(error) => self.locates(info, Err(error)),
            _ => false,
        }
    }

    fn settle(&self, info: &SandboxInfo) -> (next: Step)
        ensures
            self.settles(*info, next),
    {
        match self.target_for(info) {
            Ok(target) => Step::Done(target),
            Err(error) => Step::Failed(error),
        }
    }

    /// `next` brings a sandbox that exists to `running`.
    pub open spec fn drives(self, info: SandboxInfo, now: TimeSpan, next: Step) -> bool {
        match info.status {
            SandboxStatus::Running => self.settles(info, next),
            SandboxStatus::Suspended => next == Step::Resume(Resume { sandbox_id: info.id }),
            SandboxStatus::Suspending | SandboxStatus::Pending | SandboxStatus::Snapshotting => next
                == Step::Poll(
                Poll { sandbox_id: info.id, resumed: false, deadline: deadline_from(now) },
            ),
            SandboxStatus::Terminated => next == Step::Failed(
                BackendError::Terminated { sandbox_id: info.id },
            ),
        }
    }

    /// Brings a sandbox that exists back to `running`. A resume is refused
    /// while a suspend is still under way, so that one is waited out first.
    pub fn drive_to_running(&self, info: SandboxInfo, now: TimeSpan) -> (next: Step)
        ensures
            self.drives(info, now, next),
    {
        match info.status {
            SandboxStatus::Running => self.settle(&info),
            SandboxStatus::Suspended => Self::resume_and_wait(info.id),
            SandboxStatus::Suspending | SandboxStatus::Pending | SandboxStatus::Snapshotting =>
                Self::wait_until_running(info.id, now),
            SandboxStatus::Terminated => Step::Failed(
                BackendError::Terminated { sandbox_id: info.id },
            ),
        }
    }

    /// Waits for a sandbox, which may need a resume on the way.
    pub fn wait_until_running(sandbox_id: String, now: TimeSpan) -> (next: Step)
        ensures
            next == Step::Poll(Poll { sandbox_id, resumed: false, deadline: deadline_from(now) }),
    {
        Self::poll_until_running(sandbox_id, false, now)
    }

    /// Resumes a sandbox, then waits for it.
    pub fn resume_and_wait(sandbox_id: String) -> (next: Step)
        ensures
            next == Step::Resume(Resume { sandbox_id }),
    {
        Step::Resume(Resume { sandbox_id })
    }

    /// Starts to wait for a sandbox.
    pub fn poll_until_running(sandbox_id: String, resumed: bool, now: TimeSpan) -> (next: Step)
        ensures
            next == Step::Poll(Poll { sandbox_id, resumed, deadline: deadline_from(now) }),
    {
        let limit = TimeSpan { secs: SANDBOX_READY_TIMEOUT_SECS, nanos: 0 };
        let deadline: u128 = now.total_nanos() + limit.total_nanos();
        Step::Poll(Poll { sandbox_id, resumed, deadline })
    }

    /// `next` follows a look for a sandbox.
    pub open spec fn after_look_up(
        self,
        step: LookUp,
        reply: Reply<SandboxInfo>,
        now: TimeSpan,
        next: Step,
    ) -> bool {
        match (found(step.identifier, reply), step.intent) {
            (Err(error), _) => next == Step::Failed(error),
            (Ok(Some(info)), Intent::Acquire { .. }) => self.drives(info, now, next),
            (Ok(Some(info)), Intent::Refresh) => self.drives(info, now, next),
            (Ok(Some(_)), Intent::Restore { body }) => next == Step::Evict(
                Evict { name: step.identifier, body },
            ),
            (Ok(None), Intent::Acquire { body }) => next == Step::Create(
                Create { attempt: 0, body },
            ),
            (Ok(None), Intent::Restore { body }) => next == Step::Create(
                Create { attempt: 0, body },
            ),
            (Ok(None), Intent::Refresh) => next == Step::Failed(
                BackendError::Gone { identifier: step.identifier },
            ),
        }
    }

    /// Decides what the answer to a look calls for.
    pub fn looked_up(&self, step: LookUp, reply: Reply<SandboxInfo>, now: TimeSpan) -> (next: Step)
        ensures
            self.after_look_up(step, reply, now, next),
            follows(Step::LookUp(step), next),
    {
        match Self::sandbox_found(step.identifier.clone(), reply) {
            Err(error) => Step::Failed(error),
            Ok(Some(info)) => match step.intent {
                Intent::Acquire { .. } => self.drive_to_running(info, now),
                Intent::Refresh => self.drive_to_running(info, now),
                Intent::Restore { body } => Step::Evict(Evict { name: step.identifier, body }),
            },
            Ok(None) => match step.intent {
                Intent::Acquire { body } => Self::create_and_wait(body),
                Intent::Restore { body } => Self::create_and_wait(body),
                Intent::Refresh => Step::Failed(
                    BackendError::Gone { identifier: step.identifier },
                ),
            },
        }
    }

    /// `next` follows the deletion of a sandbox that was in the way.
    pub open spec fn after_evict(step: Evict, reply: Reply<()>, next: Step) -> bool {
        let activity = Activity::Deleting { identifier: step.name };
        match next {
            Step::Create(create) => create == (Create { attempt: 0, body: step.body })
                && acknowledges(reply, activity, Operation::DeleteSandbox, Ok(())),
            Step::Failed(error) => acknowledges(
                reply,
                activity,
                Operation::DeleteSandbox,
                Err(error),
            ),
            _ => false,
        }
    }

    /// Goes on once the sandbox that was in the way is deleted.
    pub fn evicted(step: Evict, reply: Reply<()>) -> (next: Step)
        ensures
            Self::after_evict(step, reply, next),
            follows(Step::Evict(step), next),
    {
        match Self::sandbox_deleted(step.name, reply) {
            Ok(()) => Self::create_and_wait(step.body),
            Err(error) => Step::Failed(error),
        }
    }

    /// `next` follows an attempt to create a sandbox: a name that is taken is
    /// tried again after a pause, until the attempts are used up.
    pub open spec fn after_create(
        step: Create,
        reply: Reply<CreateSandboxResponse>,
        now: TimeSpan,
        next: Step,
    ) -> bool {
        match reply {
            Reply::Unsent { cause } => next == Step::Failed(
                BackendError::Transport { activity: Activity::Creating, cause },
            ),
            Reply::Answered { status, body } => if status.number() == CONFLICT {
                if step.attempt + 1 < NAME_CONFLICT_RETRIES {
                    next == Step::Backoff(
                        Create { attempt: (step.attempt + 1) as usize, body: step.body },
                    )
                } else {
                    next matches Step::Failed(BackendError::NameConflict { name, last }) && name
                        == step.body.name && last@ == body.shown()
                }
            } else {
                match decoded(status, body, Operation::CreateSandbox) {
                    Ok(created) => next == Step::Poll(
                        Poll {
                            sandbox_id: created.sandbox_id,
                            resumed: false,
                            deadline: deadline_from(now),
                        },
                    ),
                    Err(error) => next == Step::Failed(error),
                }
            },
        }
    }

    /// Decides what the answer to a create calls for.
    pub fn created(step: Create, reply: Reply<CreateSandboxResponse>, now: TimeSpan) -> (next: Step)
        ensures
            Self::after_create(step, reply, now, next),
            follows(Step::Create(step), next),
    {
        match reply {
            Reply::Unsent { cause } => Step::Failed(
                BackendError::Transport { activity: Activity::Creating, cause },
            ),
            Reply::Answered { status, body } => {
                if status.as_u16() != CONFLICT {
                    return match decode_json_response(status, body, Operation::CreateSandbox) {
                        Ok(created) => Self::wait_until_running(created.sandbox_id, now),
                        Err(error) => Step::Failed(error),
                    };
                }
                if step.attempt < NAME_CONFLICT_RETRIES - 1 {
                    return Step::Backoff(Create { attempt: step.attempt + 1, body: step.body });
                }
                Step::Failed(
                    BackendError::NameConflict { name: step.body.name, last: body.into_text() },
                )
            },
        }
    }

    /// `next` follows the resume of a sandbox that was found suspended.
    pub open spec fn after_resume(step: Resume, reply: Reply<()>, now: TimeSpan, next: Step) -> bool {
        let activity = Activity::Resuming { identifier: step.sandbox_id };
        match next {
            Step::Poll(poll) => poll == (Poll {
                sandbox_id: step.sandbox_id,
                resumed: true,
                deadline: deadline_from(now),
            }) && acknowledges(reply, activity, Operation::ResumeSandbox, Ok(())),
            Step::Failed(error) => acknowledges(
                reply,
                activity,
                Operation::ResumeSandbox,
                Err(error),
            ),
            _ => false,
        }
    }

    /// Waits for a sandbox once it has been told to resume.
    pub fn resumed(step: Resume, reply: Reply<()>, now: TimeSpan) -> (next: Step)
        ensures
            Self::after_resume(step, reply, now, next),
            follows(Step::Resume(step), next),
    {
        match Self::sandbox_resumed(step.sandbox_id.clone(), reply) {
            Ok(()) => Self::poll_until_running(step.sandbox_id, true, now),
            Err(error) => Step::Failed(error),
        }
    }

    /// `next` follows a look at a sandbox that is awaited.
    pub open spec fn after_poll(
        self,
        step: Poll,
        reply: Reply<SandboxInfo>,
        now: TimeSpan,
        next: Step,
    ) -> bool {
        match reply {
            Reply::Unsent { cause } => next == Step::Failed(
                BackendError::Transport {
                    activity: Activity::Polling { sandbox_id: step.sandbox_id },
                    cause,
                },
            ),
            Reply::Answered { status, body } => match decoded(status, body, Operation::GetSandbox) {
                Err(error) => next == Step::Failed(error),
                Ok(info) => if info.status == SandboxStatus::Running {
                    self.settles(info, next)
                } else if info.status == SandboxStatus::Terminated {
                    next == Step::Failed(
                        BackendError::TerminatedWhileStarting {
                            sandbox_id: step.sandbox_id,
                            outcome: info.outcome,
                        },
                    )
                } else if info.status == SandboxStatus::Suspended && !step.resumed {
                    next == Step::PollResume(
                        PollResume {
                            sandbox_id: step.sandbox_id,
                            deadline: step.deadline,
                            pending_reason: info.pending_reason,
                        },
                    )
                } else {
                    next == keeps_waiting(step, info.status, info.pending_reason, now)
                },
            },
        }
    }

    fn keep_waiting(
        poll: Poll,
        status: SandboxStatus,
        pending_reason: Option<String>,
        now: TimeSpan,
    ) -> (next: Step)
        ensures
            next == keeps_waiting(poll, status, pending_reason, now),
    {
        if now.total_nanos() >= poll.deadline {
            Step::Failed(
                BackendError::NotReady { sandbox_id: poll.sandbox_id, status, pending_reason },
            )
        } else {
            Step::Pause(poll)
        }
    }

    /// Decides what a look at a sandbox that is awaited calls for. A sandbox
    /// that settles into `suspended` is resumed, but no more than once.
    pub fn polled(&self, step: Poll, reply: Reply<SandboxInfo>, now: TimeSpan) -> (next: Step)
        ensures
            self.after_poll(step, reply, now, next),
            follows(Step::Poll(step), next),
    {
        match reply {
            Reply::Unsent { cause } => Step::Failed(
                BackendError::Transport {
                    activity: Activity::Polling { sandbox_id: step.sandbox_id },
                    cause,
                },
            ),
            Reply::Answered { status, body } => {
                let info = match decode_json_response(status, body, Operation::GetSandbox) {
                    Ok(info) => info,
                    Err(error) => {
                        return Step::Failed(error);
                    },
                };
                match info.status {
                    SandboxStatus::Running => self.settle(&info),
                    SandboxStatus::Terminated => Step::Failed(
                        BackendError::TerminatedWhileStarting {
                            sandbox_id: step.sandbox_id,
                            outcome: info.outcome,
                        },
                    ),
                    SandboxStatus::Suspended if !step.resumed => Step::PollResume(
                        PollResume {
                            sandbox_id: step.sandbox_id,
                            deadline: step.deadline,
                            pending_reason: info.pending_reason,
                        },
                    ),
                    SandboxStatus::Suspended
                    | SandboxStatus::Suspending
                    | SandboxStatus::Pending
                    | SandboxStatus::Snapshotting => Self::keep_waiting(
                        step,
                        info.status,
                        info.pending_reason,
                        now,
                    ),
                }
            },
        }
    }

    /// `next` follows the resume of a sandbox that is awaited.
    pub open spec fn after_poll_resume(
        step: PollResume,
        reply: Reply<()>,
        now: TimeSpan,
        next: Step,
    ) -> bool {
        let activity = Activity::Resuming { identifier: step.sandbox_id };
        let poll = Poll { sandbox_id: step.sandbox_id, resumed: true, deadline: step.deadline };
        if acknowledges(reply, activity, Operation::ResumeSandbox, Ok(())) {
            next == keeps_waiting(poll, SandboxStatus::Suspended, step.pending_reason, now)
        } else {
            next matches Step::Failed(error) && acknowledges(
                reply,
                activity,
                Operation::ResumeSandbox,
                Err(error),
            )
        }
    }

    /// Goes on waiting for a sandbox once it has been told to resume.
    pub fn poll_resumed(step: PollResume, reply: Reply<()>, now: TimeSpan) -> (next: Step)
        ensures
            Self::after_poll_resume(step, reply, now, next),
            follows(Step::PollResume(step), next),
    {
        match Self::sandbox_resumed(step.sandbox_id.clone(), reply) {
            Ok(()) => Self::keep_waiting(
                Poll { sandbox_id: step.sandbox_id, resumed: true, deadline: step.deadline },
                SandboxStatus::Suspended,
                step.pending_reason,
                now,
            ),
            Err(error) => Step::Failed(error),
        }
    }

    /// The request that a step sends.
    pub open spec fn sends(self, step: Step) -> Option<(Method, Seq<char>)> {
        match step {
            Step::LookUp(look) => Some((Method::Get, self.sandbox_endpoint(look.identifier@))),
            Step::Evict(evict) => Some((Method::Delete, self.sandbox_endpoint(evict.name@))),
            Step::Create(_) => Some((Method::Post, self.endpoint("/sandboxes"@))),
            Step::Resume(resume) => Some(
                (Method::Post, self.endpoint("/sandboxes/"@ + resume.sandbox_id@ + "/resume"@)),
            ),
            Step::Poll(poll) => Some((Method::Get, self.sandbox_endpoint(poll.sandbox_id@))),
            Step::PollResume(resume) => Some(
                (Method::Post, self.endpoint("/sandboxes/"@ + resume.sandbox_id@ + "/resume"@)),
            ),
            _ => None,
        }
    }

    /// The request that a step sends, where it sends one.
    pub fn request(&self, step: &Step) -> (request: Option<ApiRequest>)
        ensures
            self.sends(*step) == (match request {
                Some(request) => Some((request.method, request.url@)),
                None => None,
            }),
    {
        match step {
            Step::LookUp(look) => Some(self.get_sandbox(look.identifier.as_str())),
            Step::Evict(evict) => Some(self.delete_sandbox(evict.name.as_str())),
            Step::Create(_) => Some(self.create_sandbox()),
            Step::Resume(resume) => Some(self.resume_sandbox(resume.sandbox_id.as_str())),
            Step::Poll(poll) => Some(self.get_sandbox(poll.sandbox_id.as_str())),
            Step::PollResume(resume) => Some(self.resume_sandbox(resume.sandbox_id.as_str())),
            _ => None,
        }
    }
}

impl Step {
    pub open spec fn pause(self) -> Option<u64> {
        match self {
            Step::Backoff(_) => Some(NAME_CONFLICT_RETRY_MILLIS),
            Step::Pause(_) => Some(SANDBOX_READY_POLL_MILLIS),
            _ => None,
        }
    }

    /// How long to pause, in milliseconds, where the step is a pause.
    pub fn delay_millis(&self) -> (delay: Option<u64>)
        ensures
            delay == self.pause(),
    {
        match self {
            Step::Backoff(_) => Some(NAME_CONFLICT_RETRY_MILLIS),
            Step::Pause(_) => Some(SANDBOX_READY_POLL_MILLIS),
            _ => None,
        }
    }

    /// The step after a pause.
    pub fn woken(self) -> (next: Step)
        ensures
            next == (match self {
                Step::Backoff(create) => Step::Create(create),
                Step::Pause(poll) => Step::Poll(poll),
                other => other,
            }),
            self.pause() is Some ==> follows(self, next),
    {
        match self {
            Step::Backoff(create) => Step::Create(create),
            Step::Pause(poll) => Step::Poll(poll),
            other => other,
        }
    }
}

/// The steps that can come after a step.
pub open spec fn follows(step: Step, next: Step) -> bool {
    match step {
        Step::LookUp(look) => match look.intent {
            Intent::Acquire { body } => match next {
                Step::Create(create) => create == (Create { attempt: 0, body }),
                Step::Resume(_) | Step::Done(_) | Step::Failed(_) => true,
                Step::Poll(poll) => !poll.resumed,
                _ => false,
            },
            Intent::Restore { body } => match next {
                Step::Create(create) => create == (Create { attempt: 0, body }),
                Step::Evict(evict) => evict == (Evict { name: look.identifier, body }),
                Step::Failed(_) => true,
                _ => false,
            },
            Intent::Refresh => match next {
                Step::Resume(_) | Step::Done(_) | Step::Failed(_) => true,
                Step::Poll(poll) => !poll.resumed,
                _ => false,
            },
        },
        Step::Evict(evict) => match next {
            Step::Create(create) => create == (Create { attempt: 0, body: evict.body }),
            Step::Failed(_) => true,
            _ => false,
        },
        Step::Create(create) => match next {
            Step::Backoff(again) => {
                &&& again.attempt == create.attempt + 1
                &&& again.attempt < NAME_CONFLICT_RETRIES
                &&& again.body == create.body
            },
            Step::Poll(poll) => !poll.resumed,
            Step::Failed(_) => true,
            _ => false,
        },
        Step::Backoff(create) => next == Step::Create(create),
        Step::Resume(resume) => match next {
            Step::Poll(poll) => poll.resumed && poll.sandbox_id == resume.sandbox_id,
            Step::Failed(_) => true,
            _ => false,
        },
        Step::Poll(poll) => match next {
            Step::Done(_) | Step::Failed(_) => true,
            Step::PollResume(resume) => !poll.resumed && resume.sandbox_id == poll.sandbox_id
                && resume.deadline == poll.deadline,
            Step::Pause(again) => again == poll,
            _ => false,
        },
        Step::PollResume(resume) => match next {
            Step::Failed(_) => true,
            Step::Pause(poll) => poll == (Poll {
                sandbox_id: resume.sandbox_id,
                resumed: true,
                deadline: resume.deadline,
            }),
            _ => false,
        },
        Step::Pause(poll) => next == Step::Poll(poll),
        Step::Done(_) | Step::Failed(_) => false,
    }
}

} // verus!
