//! Everything that can go wrong, and how it is reported.
use vstd::prelude::*;

use crate::api::SandboxStatus;
use crate::http::HttpStatus;
use crate::sandbox::SnapshotKind;
use crate::text::{decimal, decimal_text, join_text, joined};

verus! {

/// The calls of the two APIs, as error reports name them.
#[derive(Clone, Copy, PartialEq, Eq, Structural, Debug)]
pub enum Operation {
    GetSandbox,
    CreateSandbox,
    DeleteSandbox,
    SuspendSandbox,
    ResumeSandbox,
    SnapshotSandbox,
    RunProcess,
    StartProcess,
    GetProcess,
    FollowOutput,
}

impl Operation {
    pub open spec fn text(self) -> Seq<char> {
        match self {
            Operation::GetSandbox => "Tensorlake get-sandbox"@,
            Operation::CreateSandbox => "Tensorlake create-sandbox"@,
            Operation::DeleteSandbox => "Tensorlake delete-sandbox"@,
            Operation::SuspendSandbox => "Tensorlake suspend-sandbox"@,
            Operation::ResumeSandbox => "Tensorlake resume-sandbox"@,
            Operation::SnapshotSandbox => "Tensorlake snapshot-sandbox"@,
            Operation::RunProcess => "Tensorlake run-process"@,
            Operation::StartProcess => "Tensorlake start-process"@,
            Operation::GetProcess => "Tensorlake get-process"@,
            Operation::FollowOutput => "Tensorlake follow-output"@,
        }
    }

    pub fn to_text(self) -> (text: &'static str)
        ensures
            text@ == self.text(),
    {
        match self {
            Operation::GetSandbox => "Tensorlake get-sandbox",
            Operation::CreateSandbox => "Tensorlake create-sandbox",
            Operation::DeleteSandbox => "Tensorlake delete-sandbox",
            Operation::SuspendSandbox => "Tensorlake suspend-sandbox",
            Operation::ResumeSandbox => "Tensorlake resume-sandbox",
            Operation::SnapshotSandbox => "Tensorlake snapshot-sandbox",
            Operation::RunProcess => "Tensorlake run-process",
            Operation::StartProcess => "Tensorlake start-process",
            Operation::GetProcess => "Tensorlake get-process",
            Operation::FollowOutput => "Tensorlake follow-output",
        }
    }
}

/// What was being done when a request got no answer.
#[derive(Debug)]
pub enum Activity {
    Fetching { identifier: String },
    Creating,
    Deleting { identifier: String },
    Suspending { identifier: String },
    Resuming { identifier: String },
    Polling { sandbox_id: String },
    Snapshotting { sandbox_id: String },
    RunningProcess,
    StartingProcess,
    PollingProcess { url: String },
    FollowingOutput { url: String },
}

impl Activity {
    pub open spec fn text(self) -> Seq<char> {
        match self {
            Activity::Fetching { identifier } => "fetching Tensorlake sandbox "@ + identifier@,
            Activity::Creating => "creating Tensorlake sandbox"@,
            Activity::Deleting { identifier } => "deleting Tensorlake sandbox "@ + identifier@,
            Activity::Suspending { identifier } => "suspending Tensorlake sandbox "@ + identifier@,
            Activity::Resuming { identifier } => "resuming Tensorlake sandbox "@ + identifier@,
            Activity::Polling { sandbox_id } => "polling Tensorlake sandbox "@ + sandbox_id@,
            Activity::Snapshotting { sandbox_id } => "snapshotting Tensorlake sandbox "@
                + sandbox_id@,
            Activity::RunningProcess => Operation::RunProcess.text(),
            Activity::StartingProcess => Operation::StartProcess.text(),
            Activity::PollingProcess { url } => "polling Tensorlake process at "@ + url@,
            Activity::FollowingOutput { url } => "following Tensorlake process output at "@ + url@,
        }
    }

    pub fn to_text(&self) -> (text: String)
        ensures
            text@ == self.text(),
    {
        match self {
            Activity::Fetching { identifier } => about(
                "fetching Tensorlake sandbox ",
                identifier.as_str(),
            ),
            Activity::Creating => "creating Tensorlake sandbox".to_string(),
            Activity::Deleting { identifier } => about(
                "deleting Tensorlake sandbox ",
                identifier.as_str(),
            ),
            Activity::Suspending { identifier } => about(
                "suspending Tensorlake sandbox ",
                identifier.as_str(),
            ),
            Activity::Resuming { identifier } => about(
                "resuming Tensorlake sandbox ",
                identifier.as_str(),
            ),
            Activity::Polling { sandbox_id } => about(
                "polling Tensorlake sandbox ",
                sandbox_id.as_str(),
            ),
            Activity::Snapshotting { sandbox_id } => about(
                "snapshotting Tensorlake sandbox ",
                sandbox_id.as_str(),
            ),
            Activity::RunningProcess => Operation::RunProcess.to_text().to_string(),
            Activity::StartingProcess => Operation::StartProcess.to_text().to_string(),
            Activity::PollingProcess { url } => about(
                "polling Tensorlake process at ",
                url.as_str(),
            ),
            Activity::FollowingOutput { url } => about(
                "following Tensorlake process output at ",
                url.as_str(),
            ),
        }
    }
}

fn about(doing: &str, what: &str) -> (text: String)
    ensures
        text@ == doing@ + what@,
{
    crate::text::concat_text(doing, what)
}

/// How `Debug` shows an optional text.
pub uninterp spec fn debug_text(value: Option<Seq<char>>) -> Seq<char>;

/// Formats an `Option<String>` with `Debug`. What it shows depends on the text
/// alone.
#[verifier::external_body]
fn show_debug(value: &Option<String>) -> (text: String)
    ensures
        text@ == debug_text(optional(*value)),
{
    format!("{:?}", value)
}

/// An optional text as a character sequence.
pub open spec fn optional(value: Option<String>) -> Option<Seq<char>> {
    match value {
        Some(text) => Some(text@),
        None => None,
    }
}

/// What is said of a request that was answered with a status other than success.
pub open spec fn refusal_said(operation: Operation, status: Seq<char>, body: Seq<char>) -> Seq<
    char,
> {
    operation.text() + " failed ("@ + status + "): "@ + body
}

/// Says that a request was answered with the status that is shown.
pub fn refusal_text(operation: Operation, status: &str, body: &str) -> (text: String)
    ensures
        text@ == refusal_said(operation, status@, body@),
{
    let mut text = about(operation.to_text(), " failed (");
    text.append(status);
    text.append("): ");
    text.append(body);
    text
}

/// What is said of a name that stayed taken.
pub open spec fn conflict_said(name: Seq<char>, last: Seq<char>) -> Seq<char> {
    "Tensorlake create-sandbox kept reporting a name conflict for "@ + name + ": "@ + last
}

/// Says that the name that is shown stayed taken.
pub fn conflict_text(name: &str, last: &str) -> (text: String)
    ensures
        text@ == conflict_said(name@, last@),
{
    let mut text = about("Tensorlake create-sandbox kept reporting a name conflict for ", name);
    text.append(": ");
    text.append(last);
    text
}

/// Failures of the backend. Where another failure is behind it, `cause` says
/// what it was.
#[derive(Debug)]
#[allow(inconsistent_fields)]
pub enum BackendError {
    InvalidApiKey { cause: String },
    UnsupportedMounts,
    UnsupportedDurableFileSystems,
    ForeignSnapshot { kind: SnapshotKind },
    UnreadableManifest { cause: String },
    /// A request got no answer.
    Transport { activity: Activity, cause: String },
    /// The body of an answer could not be read.
    UnreadableBody { operation: Operation, cause: String },
    /// A request was answered with a status other than success.
    Refused { operation: Operation, status: HttpStatus, body: String },
    /// The body of an answer is not what the API promises.
    Undecodable { operation: Operation, body: String, cause: String },
    UndecodableStart { cause: String },
    /// The name of a new sandbox stayed taken.
    NameConflict { name: Option<String>, last: String },
    Terminated { sandbox_id: String },
    TerminatedWhileStarting { sandbox_id: String, outcome: Option<String> },
    NotReady { sandbox_id: String, status: SandboxStatus, pending_reason: Option<String> },
    NoSandboxUrl { sandbox_id: String },
    Gone { identifier: String },
    EmptyCommand,
    CommandTimedOut { secs: u64, argv: Vec<String> },
    BrokenRunStream { cause: String },
    UndecodableRunEvent { data: String, cause: String },
    MissingExit,
    BrokenOutputStream { cause: String },
    UndecodableOutputEvent { data: String, cause: String },
    BrokenOutputPipe { cause: String },
}

/// How long a sandbox may take to reach `running`, in seconds.
pub const SANDBOX_READY_TIMEOUT_SECS: u64 = 180;

impl BackendError {
    /// What the error says.
    pub open spec fn text(self) -> Seq<char> {
        match self {
            BackendError::InvalidApiKey { .. } =>
                "TENSORLAKE_API_KEY contains characters that aren't valid in an HTTP header"@,
            BackendError::UnsupportedMounts =>
                "Tensorlake sandbox backend does not support host bind-mounts; remove conversation mounts or use a local sandbox provider"@,
            BackendError::UnsupportedDurableFileSystems =>
                "Tensorlake sandbox backend does not support durable file systems"@,
            BackendError::ForeignSnapshot { kind } =>
                "Tensorlake sandbox backend can only restore from SnapshotKind::TensorlakeSnapshot, got "@
                    + kind.name(),
            BackendError::UnreadableManifest { .. } => "decoding TensorlakeSnapshot manifest"@,
            BackendError::Transport { activity, .. } => activity.text(),
            BackendError::UnreadableBody { operation, .. } => "reading "@ + operation.text()
                + " response body"@,
            BackendError::Refused { operation, status, body } => refusal_said(
                operation,
                status.text(),
                body@,
            ),
            BackendError::Undecodable { operation, body, .. } => "decoding "@ + operation.text()
                + " response: "@ + body@,
            BackendError::UndecodableStart { .. } => "decoding Tensorlake start-process response"@,
            BackendError::NameConflict { name, last } => conflict_said(
                debug_text(optional(name)),
                last@,
            ),
            BackendError::Terminated { sandbox_id } => "Tensorlake sandbox "@ + sandbox_id@
                + " is terminated and cannot be reused"@,
            BackendError::TerminatedWhileStarting { sandbox_id, outcome } => {
                let said = "Tensorlake sandbox "@ + sandbox_id@ + " terminated while starting"@;
                match outcome {
                    Some(outcome) => said + ": "@ + outcome@,
                    None => said,
                }
            },
            BackendError::NotReady { sandbox_id, status, pending_reason } => {
                let said = "Tensorlake sandbox "@ + sandbox_id@ + " was still "@ + status.name()
                    + " after "@ + decimal(SANDBOX_READY_TIMEOUT_SECS as nat) + "s"@;
                match pending_reason {
                    Some(reason) => said + " ("@ + reason@ + ")"@,
                    None => said,
                }
            },
            BackendError::NoSandboxUrl { sandbox_id } => "Tensorlake sandbox "@ + sandbox_id@
                + " is running but reported no sandbox_url"@,
            BackendError::Gone { identifier } => "Tensorlake sandbox "@ + identifier@
                + " no longer exists"@,
            BackendError::EmptyCommand => "sandbox command requires at least one argv entry"@,
            BackendError::CommandTimedOut { secs, argv } => "sandbox command timed out after "@
                + decimal(secs as nat) + "s: "@ + joined(argv@, " "@),
            BackendError::BrokenRunStream { .. } => Operation::RunProcess.text(),
            BackendError::UndecodableRunEvent { data, .. } =>
                "decoding Tensorlake run-process event: "@ + data@,
            BackendError::MissingExit =>
                "Tensorlake run-process stream ended without an exit event; the command may have run without its result being reported"@,
            BackendError::BrokenOutputStream { .. } => "reading Tensorlake event stream"@,
            BackendError::UndecodableOutputEvent { data, .. } =>
                "decoding Tensorlake output event: "@ + data@,
            BackendError::BrokenOutputPipe { .. } => "writing Tensorlake process output pipe"@,
        }
    }

    /// Says what went wrong.
    pub fn message(&self) -> (text: String)
        ensures
            text@ == self.text(),
    {
        match self {
            BackendError::InvalidApiKey { .. } =>
                "TENSORLAKE_API_KEY contains characters that aren't valid in an HTTP header".to_string(),
            BackendError::UnsupportedMounts =>
                "Tensorlake sandbox backend does not support host bind-mounts; remove conversation mounts or use a local sandbox provider".to_string(),
            BackendError::UnsupportedDurableFileSystems =>
                "Tensorlake sandbox backend does not support durable file systems".to_string(),
            BackendError::ForeignSnapshot { kind } => about(
                "Tensorlake sandbox backend can only restore from SnapshotKind::TensorlakeSnapshot, got ",
                kind.to_text(),
            ),
            BackendError::UnreadableManifest { .. } =>
                "decoding TensorlakeSnapshot manifest".to_string(),
            BackendError::Transport { activity, .. } => activity.to_text(),
            BackendError::UnreadableBody { operation, .. } => {
                let mut text = about("reading ", operation.to_text());
                text.append(" response body");
                text
            },
            BackendError::Refused { operation, status, body } => refusal_text(
                *operation,
                status.to_text().as_str(),
                body.as_str(),
            ),
            BackendError::Undecodable { operation, body, .. } => {
                let mut text = about("decoding ", operation.to_text());
                text.append(" response: ");
                text.append(body.as_str());
                text
            },
            BackendError::UndecodableStart { .. } =>
                "decoding Tensorlake start-process response".to_string(),
            BackendError::NameConflict { name, last } => conflict_text(
                show_debug(name).as_str(),
                last.as_str(),
            ),
            BackendError::Terminated { sandbox_id } => {
                let mut text = about("Tensorlake sandbox ", sandbox_id.as_str());
                text.append(" is terminated and cannot be reused");
                text
            },
            BackendError::TerminatedWhileStarting { sandbox_id, outcome } => {
                let mut text = about("Tensorlake sandbox ", sandbox_id.as_str());
                text.append(" terminated while starting");
                if let Some(outcome) = outcome {
                    text.append(": ");
                    text.append(outcome.as_str());
                }
                text
            },
            BackendError::NotReady { sandbox_id, status, pending_reason } => {
                let mut text = about("Tensorlake sandbox ", sandbox_id.as_str());
                text.append(" was still ");
                text.append(status.to_text());
                text.append(" after ");
                text.append(decimal_text(SANDBOX_READY_TIMEOUT_SECS).as_str());
                text.append("s");
                if let Some(reason) = pending_reason {
                    text.append(" (");
                    text.append(reason.as_str());
                    text.append(")");
                }
                text
            },
            BackendError::NoSandboxUrl { sandbox_id } => {
                let mut text = about("Tensorlake sandbox ", sandbox_id.as_str());
                text.append(" is running but reported no sandbox_url");
                text
            },
            BackendError::Gone { identifier } => {
                let mut text = about("Tensorlake sandbox ", identifier.as_str());
                text.append(" no longer exists");
                text
            },
            BackendError::EmptyCommand =>
                "sandbox command requires at least one argv entry".to_string(),
            BackendError::CommandTimedOut { secs, argv } => {
                let mut text = about(
                    "sandbox command timed out after ",
                    decimal_text(*secs).as_str(),
                );
                text.append("s: ");
                text.append(join_text(argv, " ").as_str());
                text
            },
            BackendError::BrokenRunStream { .. } => Operation::RunProcess.to_text().to_string(),
            BackendError::UndecodableRunEvent { data, .. } => about(
                "decoding Tensorlake run-process event: ",
                data.as_str(),
            ),
            BackendError::MissingExit =>
                "Tensorlake run-process stream ended without an exit event; the command may have run without its result being reported".to_string(),
            BackendError::BrokenOutputStream { .. } =>
                "reading Tensorlake event stream".to_string(),
            BackendError::UndecodableOutputEvent { data, .. } => about(
                "decoding Tensorlake output event: ",
                data.as_str(),
            ),
            BackendError::BrokenOutputPipe { .. } =>
                "writing Tensorlake process output pipe".to_string(),
        }
    }

    /// The failure behind this one.
    pub open spec fn behind(self) -> Option<Seq<char>> {
        match self {
            BackendError::InvalidApiKey { cause }
            | BackendError::UnreadableManifest { cause }
            | BackendError::Transport { cause, .. }
            | BackendError::UnreadableBody { cause, .. }
            | BackendError::Undecodable { cause, .. }
            | BackendError::UndecodableStart { cause }
            | BackendError::UndecodableRunEvent { cause, .. }
            | BackendError::BrokenOutputStream { cause }
            | BackendError::UndecodableOutputEvent { cause, .. }
            | BackendError::BrokenOutputPipe { cause } => Some(cause@),
            BackendError::BrokenRunStream { cause } => Some(
                "reading Tensorlake event stream: "@ + cause@,
            ),
            _ => None,
        }
    }

    /// The failure that caused this one, where another one did.
    pub fn cause(&self) -> (text: Option<String>)
        ensures
            optional(text) == self.behind(),
    {
        match self {
            BackendError::InvalidApiKey { cause }
            | BackendError::UnreadableManifest { cause }
            | BackendError::Transport { cause, .. }
            | BackendError::UnreadableBody { cause, .. }
            | BackendError::Undecodable { cause, .. }
            | BackendError::UndecodableStart { cause }
            | BackendError::UndecodableRunEvent { cause, .. }
            | BackendError::BrokenOutputStream { cause }
            | BackendError::UndecodableOutputEvent { cause, .. }
            | BackendError::BrokenOutputPipe { cause } => Some(cause.clone()),
            BackendError::BrokenRunStream { cause } => Some(
                about("reading Tensorlake event stream: ", cause.as_str()),
            ),
            _ => None,
        }
    }
}

} // verus!
