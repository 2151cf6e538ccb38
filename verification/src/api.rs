//! The messages of the platform API and of the sandbox process API.
use vstd::prelude::*;

use crate::sandbox::{Environment, TimeSpan};

verus! {

/// A number of CPU cores, as the bits of an IEEE 754 double.
#[derive(Clone, Copy, PartialEq, Eq, Structural, Debug)]
pub struct CpuCores {
    pub bits: u64,
}

#[derive(Clone, Copy, PartialEq, Eq, Structural, Debug)]
pub struct SandboxResourceOverrides {
    pub cpus: Option<CpuCores>,
    pub memory_mb: Option<u64>,
}

#[derive(Clone, Copy, PartialEq, Eq, Structural, Debug)]
pub struct SandboxNetworkAccessControl {
    pub allow_internet_access: bool,
}

/// What `POST /sandboxes` is told.
#[derive(Debug)]
pub struct CreateSandboxBody {
    pub name: Option<String>,
    pub image: Option<String>,
    pub snapshot_id: Option<String>,
    pub resources: Option<SandboxResourceOverrides>,
    pub timeout_secs: Option<u64>,
    pub network: Option<SandboxNetworkAccessControl>,
}

#[derive(Debug)]
pub struct CreateSandboxResponse {
    pub sandbox_id: String,
}

#[derive(Clone, Copy, PartialEq, Eq, Structural, Debug)]
pub enum SandboxStatus {
    Pending,
    Running,
    Snapshotting,
    Suspending,
    Suspended,
    Terminated,
}

impl SandboxStatus {
    pub open spec fn name(self) -> Seq<char> {
        match self {
            SandboxStatus::Pending => "Pending"@,
            SandboxStatus::Running => "Running"@,
            SandboxStatus::Snapshotting => "Snapshotting"@,
            SandboxStatus::Suspending => "Suspending"@,
            SandboxStatus::Suspended => "Suspended"@,
            SandboxStatus::Terminated => "Terminated"@,
        }
    }

    pub fn to_text(self) -> (text: &'static str)
        ensures
            text@ == self.name(),
    {
        match self {
            SandboxStatus::Pending => "Pending",
            SandboxStatus::Running => "Running",
            SandboxStatus::Snapshotting => "Snapshotting",
            SandboxStatus::Suspending => "Suspending",
            SandboxStatus::Suspended => "Suspended",
            SandboxStatus::Terminated => "Terminated",
        }
    }
}

/// What the platform knows about a sandbox.
#[derive(Debug)]
pub struct SandboxInfo {
    pub id: String,
    pub status: SandboxStatus,
    pub pending_reason: Option<String>,
    pub outcome: Option<String>,
    pub sandbox_url: Option<String>,
}

#[derive(Debug)]
pub struct SnapshotSandboxBody {
    pub snapshot_type: String,
}

#[derive(Debug)]
pub struct SnapshotSandboxResponse {
    pub snapshot_id: String,
}

/// What is kept of a snapshot. The file system stays with the platform.
#[derive(Debug)]
pub struct TensorlakeSnapshotManifest {
    pub snapshot_id: String,
    /// The sandbox that the snapshot was taken from, where it has a name.
    pub sandbox_name: Option<String>,
}

/// What `POST /api/v1/processes/run` is told.
#[derive(Debug)]
pub struct RunProcessBody {
    pub command: String,
    pub args: Vec<String>,
    pub env: Environment,
    pub working_dir: Option<String>,
    pub timeout: Option<TimeSpan>,
}

/// What `POST /api/v1/processes` is told.
#[derive(Debug)]
pub struct StartProcessBody {
    pub command: String,
    pub args: Vec<String>,
    pub env: Environment,
    pub working_dir: Option<String>,
    pub stdin_mode: String,
    pub stdout_mode: String,
    pub stderr_mode: String,
}

#[derive(Clone, Copy, PartialEq, Eq, Structural, Debug)]
pub enum ProcessOutputStream {
    Stdout,
    Stderr,
}

/// One event of a run. The started, output and exited events share this form;
/// which fields are present tells them apart.
#[derive(Debug)]
pub struct RunProcessEvent {
    pub started_at: Option<i64>,
    pub line: Option<String>,
    pub stream: Option<ProcessOutputStream>,
    pub exit_code: Option<i32>,
    pub signal: Option<i32>,
}

/// One event of an output follower.
#[derive(Debug)]
pub struct ProcessOutputEvent {
    pub line: Option<String>,
}

#[derive(Clone, Copy, PartialEq, Eq, Structural, Debug)]
pub enum ProcessStatus {
    Running,
    Exited,
    Signaled,
    OomKilled,
}

/// What the sandbox knows about a process.
#[derive(Clone, Copy, PartialEq, Eq, Structural, Debug)]
pub struct ProcessInfo {
    pub pid: i32,
    pub status: ProcessStatus,
    pub exit_code: Option<i32>,
    pub signal: Option<i32>,
}

} // verus!
