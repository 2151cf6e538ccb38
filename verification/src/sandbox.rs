//! What callers ask of a sandbox and what they get back.
use vstd::prelude::*;

verus! {

/// A length of time: whole seconds and the nanoseconds beyond them.
#[derive(Clone, Copy, PartialEq, Eq, Structural, Debug)]
pub struct TimeSpan {
    pub secs: u64,
    pub nanos: u32,
}

impl TimeSpan {
    /// Less than a second lies beyond the whole seconds.
    pub open spec fn is_normal(self) -> bool {
        self.nanos < 1_000_000_000
    }

    /// The length in nanoseconds.
    pub open spec fn total(self) -> nat {
        self.secs as nat * 1_000_000_000 + self.nanos as nat
    }

    /// Computes the length in nanoseconds.
    pub fn total_nanos(self) -> (nanos: u128)
        ensures
            nanos == self.total(),
    {
        self.secs as u128 * 1_000_000_000 + self.nanos as u128
    }
}

/// Whom a sandbox belongs to.
#[derive(Clone, PartialEq, Eq, Hash, Debug)]
pub enum SandboxKey {
    ConversationSandbox { conversation_id: String, sandbox_id: String },
}

impl SandboxKey {
    pub open spec fn text(self) -> Seq<char> {
        match self {
            SandboxKey::ConversationSandbox { conversation_id, sandbox_id } => "conversation:"@
                + conversation_id@ + ":"@ + sandbox_id@,
        }
    }

    /// The key as it appears in the id of a handle.
    pub fn to_text(&self) -> (text: String)
        ensures
            text@ == self.text(),
    {
        match self {
            SandboxKey::ConversationSandbox { conversation_id, sandbox_id } => {
                let mut text = "conversation:".to_string();
                text.append(conversation_id.as_str());
                text.append(":");
                text.append(sandbox_id.as_str());
                text
            },
        }
    }
}

#[derive(Clone, Copy, PartialEq, Eq, Structural, Hash, Debug)]
pub enum SandboxMountAccess {
    ReadOnly,
    ReadWrite,
}

/// A directory of the host that is to appear in the sandbox.
#[derive(Clone, PartialEq, Eq, Hash, Debug)]
pub struct SandboxMount {
    /// Where the directory is on the host, as the bytes of its path.
    pub host_path: Vec<u8>,
    pub guest_path: String,
    pub access: SandboxMountAccess,
    pub internal: bool,
}

#[derive(Clone, Copy, PartialEq, Eq, Structural, Hash, Debug)]
pub enum SandboxNetworkPolicy {
    Enabled,
    Disabled,
}

/// What a sandbox is made of.
#[derive(Clone, PartialEq, Eq, Hash, Debug)]
pub struct SandboxSpec {
    pub image: String,
    pub mounts: Vec<SandboxMount>,
    pub durable_file_systems: Vec<String>,
    pub network: SandboxNetworkPolicy,
    pub default_workdir: String,
}

#[derive(Clone, Copy, PartialEq, Eq, Structural, Debug)]
pub struct SandboxLifecycleConfig {
    /// How long an unused sandbox keeps running. A request without it gets a
    /// sandbox that lives only as long as its handle.
    pub idle_ttl: Option<TimeSpan>,
}

#[derive(Clone, PartialEq, Eq, Debug)]
pub struct SandboxRequest {
    pub key: SandboxKey,
    pub spec: SandboxSpec,
    pub lifecycle: SandboxLifecycleConfig,
}

/// No name stands in the pairs twice.
pub open spec fn names_once(pairs: Seq<(String, String)>) -> bool {
    forall|i: int, j: int|
        0 <= i < j < pairs.len() ==> (#[trigger] pairs[i]).0@ != (#[trigger] pairs[j]).0@
}

/// What the pairs say of each name.
pub open spec fn as_map(pairs: Seq<(String, String)>) -> Map<Seq<char>, Seq<char>>
    decreases pairs.len(),
{
    if pairs.len() == 0 {
        Map::empty()
    } else {
        as_map(pairs.drop_last()).insert(pairs.last().0@, pairs.last().1@)
    }
}

/// Environment variables. Each name has one value.
#[derive(Debug)]
pub struct Environment {
    pairs: Vec<(String, String)>,
}

impl View for Environment {
    type V = Map<Seq<char>, Seq<char>>;

    closed spec fn view(&self) -> Map<Seq<char>, Seq<char>> {
        as_map(self.pairs@)
    }
}

impl Environment {
    #[verifier::type_invariant]
    spec fn valid(self) -> bool {
        names_once(self.pairs@)
    }

    /// The environment without any variable.
    pub fn new() -> (env: Self)
        ensures
            env@ == Map::<Seq<char>, Seq<char>>::empty(),
    {
        Environment { pairs: Vec::new() }
    }

    /// Sets a variable, in place of the value that it had.
    pub fn set(self, name: String, value: String) -> (env: Self)
        ensures
            env@ == self@.insert(name@, value@),
    {
        proof {
            use_type_invariant(&self);
        }
        let mut kept: Vec<(String, String)> = Vec::new();
        let mut i: usize = 0;
        assert(self.pairs@.take(0) =~= Seq::empty());
        assert(as_map(kept@) =~= as_map(self.pairs@.take(0)).remove(name@));
        while i < self.pairs.len()
            invariant
                i <= self.pairs@.len(),
                names_once(self.pairs@),
                names_once(kept@),
                forall|j: int| 0 <= j < kept@.len() ==> (#[trigger] kept@[j]).0@ != name@,
                forall|j: int, k: int|
                    0 <= j < kept@.len() && i <= k < self.pairs@.len() ==> (
                    #[trigger] kept@[j]).0@ != (#[trigger] self.pairs@[k]).0@,
                as_map(kept@) == as_map(self.pairs@.take(i as int)).remove(name@),
            decreases self.pairs@.len() - i,
        {
            let ghost now = self.pairs@.take(i + 1);
            assert(now.drop_last() =~= self.pairs@.take(i as int));
            let ghost before = kept@;
            if self.pairs[i].0 != name {
                kept.push((self.pairs[i].0.clone(), self.pairs[i].1.clone()));
                assert(kept@.drop_last() =~= before);
                assert(as_map(kept@) =~= as_map(now).remove(name@));
            } else {
                assert(as_map(kept@) =~= as_map(now).remove(name@));
            }
            i = i + 1;
        }
        assert(self.pairs@.take(i as int) =~= self.pairs@);
        let ghost before = kept@;
        kept.push((name, value));
        assert(kept@.drop_last() =~= before);
        assert(as_map(kept@) =~= as_map(self.pairs@).insert(name@, value@));
        Environment { pairs: kept }
    }

    /// The names and values, each name once.
    pub fn pairs(&self) -> (pairs: &Vec<(String, String)>)
        ensures
            names_once(pairs@),
            as_map(pairs@) == self@,
    {
        proof {
            use_type_invariant(self);
        }
        &self.pairs
    }
}

impl Clone for Environment {
    fn clone(&self) -> (copy: Self)
        ensures
            copy@ == self@,
    {
        proof {
            use_type_invariant(self);
        }
        let mut pairs: Vec<(String, String)> = Vec::new();
        let mut i: usize = 0;
        while i < self.pairs.len()
            invariant
                i <= self.pairs@.len(),
                pairs@ == self.pairs@.take(i as int),
            decreases self.pairs@.len() - i,
        {
            pairs.push((self.pairs[i].0.clone(), self.pairs[i].1.clone()));
            assert(self.pairs@.take(i + 1) =~= self.pairs@.take(i as int).push(
                self.pairs@[i as int],
            ));
            i = i + 1;
        }
        assert(self.pairs@.take(i as int) =~= self.pairs@);
        Environment { pairs }
    }
}

/// A command to run in a sandbox.
#[derive(Clone, Debug)]
pub struct SandboxCommand {
    pub argv: Vec<String>,
    /// The environment variables to set.
    pub env: Environment,
    /// What to show in place of `argv`.
    pub display_argv: Option<Vec<String>>,
    pub cwd: Option<String>,
    pub timeout: Option<TimeSpan>,
}

/// What a finished command left behind.
#[derive(Clone, Debug)]
pub struct SandboxCommandOutput {
    pub ok: bool,
    pub exit_code: Option<i32>,
    pub stdout: String,
    pub stderr: String,
    pub command: Vec<String>,
    pub cwd: String,
}

/// The formats that a snapshot can be stored in.
#[derive(Clone, Copy, PartialEq, Eq, Structural, Debug)]
pub enum SnapshotKind {
    DockerImageTar,
    TensorlakeSnapshot,
}

impl SnapshotKind {
    pub open spec fn name(self) -> Seq<char> {
        match self {
            SnapshotKind::DockerImageTar => "DockerImageTar"@,
            SnapshotKind::TensorlakeSnapshot => "TensorlakeSnapshot"@,
        }
    }

    /// The name of the format.
    pub fn to_text(self) -> (text: &'static str)
        ensures
            text@ == self.name(),
    {
        match self {
            SnapshotKind::DockerImageTar => "DockerImageTar",
            SnapshotKind::TensorlakeSnapshot => "TensorlakeSnapshot",
        }
    }
}

} // verus!
