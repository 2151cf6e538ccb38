//! Names of resumable sandboxes.

use std::collections::hash_map::DefaultHasher;
use std::hash::{Hash, Hasher};
use std::path::{Path, PathBuf};

use tensorlake_sandbox::naming::{sandbox_name_for_request, sandbox_spec_hash};
use tensorlake_sandbox::path::write_path;
use tensorlake_sandbox::sandbox::{
    SandboxKey, SandboxLifecycleConfig, SandboxMount, SandboxMountAccess, SandboxNetworkPolicy,
    SandboxRequest, SandboxSpec, TimeSpan,
};

fn request(conversation_id: &str, sandbox_id: &str, image: &str) -> SandboxRequest {
    SandboxRequest {
        key: SandboxKey::ConversationSandbox {
            conversation_id: conversation_id.to_string(),
            sandbox_id: sandbox_id.to_string(),
        },
        spec: SandboxSpec {
            image: image.to_string(),
            mounts: Vec::new(),
            durable_file_systems: Vec::new(),
            network: SandboxNetworkPolicy::Enabled,
            default_workdir: "/workspace".to_string(),
        },
        lifecycle: SandboxLifecycleConfig { idle_ttl: Some(TimeSpan { secs: 60, nanos: 0 }) },
    }
}

fn hash_of(spec: &SandboxSpec) -> String {
    let mut hasher = DefaultHasher::new();
    spec.hash(&mut hasher);
    format!("{:016x}", hasher.finish())
}

fn name_of(request: &SandboxRequest) -> String {
    let mut hasher = DefaultHasher::new();
    request.key.hash(&mut hasher);
    hash_of(&request.spec).hash(&mut hasher);
    format!("exo-{:016x}", hasher.finish())
}

fn samples() -> Vec<SandboxRequest> {
    let mut samples = vec![
        request("", "", ""),
        request("conv", "sandbox", "tensorlake/ubuntu-minimal"),
        request("con", "vsandbox", "tensorlake/ubuntu-minimal"),
        request("gr\u{fc}n", "\u{65e5}\u{672c}\u{1f600}", "img"),
    ];
    let mut closed = request("conv", "sandbox", "tensorlake/ubuntu-minimal");
    closed.spec.network = SandboxNetworkPolicy::Disabled;
    samples.push(closed);
    let mut durable = request("conv", "sandbox", "tensorlake/ubuntu-minimal");
    durable.spec.durable_file_systems = vec!["a".to_string(), "bc".to_string()];
    samples.push(durable);
    let mut elsewhere = request("conv", "sandbox", "tensorlake/ubuntu-minimal");
    elsewhere.spec.default_workdir = "/".to_string();
    samples.push(elsewhere);
    samples
}

#[test]
fn names_are_hashes_of_the_key_and_the_spec() {
    for sample in samples() {
        assert_eq!(sandbox_spec_hash(&sample.spec), hash_of(&sample.spec));
        assert_eq!(sandbox_name_for_request(&sample), Some(name_of(&sample)));
    }
}

/// A mount with its path as a `PathBuf`.
#[derive(Hash)]
struct PathMount {
    host_path: PathBuf,
    guest_path: String,
    access: SandboxMountAccess,
    internal: bool,
}

#[derive(Hash)]
struct PathSpec {
    image: String,
    mounts: Vec<PathMount>,
    durable_file_systems: Vec<String>,
    network: SandboxNetworkPolicy,
    default_workdir: String,
}

fn hash_with_paths(spec: &SandboxSpec) -> String {
    let mounts = spec.mounts.iter().map(|mount| PathMount {
        host_path: PathBuf::from(String::from_utf8(mount.host_path.clone()).unwrap()),
        guest_path: mount.guest_path.clone(),
        access: mount.access,
        internal: mount.internal,
    });
    let spec = PathSpec {
        image: spec.image.clone(),
        mounts: mounts.collect(),
        durable_file_systems: spec.durable_file_systems.clone(),
        network: spec.network,
        default_workdir: spec.default_workdir.clone(),
    };
    let mut hasher = DefaultHasher::new();
    spec.hash(&mut hasher);
    format!("{:016x}", hasher.finish())
}

#[test]
fn mounts_are_part_of_the_hash() {
    let mut sample = request("conv", "sandbox", "img");
    assert_eq!(sandbox_spec_hash(&sample.spec), hash_with_paths(&sample.spec));
    let plain = sandbox_spec_hash(&sample.spec);
    for (path, internal, access) in [
        ("/tmp", false, SandboxMountAccess::ReadWrite),
        ("relative/./path//to", true, SandboxMountAccess::ReadOnly),
        ("", false, SandboxMountAccess::ReadOnly),
    ] {
        sample.spec.mounts.push(SandboxMount {
            host_path: path.as_bytes().to_vec(),
            guest_path: "/workspace".to_string(),
            access,
            internal,
        });
        let mounted = sandbox_spec_hash(&sample.spec);
        assert_ne!(plain, mounted);
        assert_eq!(mounted, hash_with_paths(&sample.spec));
    }
}

#[test]
fn a_mount_by_another_spelling_gets_the_same_name() {
    let with = |path: &str| {
        let mut sample = request("conv", "sandbox", "img");
        sample.spec.mounts.push(SandboxMount {
            host_path: path.as_bytes().to_vec(),
            guest_path: "/g".to_string(),
            access: SandboxMountAccess::ReadOnly,
            internal: false,
        });
        sandbox_name_for_request(&sample)
    };
    assert_eq!(with("/home/user"), with("/home//./user/"));
    assert_ne!(with("/home/user"), with("/homeuser"));
    assert_ne!(with("/home/user"), with("/home/../user"));
}

#[test]
fn paths_hash_as_the_standard_library_hashes_them() {
    let mut paths: Vec<String> = vec!["/tmp".to_string(), "a-long-name/with.dots/\u{fc}".to_string()];
    // Every path of up to seven of these characters.
    let mut grown = vec![String::new()];
    for _ in 0..7 {
        paths.extend(grown.iter().cloned());
        grown = grown
            .iter()
            .flat_map(|path| ["/", ".", "a"].map(|next| format!("{path}{next}")))
            .collect();
    }
    paths.extend(grown);
    for count in [10, 31, 40, 70] {
        paths.push("/component".repeat(count));
        paths.push("/a".repeat(count));
    }
    for path in paths {
        let mut ours = DefaultHasher::new();
        write_path(&mut ours, &path.as_bytes().to_vec());
        let mut theirs = DefaultHasher::new();
        Path::new(&path).hash(&mut theirs);
        assert_eq!(ours.finish(), theirs.finish(), "{path:?}");
    }
}

#[test]
fn the_same_request_gets_the_same_name() {
    for sample in samples() {
        let mut later = sample.clone();
        later.lifecycle.idle_ttl = Some(TimeSpan { secs: 1, nanos: 5 });
        assert_eq!(sandbox_name_for_request(&sample), sandbox_name_for_request(&later));
    }
}

#[test]
fn different_requests_get_different_names() {
    let names: Vec<String> =
        samples().iter().map(|sample| sandbox_name_for_request(sample).unwrap()).collect();
    for i in 0..names.len() {
        assert_eq!(names[i].len(), 20);
        for j in 0..i {
            assert_ne!(names[i], names[j]);
        }
    }
}

#[test]
fn a_request_without_an_idle_time_has_no_name() {
    let mut sample = request("conv", "sandbox", "img");
    sample.lifecycle.idle_ttl = None;
    assert_eq!(sandbox_name_for_request(&sample), None);
}

#[test]
fn an_idle_time_of_nothing_is_still_an_idle_time() {
    let mut sample = request("conv", "sandbox", "img");
    sample.lifecycle.idle_ttl = Some(TimeSpan { secs: 0, nanos: 0 });
    assert_eq!(sandbox_name_for_request(&sample), Some(name_of(&sample)));
}
