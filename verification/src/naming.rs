//! Names of resumable sandboxes.
//!
//! The platform keeps no labels on a sandbox, so its name is the only thing to
//! find it by again. The name is a hash of the key and the spec: the same
//! request finds the same sandbox from any process, and a changed spec gets a
//! sandbox of its own.
use std::collections::hash_map::DefaultHasher;
use std::hash::Hasher;
use vstd::bytes::{spec_u64_to_le_bytes, u64_to_le_bytes};
use vstd::prelude::*;
use vstd::std_specs::hash::DefaultHasherAdditionalSpecFns;
use vstd::utf8::encode_utf8;

use crate::path::{path_writes, write_path};
use crate::sandbox::{
    SandboxKey, SandboxMount, SandboxMountAccess, SandboxNetworkPolicy, SandboxRequest, SandboxSpec,
};
use crate::text::{hexadecimal, hexadecimal_text};

verus! {

/// What a text feeds to the hasher: its bytes and a byte that no text has.
pub open spec fn text_writes(text: Seq<char>) -> Seq<Seq<u8>> {
    seq![encode_utf8(text), seq![255u8]]
}

/// What a count or the position of a variant feeds to the hasher.
pub open spec fn number_writes(number: u64) -> Seq<Seq<u8>> {
    seq![spec_u64_to_le_bytes(number)]
}

pub open spec fn key_writes(key: SandboxKey) -> Seq<Seq<u8>> {
    match key {
        SandboxKey::ConversationSandbox { conversation_id, sandbox_id } => text_writes(
            conversation_id@,
        ) + text_writes(sandbox_id@),
    }
}

pub open spec fn access_number(access: SandboxMountAccess) -> u64 {
    match access {
        SandboxMountAccess::ReadOnly => 0,
        SandboxMountAccess::ReadWrite => 1,
    }
}

pub open spec fn network_number(network: SandboxNetworkPolicy) -> u64 {
    match network {
        SandboxNetworkPolicy::Enabled => 0,
        SandboxNetworkPolicy::Disabled => 1,
    }
}

/// What a mount feeds to the hasher.
pub open spec fn mount_writes(mount: SandboxMount) -> Seq<Seq<u8>> {
    path_writes(mount.host_path@) + text_writes(mount.guest_path@) + number_writes(
        access_number(mount.access),
    ) + seq![seq![if mount.internal { 1u8 } else { 0u8 }]]
}

pub open spec fn mounts_writes(mounts: Seq<SandboxMount>) -> Seq<Seq<u8>>
    decreases mounts.len(),
{
    if mounts.len() == 0 {
        Seq::empty()
    } else {
        mount_writes(mounts.first()) + mounts_writes(mounts.drop_first())
    }
}

pub open spec fn texts_writes(texts: Seq<String>) -> Seq<Seq<u8>>
    decreases texts.len(),
{
    if texts.len() == 0 {
        Seq::empty()
    } else {
        text_writes(texts.first()@) + texts_writes(texts.drop_first())
    }
}

/// What a spec feeds to the hasher: its parts in order, each list behind its
/// length.
pub open spec fn spec_writes(spec: SandboxSpec) -> Seq<Seq<u8>> {
    text_writes(spec.image@) + (number_writes(spec.mounts@.len() as u64) + (mounts_writes(
        spec.mounts@,
    ) + (number_writes(spec.durable_file_systems@.len() as u64) + (texts_writes(
        spec.durable_file_systems@,
    ) + (number_writes(network_number(spec.network)) + text_writes(spec.default_workdir@))))))
}

/// The hash of a spec, in sixteen hexadecimal digits.
pub open spec fn spec_hash(spec: SandboxSpec) -> Seq<char> {
    hexadecimal(DefaultHasher::spec_finish(spec_writes(spec)) as nat, 16)
}

/// What the key and the spec of a request feed to the hasher.
pub open spec fn name_writes(key: SandboxKey, spec: SandboxSpec) -> Seq<Seq<u8>> {
    key_writes(key) + text_writes(spec_hash(spec))
}

/// The name of the resumable sandbox for a key and a spec.
pub open spec fn sandbox_name(key: SandboxKey, spec: SandboxSpec) -> Seq<char> {
    "exo-"@ + hexadecimal(DefaultHasher::spec_finish(name_writes(key, spec)) as nat, 16)
}

fn write_text(hasher: &mut DefaultHasher, text: &str)
    ensures
        final(hasher)@ == old(hasher)@ + text_writes(text@),
{
    hasher.write(text.as_bytes());
    let mark: Vec<u8> = vec![255u8];
    hasher.write(mark.as_slice());
    assert(mark@ =~= seq![255u8]);
    assert(hasher@ =~= old(hasher)@ + text_writes(text@));
}

fn write_number(hasher: &mut DefaultHasher, number: u64)
    ensures
        final(hasher)@ == old(hasher)@ + number_writes(number),
{
    let bytes = u64_to_le_bytes(number);
    hasher.write(bytes.as_slice());
    assert(hasher@ =~= old(hasher)@ + number_writes(number));
}

fn write_key(hasher: &mut DefaultHasher, key: &SandboxKey)
    ensures
        final(hasher)@ == old(hasher)@ + key_writes(*key),
{
    match key {
        SandboxKey::ConversationSandbox { conversation_id, sandbox_id } => {
            write_text(hasher, conversation_id.as_str());
            write_text(hasher, sandbox_id.as_str());
        },
    }
    assert(hasher@ =~= old(hasher)@ + key_writes(*key));
}

fn write_mount(hasher: &mut DefaultHasher, mount: &SandboxMount)
    ensures
        final(hasher)@ == old(hasher)@ + mount_writes(*mount),
{
    write_path(hasher, &mount.host_path);
    write_text(hasher, mount.guest_path.as_str());
    let access: u64 = match mount.access {
        SandboxMountAccess::ReadOnly => 0,
        SandboxMountAccess::ReadWrite => 1,
    };
    write_number(hasher, access);
    let internal: Vec<u8> = if mount.internal {
        vec![1u8]
    } else {
        vec![0u8]
    };
    hasher.write(internal.as_slice());
    assert(internal@ =~= seq![if mount.internal { 1u8 } else { 0u8 }]);
    assert(hasher@ =~= old(hasher)@ + mount_writes(*mount));
}

fn write_mounts(hasher: &mut DefaultHasher, mounts: &Vec<SandboxMount>)
    ensures
        final(hasher)@ == old(hasher)@ + mounts_writes(mounts@),
{
    let mut i: usize = 0;
    assert(mounts@.skip(0) =~= mounts@);
    while i < mounts.len()
        invariant
            i <= mounts.len(),
            hasher@ + mounts_writes(mounts@.skip(i as int)) == old(hasher)@ + mounts_writes(
                mounts@,
            ),
        decreases mounts.len() - i,
    {
        let ghost before = hasher@;
        write_mount(hasher, &mounts[i]);
        let ghost rest = mounts@.skip(i as int);
        assert(rest.drop_first() =~= mounts@.skip(i + 1));
        assert(hasher@ + mounts_writes(rest.drop_first()) =~= before + mounts_writes(rest));
        i = i + 1;
    }
    assert(mounts@.skip(i as int) =~= Seq::empty());
    assert(hasher@ + mounts_writes(mounts@.skip(i as int)) =~= hasher@);
}

fn write_texts(hasher: &mut DefaultHasher, texts: &Vec<String>)
    ensures
        final(hasher)@ == old(hasher)@ + texts_writes(texts@),
{
    let mut i: usize = 0;
    assert(texts@.skip(0) =~= texts@);
    while i < texts.len()
        invariant
            i <= texts.len(),
            hasher@ + texts_writes(texts@.skip(i as int)) == old(hasher)@ + texts_writes(texts@),
        decreases texts.len() - i,
    {
        let ghost before = hasher@;
        write_text(hasher, texts[i].as_str());
        let ghost rest = texts@.skip(i as int);
        assert(rest.drop_first() =~= texts@.skip(i + 1));
        assert(hasher@ + texts_writes(rest.drop_first()) =~= before + texts_writes(rest));
        i = i + 1;
    }
    assert(texts@.skip(i as int) =~= Seq::empty());
    assert(hasher@ + texts_writes(texts@.skip(i as int)) =~= hasher@);
}

/// Hashes everything that a spec says.
pub fn sandbox_spec_hash(spec: &SandboxSpec) -> (hash: String)
    ensures
        hash@ == spec_hash(*spec),
{
    let mut hasher = DefaultHasher::new();
    write_text(&mut hasher, spec.image.as_str());
    write_number(&mut hasher, spec.mounts.len() as u64);
    write_mounts(&mut hasher, &spec.mounts);
    write_number(&mut hasher, spec.durable_file_systems.len() as u64);
    write_texts(&mut hasher, &spec.durable_file_systems);
    let network: u64 = match spec.network {
        SandboxNetworkPolicy::Enabled => 0,
        SandboxNetworkPolicy::Disabled => 1,
    };
    write_number(&mut hasher, network);
    write_text(&mut hasher, spec.default_workdir.as_str());
    assert(hasher@ =~= spec_writes(*spec));
    hexadecimal_text(hasher.finish(), 16)
}

/// The name of the sandbox that a request resumes. A request without an idle
/// time gets none: only named sandboxes can suspend and resume.
pub fn sandbox_name_for_request(request: &SandboxRequest) -> (name: Option<String>)
    ensures
        match name {
            Some(text) => request.lifecycle.idle_ttl is Some && text@ == sandbox_name(
                request.key,
                request.spec,
            ),
            None => request.lifecycle.idle_ttl is None,
        },
{
    if request.lifecycle.idle_ttl.is_none() {
        return None;
    }
    let spec_hash = sandbox_spec_hash(&request.spec);
    let mut hasher = DefaultHasher::new();
    write_key(&mut hasher, &request.key);
    write_text(&mut hasher, spec_hash.as_str());
    assert(hasher@ =~= name_writes(request.key, request.spec));
    let mut name = "exo-".to_string();
    name.append(hexadecimal_text(hasher.finish(), 16).as_str());
    Some(name)
}

} // verus!
