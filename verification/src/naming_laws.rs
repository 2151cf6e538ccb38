//! What the names of sandboxes tell apart.
use std::collections::hash_map::DefaultHasher;
use vstd::bytes::{lemma_auto_spec_u64_to_from_le_bytes, spec_u64_to_le_bytes};
use vstd::prelude::*;
use vstd::seq_lib::lemma_flatten_concat;
use vstd::std_specs::hash::DefaultHasherAdditionalSpecFns;
use vstd::utf8::{encode_scalar, encode_utf8, encode_utf8_decode_utf8};

use crate::naming::{
    access_number, mount_writes, mounts_writes, name_writes, network_number, number_writes,
    sandbox_name, spec_hash, spec_writes, text_writes, texts_writes,
};
use crate::path::{components, path_writes};
use crate::sandbox::{SandboxKey, SandboxMount, SandboxSpec};
use crate::sse_laws::lemma_scalar_bytes;
use crate::text::{hexadecimal, lemma_hexadecimal_injective};

verus! {

/// Two keys that say the same.
pub open spec fn same_key(a: SandboxKey, b: SandboxKey) -> bool {
    match (a, b) {
        (
            SandboxKey::ConversationSandbox { conversation_id: c, sandbox_id: s },
            SandboxKey::ConversationSandbox { conversation_id: d, sandbox_id: t },
        ) => c@ == d@ && s@ == t@,
    }
}

/// Two spellings of one path.
pub open spec fn same_path(a: Seq<u8>, b: Seq<u8>) -> bool {
    components(a) == components(b)
}

pub open spec fn same_mount(a: SandboxMount, b: SandboxMount) -> bool {
    &&& same_path(a.host_path@, b.host_path@)
    &&& a.guest_path@ == b.guest_path@
    &&& a.access == b.access
    &&& a.internal == b.internal
}

pub open spec fn same_mounts(a: Seq<SandboxMount>, b: Seq<SandboxMount>) -> bool {
    &&& a.len() == b.len()
    &&& forall|i: int| 0 <= i < a.len() ==> same_mount(#[trigger] a[i], b[i])
}

pub open spec fn same_texts(a: Seq<String>, b: Seq<String>) -> bool {
    &&& a.len() == b.len()
    &&& forall|i: int| 0 <= i < a.len() ==> (#[trigger] a[i])@ == b[i]@
}

/// Two specs that say the same.
pub open spec fn same_spec(a: SandboxSpec, b: SandboxSpec) -> bool {
    &&& a.image@ == b.image@
    &&& same_mounts(a.mounts@, b.mounts@)
    &&& same_texts(a.durable_file_systems@, b.durable_file_systems@)
    &&& a.network == b.network
    &&& a.default_workdir@ == b.default_workdir@
}

proof fn lemma_mounts_writes_equal(a: Seq<SandboxMount>, b: Seq<SandboxMount>)
    requires
        same_mounts(a, b),
    ensures
        mounts_writes(a) == mounts_writes(b),
    decreases a.len(),
{
    if a.len() > 0 {
        assert(same_mount(a[0], b[0]));
        assert forall|i: int| 0 <= i < a.drop_first().len() implies same_mount(
            #[trigger] a.drop_first()[i],
            b.drop_first()[i],
        ) by {
            assert(same_mount(a[i + 1], b[i + 1]));
        }
        lemma_mounts_writes_equal(a.drop_first(), b.drop_first());
    }
}

proof fn lemma_texts_writes_equal(a: Seq<String>, b: Seq<String>)
    requires
        same_texts(a, b),
    ensures
        texts_writes(a) == texts_writes(b),
    decreases a.len(),
{
    if a.len() > 0 {
        assert(a[0]@ == b[0]@);
        assert forall|i: int| 0 <= i < a.drop_first().len() implies (#[trigger] a.drop_first()[i])@
            == b.drop_first()[i]@ by {
            assert(a[i + 1]@ == b[i + 1]@);
        }
        lemma_texts_writes_equal(a.drop_first(), b.drop_first());
    }
}

/// The name depends on nothing but what the key and the spec say, so that every
/// process finds the same sandbox.
pub proof fn law_name_is_stable(
    key: SandboxKey,
    other_key: SandboxKey,
    spec: SandboxSpec,
    other_spec: SandboxSpec,
)
    requires
        same_key(key, other_key),
        same_spec(spec, other_spec),
    ensures
        sandbox_name(key, spec) == sandbox_name(other_key, other_spec),
{
    lemma_mounts_writes_equal(spec.mounts@, other_spec.mounts@);
    lemma_texts_writes_equal(spec.durable_file_systems@, other_spec.durable_file_systems@);
}

proof fn lemma_no_mark(text: Seq<char>)
    ensures
        forall|i: int| 0 <= i < encode_utf8(text).len() ==> encode_utf8(text)[i] < 255,
    decreases text.len(),
{
    if text.len() > 0 {
        let first: char = text[0];
        lemma_scalar_bytes(first);
        lemma_no_mark(text.drop_first());
        let head = encode_scalar(first as u32);
        let rest = encode_utf8(text.drop_first());
        assert forall|i: int| 0 <= i < encode_utf8(text).len() implies encode_utf8(text)[i] < 255 by {
            if i < head.len() {
                assert(encode_utf8(text)[i] == head[i]);
            } else {
                assert(encode_utf8(text)[i] == rest[i - head.len()]);
            }
        }
    }
}

proof fn lemma_cancel(a: Seq<u8>, b: Seq<u8>, x: Seq<u8>, y: Seq<u8>)
    requires
        a.len() == b.len(),
        a + x == b + y,
    ensures
        a == b,
        x == y,
{
    assert(a =~= (a + x).take(a.len() as int));
    assert(b =~= (b + y).take(b.len() as int));
    assert(x =~= (a + x).skip(a.len() as int));
    assert(y =~= (b + y).skip(b.len() as int));
}

proof fn lemma_text_flat(text: Seq<char>)
    ensures
        text_writes(text).flatten() == encode_utf8(text) + seq![255u8],
{
    let writes = text_writes(text);
    assert(writes.drop_first() =~= seq![seq![255u8]]);
    assert(writes.drop_first().drop_first() =~= Seq::<Seq<u8>>::empty());
    assert(writes.drop_first().drop_first().flatten() =~= Seq::<u8>::empty());
    assert(writes.drop_first().flatten() =~= seq![255u8]);
}

proof fn lemma_number_flat(number: u64)
    ensures
        number_writes(number).flatten() == spec_u64_to_le_bytes(number),
{
    let writes = number_writes(number);
    writes.lemma_flatten_one_element();
}

/// A text in front of the bytes, and what follows it, can be read back.
proof fn lemma_split_text(a: Seq<char>, b: Seq<char>, x: Seq<Seq<u8>>, y: Seq<Seq<u8>>)
    requires
        (text_writes(a) + x).flatten() == (text_writes(b) + y).flatten(),
    ensures
        a == b,
        x.flatten() == y.flatten(),
{
    lemma_flatten_concat(text_writes(a), x);
    lemma_flatten_concat(text_writes(b), y);
    lemma_text_flat(a);
    lemma_text_flat(b);
    lemma_no_mark(a);
    lemma_no_mark(b);
    let whole = (text_writes(a) + x).flatten();
    let p = encode_utf8(a);
    let q = encode_utf8(b);
    assert(whole == (p + seq![255u8]) + x.flatten());
    assert(whole == (q + seq![255u8]) + y.flatten());
    assert(whole[p.len() as int] == 255u8);
    assert(whole[q.len() as int] == 255u8);
    if p.len() < q.len() {
        assert(whole[p.len() as int] == q[p.len() as int]);
    }
    if q.len() < p.len() {
        assert(whole[q.len() as int] == p[q.len() as int]);
    }
    lemma_cancel(p + seq![255u8], q + seq![255u8], x.flatten(), y.flatten());
    assert(p =~= (p + seq![255u8]).drop_last());
    assert(q =~= (q + seq![255u8]).drop_last());
    encode_utf8_decode_utf8(a);
    encode_utf8_decode_utf8(b);
}

/// A number in front of the bytes, and what follows it, can be read back.
proof fn lemma_split_number(a: u64, b: u64, x: Seq<Seq<u8>>, y: Seq<Seq<u8>>)
    requires
        (number_writes(a) + x).flatten() == (number_writes(b) + y).flatten(),
    ensures
        a == b,
        x.flatten() == y.flatten(),
{
    lemma_flatten_concat(number_writes(a), x);
    lemma_flatten_concat(number_writes(b), y);
    lemma_number_flat(a);
    lemma_number_flat(b);
    lemma_auto_spec_u64_to_from_le_bytes();
    lemma_cancel(
        spec_u64_to_le_bytes(a),
        spec_u64_to_le_bytes(b),
        x.flatten(),
        y.flatten(),
    );
}

proof fn lemma_split_mount(a: SandboxMount, b: SandboxMount, x: Seq<Seq<u8>>, y: Seq<Seq<u8>>)
    requires
        same_path(a.host_path@, b.host_path@),
        (mount_writes(a) + x).flatten() == (mount_writes(b) + y).flatten(),
    ensures
        same_mount(a, b),
        x.flatten() == y.flatten(),
{
    let flag_a = seq![seq![if a.internal { 1u8 } else { 0u8 }]];
    let flag_b = seq![seq![if b.internal { 1u8 } else { 0u8 }]];
    let access_a = number_writes(access_number(a.access)) + (flag_a + x);
    let access_b = number_writes(access_number(b.access)) + (flag_b + y);
    let guest_a = text_writes(a.guest_path@) + access_a;
    let guest_b = text_writes(b.guest_path@) + access_b;
    let path = path_writes(a.host_path@);
    assert(mount_writes(a) + x =~= path + guest_a);
    assert(mount_writes(b) + y =~= path + guest_b);
    lemma_flatten_concat(path, guest_a);
    lemma_flatten_concat(path, guest_b);
    lemma_cancel(path.flatten(), path.flatten(), guest_a.flatten(), guest_b.flatten());
    lemma_split_text(a.guest_path@, b.guest_path@, access_a, access_b);
    lemma_split_number(access_number(a.access), access_number(b.access), flag_a + x, flag_b + y);
    lemma_flatten_concat(flag_a, x);
    lemma_flatten_concat(flag_b, y);
    flag_a.lemma_flatten_one_element();
    flag_b.lemma_flatten_one_element();
    lemma_cancel(flag_a[0], flag_b[0], x.flatten(), y.flatten());
    assert(flag_a[0][0] == flag_b[0][0]);
}

proof fn lemma_split_mounts(
    a: Seq<SandboxMount>,
    b: Seq<SandboxMount>,
    x: Seq<Seq<u8>>,
    y: Seq<Seq<u8>>,
)
    requires
        a.len() == b.len(),
        same_host_paths(a, b),
        (mounts_writes(a) + x).flatten() == (mounts_writes(b) + y).flatten(),
    ensures
        same_mounts(a, b),
        x.flatten() == y.flatten(),
    decreases a.len(),
{
    if a.len() == 0 {
        assert(mounts_writes(a) + x =~= x);
        assert(mounts_writes(b) + y =~= y);
    } else {
        let rest_a = mounts_writes(a.drop_first()) + x;
        let rest_b = mounts_writes(b.drop_first()) + y;
        assert(mounts_writes(a) + x =~= mount_writes(a.first()) + rest_a);
        assert(mounts_writes(b) + y =~= mount_writes(b.first()) + rest_b);
        assert(same_path(a[0].host_path@, b[0].host_path@));
        lemma_split_mount(a.first(), b.first(), rest_a, rest_b);
        assert forall|i: int|
            0 <= i < a.drop_first().len() && i < b.drop_first().len() implies same_path(
            (#[trigger] a.drop_first()[i]).host_path@,
            b.drop_first()[i].host_path@,
        ) by {
            assert(same_path(a[i + 1].host_path@, b[i + 1].host_path@));
        }
        lemma_split_mounts(a.drop_first(), b.drop_first(), x, y);
        assert forall|i: int| 0 <= i < a.len() implies same_mount(#[trigger] a[i], b[i]) by {
            if i > 0 {
                assert(same_mount(a.drop_first()[i - 1], b.drop_first()[i - 1]));
            }
        }
    }
}

proof fn lemma_split_texts(a: Seq<String>, b: Seq<String>, x: Seq<Seq<u8>>, y: Seq<Seq<u8>>)
    requires
        a.len() == b.len(),
        (texts_writes(a) + x).flatten() == (texts_writes(b) + y).flatten(),
    ensures
        same_texts(a, b),
        x.flatten() == y.flatten(),
    decreases a.len(),
{
    if a.len() == 0 {
        assert(texts_writes(a) + x =~= x);
        assert(texts_writes(b) + y =~= y);
    } else {
        let rest_a = texts_writes(a.drop_first()) + x;
        let rest_b = texts_writes(b.drop_first()) + y;
        assert(texts_writes(a) + x =~= text_writes(a.first()@) + rest_a);
        assert(texts_writes(b) + y =~= text_writes(b.first()@) + rest_b);
        lemma_split_text(a.first()@, b.first()@, rest_a, rest_b);
        lemma_split_texts(a.drop_first(), b.drop_first(), x, y);
        assert forall|i: int| 0 <= i < a.len() implies (#[trigger] a[i])@ == b[i]@ by {
            if i > 0 {
                assert(a.drop_first()[i - 1]@ == b.drop_first()[i - 1]@);
            }
        }
    }
}

/// As far as both lists of mounts go, their host paths are the same.
pub open spec fn same_host_paths(a: Seq<SandboxMount>, b: Seq<SandboxMount>) -> bool {
    forall|i: int|
        0 <= i < a.len() && i < b.len() ==> same_path(
            (#[trigger] a[i]).host_path@,
            b[i].host_path@,
        )
}

/// Specs that differ, in more than the host paths of their mounts, feed
/// different bytes to the hasher, however the writes are cut: a changed spec
/// keeps its old name only if the hash collides. Different host paths can run
/// together with what follows them to the same bytes.
pub proof fn law_changed_spec_changes_what_is_hashed(a: SandboxSpec, b: SandboxSpec)
    requires
        same_host_paths(a.mounts@, b.mounts@),
        spec_writes(a).flatten() == spec_writes(b).flatten(),
    ensures
        same_spec(a, b),
{
    let none = Seq::<Seq<u8>>::empty();
    let workdir_a = text_writes(a.default_workdir@);
    let workdir_b = text_writes(b.default_workdir@);
    let network_a = number_writes(network_number(a.network)) + workdir_a;
    let network_b = number_writes(network_number(b.network)) + workdir_b;
    let durable_a = texts_writes(a.durable_file_systems@) + network_a;
    let durable_b = texts_writes(b.durable_file_systems@) + network_b;
    let count_a = number_writes(a.durable_file_systems@.len() as u64) + durable_a;
    let count_b = number_writes(b.durable_file_systems@.len() as u64) + durable_b;
    let mounts_a = mounts_writes(a.mounts@) + count_a;
    let mounts_b = mounts_writes(b.mounts@) + count_b;
    let total_a = number_writes(a.mounts@.len() as u64) + mounts_a;
    let total_b = number_writes(b.mounts@.len() as u64) + mounts_b;
    assert(a.mounts.len() == a.mounts@.len() && b.mounts.len() == b.mounts@.len());
    assert(a.durable_file_systems.len() == a.durable_file_systems@.len());
    assert(b.durable_file_systems.len() == b.durable_file_systems@.len());
    lemma_split_text(a.image@, b.image@, total_a, total_b);
    lemma_split_number(a.mounts@.len() as u64, b.mounts@.len() as u64, mounts_a, mounts_b);
    lemma_split_mounts(a.mounts@, b.mounts@, count_a, count_b);
    lemma_split_number(
        a.durable_file_systems@.len() as u64,
        b.durable_file_systems@.len() as u64,
        durable_a,
        durable_b,
    );
    lemma_split_texts(a.durable_file_systems@, b.durable_file_systems@, network_a, network_b);
    lemma_split_number(network_number(a.network), network_number(b.network), workdir_a, workdir_b);
    assert(workdir_a + none =~= workdir_a);
    assert(workdir_b + none =~= workdir_b);
    lemma_split_text(a.default_workdir@, b.default_workdir@, none, none);
}

/// Requests that differ in their key or in the hash of their spec feed
/// different bytes to the hasher that makes the name.
pub proof fn law_changed_request_changes_what_is_hashed(
    key: SandboxKey,
    other_key: SandboxKey,
    spec: SandboxSpec,
    other_spec: SandboxSpec,
)
    requires
        name_writes(key, spec).flatten() == name_writes(other_key, other_spec).flatten(),
    ensures
        same_key(key, other_key),
        spec_hash(spec) == spec_hash(other_spec),
{
    let none = Seq::<Seq<u8>>::empty();
    match (key, other_key) {
        (
            SandboxKey::ConversationSandbox { conversation_id: c, sandbox_id: s },
            SandboxKey::ConversationSandbox { conversation_id: d, sandbox_id: t },
        ) => {
            let hash = text_writes(spec_hash(spec));
            let other_hash = text_writes(spec_hash(other_spec));
            let rest = text_writes(s@) + hash;
            let other_rest = text_writes(t@) + other_hash;
            assert(name_writes(key, spec) =~= text_writes(c@) + rest);
            assert(name_writes(other_key, other_spec) =~= text_writes(d@) + other_rest);
            lemma_split_text(c@, d@, rest, other_rest);
            lemma_split_text(s@, t@, hash, other_hash);
            assert(hash + none =~= hash);
            assert(other_hash + none =~= other_hash);
            lemma_split_text(spec_hash(spec), spec_hash(other_spec), none, none);
        },
    }
}

/// Different hashes make different names.
pub proof fn law_different_hashes_make_different_names(
    key: SandboxKey,
    other_key: SandboxKey,
    spec: SandboxSpec,
    other_spec: SandboxSpec,
)
    requires
        sandbox_name(key, spec) == sandbox_name(other_key, other_spec),
    ensures
        DefaultHasher::spec_finish(name_writes(key, spec)) == DefaultHasher::spec_finish(
            name_writes(other_key, other_spec),
        ),
{
    let a = DefaultHasher::spec_finish(name_writes(key, spec)) as nat;
    let b = DefaultHasher::spec_finish(name_writes(other_key, other_spec)) as nat;
    let left = hexadecimal(a, 16);
    let right = hexadecimal(b, 16);
    assert(left =~= ("exo-"@ + left).skip("exo-"@.len() as int));
    assert(right =~= ("exo-"@ + right).skip("exo-"@.len() as int));
    assert(vstd::arithmetic::power::pow(16, 16) == 0x1_0000_0000_0000_0000) by {
        reveal(vstd::arithmetic::power::pow);
        reveal_with_fuel(vstd::arithmetic::power::pow, 17);
    }
    lemma_hexadecimal_injective(a, b, 16);
}

} // verus!
