//! What a request comes to, said of the functions that callers use.
use vstd::prelude::*;
use vstd::utf8::encode_utf8;

use crate::api::{
    CreateSandboxBody, SandboxResourceOverrides, TensorlakeSnapshotManifest,
};
use crate::backend::{
    default_tensorlake_image, reject_unsupported_mounts, resolve_image, TensorlakeConfig,
    TensorlakeSandboxBackend,
};
use crate::error::BackendError;
use crate::handle::{Session, TensorlakeSandboxHandle};
use crate::handle_laws::body_of;
use crate::http::{ApiRequest, Method};
use crate::lifecycle::{LookUp, Step, TensorlakeBackendHandle, TensorlakeSandboxTarget};
use crate::naming::sandbox_name_for_request;
use crate::naming_laws::{law_name_is_stable, same_key, same_spec};
use crate::sandbox::{
    Environment, SandboxKey, SandboxRequest, SandboxSpec, SnapshotKind, TimeSpan,
};
use crate::text::CharClass;
use crate::text_laws::{lemma_trimmed_end_cuts, lemma_trimmed_keeps, runs_out_in};

verus! {

/// Two optional texts that say the same.
pub open spec fn same_optional(a: Option<String>, b: Option<String>) -> bool {
    match (a, b) {
        (Some(x), Some(y)) => x@ == y@,
        (None, None) => true,
        _ => false,
    }
}

/// Some character of the text is not white space.
pub open spec fn shows_something(text: Seq<char>) -> bool {
    exists|i: int| 0 <= i < text.len() && !CharClass::White.has(#[trigger] text[i])
}

proof fn lemma_shows_something(text: Seq<char>)
    ensures
        shows_something(text) <==> crate::text::trimmed(text).len() > 0,
{
    lemma_trimmed_keeps(text);
}

/// A key is refused exactly if it holds a control character other than the tab,
/// as a byte; else it is what every request is authorized with. The URLs lose
/// the slashes at their ends, and all else is kept.
pub proof fn law_a_backend_is_what_was_configured(
    config: TensorlakeConfig,
    res: Result<TensorlakeSandboxBackend, BackendError>,
)
    requires
        call_ensures(TensorlakeSandboxBackend::new, (config,), res),
    ensures
        ({
            let header = encode_utf8("Bearer "@ + config.api_key@);
            &&& res is Ok <==> forall|i: int|
                0 <= i < header.len() ==> (#[trigger] header[i] == 9 || (header[i] >= 32
                    && header[i] != 127))
            &&& res matches Ok(backend) ==> backend.authorization@ == header
        }),
        res matches Err(error) ==> error is InvalidApiKey,
        res matches Ok(backend) ==> {
            &&& runs_out_in(config.api_url@, backend.api_url@, |c: char| c == '/')
            &&& backend.default_image@ == config.default_image@
            &&& backend.cpus == config.cpus
            &&& backend.memory_mb == config.memory_mb
            &&& backend.sandbox_base_url is Some <==> config.sandbox_base_url is Some
            &&& backend.sandbox_base_url matches Some(url) ==> runs_out_in(
                config.sandbox_base_url->0@,
                url@,
                |c: char| c == '/',
            )
        },
{
    lemma_trimmed_end_cuts(config.api_url@, CharClass::Slash);
    assert((|c: char| CharClass::Slash.has(c)) =~= (|c: char| c == '/'));
    if let Some(url) = config.sandbox_base_url {
        lemma_trimmed_end_cuts(url@, CharClass::Slash);
    }
    let header = encode_utf8("Bearer "@ + config.api_key@);
    if forall|i: int|
        0 <= i < header.len() ==> (#[trigger] header[i] == 9 || (header[i] >= 32 && header[i]
            != 127)) {
        assert forall|i: int| 0 <= i < header.len() implies crate::backend::is_header_byte(
            #[trigger] header[i],
        ) by {}
    } else {
        let i = choose|i: int|
            0 <= i < header.len() && !(#[trigger] header[i] == 9 || (header[i] >= 32 && header[i]
                != 127));
        assert(!crate::backend::is_header_byte(header[i]));
    }
}

/// The handle of a backend reaches the same platform.
pub proof fn law_a_handle_reaches_the_same_platform(
    backend: &TensorlakeSandboxBackend,
    handle: TensorlakeBackendHandle,
)
    requires
        call_ensures(TensorlakeSandboxBackend::handle_backend, (backend,), handle),
    ensures
        handle.api_url@ == backend.api_url@,
        same_optional(handle.sandbox_base_url, backend.sandbox_base_url),
{
}

/// The image is the one that the spec asks for, if it shows anything, else the
/// configured one, if that shows anything, else the built-in one. It is not
/// changed in any way.
pub proof fn law_the_first_image_that_shows_is_used(
    spec: &SandboxSpec,
    configured: &str,
    image: String,
    built_in: String,
)
    requires
        call_ensures(resolve_image, (spec, configured), image),
        call_ensures(default_tensorlake_image, (), built_in),
    ensures
        shows_something(spec.image@) ==> image@ == spec.image@,
        !shows_something(spec.image@) && shows_something(configured@) ==> image@ == configured@,
        !shows_something(spec.image@) && !shows_something(configured@) ==> image@ == built_in@,
        built_in@ == "tensorlake/ubuntu-minimal"@,
{
    lemma_shows_something(spec.image@);
    lemma_shows_something(configured@);
}

/// A request is turned down exactly if it asks for mounts or for durable file
/// systems, and told of the mounts first. Acquiring and restoring turn down the
/// same requests.
pub proof fn law_mounts_and_file_systems_are_turned_down(
    backend: &TensorlakeSandboxBackend,
    request: &SandboxRequest,
    kind: SnapshotKind,
    manifest: Result<TensorlakeSnapshotManifest, String>,
    rejected: Result<(), BackendError>,
    acquired: Result<Step, BackendError>,
    restored: Result<Step, BackendError>,
)
    requires
        call_ensures(reject_unsupported_mounts, (request,), rejected),
        call_ensures(TensorlakeSandboxBackend::acquire, (backend, request), acquired),
        call_ensures(
            TensorlakeSandboxBackend::acquire_from_snapshot,
            (backend, request, kind, manifest),
            restored,
        ),
    ensures
        rejected is Ok <==> request.spec.mounts@.len() == 0
            && request.spec.durable_file_systems@.len() == 0,
        request.spec.mounts@.len() > 0 ==> rejected == Err::<(), _>(
            BackendError::UnsupportedMounts,
        ),
        request.spec.mounts@.len() == 0 && request.spec.durable_file_systems@.len() > 0
            ==> rejected == Err::<(), _>(BackendError::UnsupportedDurableFileSystems),
        acquired is Ok <==> rejected is Ok,
        rejected matches Err(error) ==> acquired == Err::<Step, _>(error) && restored == Err::<
            Step,
            _,
        >(error),
        rejected is Ok && kind != SnapshotKind::TensorlakeSnapshot ==> restored == Err::<Step, _>(
            BackendError::ForeignSnapshot { kind },
        ),
        rejected is Ok && kind == SnapshotKind::TensorlakeSnapshot ==> match manifest {
            Ok(_) => restored is Ok,
            Err(cause) => restored == Err::<Step, _>(BackendError::UnreadableManifest { cause }),
        },
{
}

/// The body asks for what a request and a backend say: the configured resources
/// if there are any, the idle time in whole seconds and at least one, and the
/// network exactly if it is enabled.
pub open spec fn suits(
    backend: TensorlakeSandboxBackend,
    request: SandboxRequest,
    body: CreateSandboxBody,
) -> bool {
    &&& body.resources is None <==> backend.cpus is None && backend.memory_mb is None
    &&& body.resources matches Some(resources) ==> resources.cpus == backend.cpus
        && resources.memory_mb == backend.memory_mb
    &&& body.timeout_secs is Some <==> request.lifecycle.idle_ttl is Some
    &&& body.timeout_secs matches Some(secs) ==> {
        let ttl = request.lifecycle.idle_ttl->0;
        &&& secs >= 1
        &&& secs >= ttl.secs
        &&& secs == ttl.secs || (ttl.secs == 0 && secs == 1)
    }
    &&& body.network matches Some(network) && network.allow_internet_access
        == (request.spec.network is Enabled)
}

/// A body asks for what the request and the backend say, under the given name,
/// and boots from an image.
pub proof fn law_a_body_asks_for_what_the_request_says(
    backend: &TensorlakeSandboxBackend,
    request: &SandboxRequest,
    name: Option<&str>,
    body: CreateSandboxBody,
    resources: Option<SandboxResourceOverrides>,
    image: String,
    configured: &str,
)
    requires
        configured@ == backend.default_image@,
        call_ensures(TensorlakeSandboxBackend::create_body, (backend, request, name), body),
        call_ensures(TensorlakeSandboxBackend::resource_overrides, (backend,), resources),
        call_ensures(resolve_image, (&request.spec, configured), image),
    ensures
        suits(*backend, *request, body),
        body.resources == resources,
        body.name is Some <==> name is Some,
        name matches Some(given) ==> body.name matches Some(kept) && kept@ == given@,
        body.image matches Some(chosen) && chosen@ == image@,
        body.snapshot_id is None,
{
}

/// The name that a step looks for, if it looks for one.
pub open spec fn looks_for(step: Step) -> Option<Seq<char>> {
    match step {
        Step::LookUp(look) => Some(look.identifier@),
        _ => None,
    }
}

/// Acquiring looks for the sandbox of the request under the name that it would
/// create it with, and creates one without a name at once. What it would create
/// is what the request and the backend say.
pub proof fn law_acquiring_asks_for_what_the_request_says(
    backend: &TensorlakeSandboxBackend,
    request: &SandboxRequest,
    step: Step,
    name: Option<String>,
    image: String,
    configured: &str,
)
    requires
        configured@ == backend.default_image@,
        call_ensures(TensorlakeSandboxBackend::acquire, (backend, request), Ok(step)),
        call_ensures(sandbox_name_for_request, (request,), name),
        call_ensures(resolve_image, (&request.spec, configured), image),
    ensures
        name is Some <==> request.lifecycle.idle_ttl is Some,
        match name {
            Some(given) => step matches Step::LookUp(look) && look.intent is Acquire
                && look.identifier@ == given@,
            None => step matches Step::Create(create) && create.attempt == 0,
        },
        body_of(step) matches Some(body) && {
            &&& suits(*backend, *request, body)
            &&& same_optional(body.name, name)
            &&& body.image matches Some(chosen) && chosen@ == image@
            &&& body.snapshot_id is None
        },
{
}

/// A restore asks for the same sandbox as an acquire of the same request, under
/// the same name and in everything but what it boots from: the snapshot, and no
/// image.
pub proof fn law_a_restore_asks_for_the_same_sandbox(
    backend: &TensorlakeSandboxBackend,
    request: &SandboxRequest,
    manifest: TensorlakeSnapshotManifest,
    acquired: Step,
    restored: Step,
)
    requires
        call_ensures(TensorlakeSandboxBackend::acquire, (backend, request), Ok(acquired)),
        call_ensures(
            TensorlakeSandboxBackend::acquire_from_snapshot,
            (backend, request, SnapshotKind::TensorlakeSnapshot, Ok(manifest)),
            Ok(restored),
        ),
    ensures
        looks_for(restored) == looks_for(acquired),
        acquired is LookUp <==> restored is LookUp,
        restored matches Step::LookUp(look) ==> look.intent is Restore,
        restored matches Step::Create(create) ==> create.attempt == 0,
        body_of(acquired) matches Some(fresh) && body_of(restored) matches Some(body) && {
            &&& same_optional(body.name, fresh.name)
            &&& body.resources == fresh.resources
            &&& body.timeout_secs == fresh.timeout_secs
            &&& body.network == fresh.network
            &&& suits(*backend, *request, body)
            &&& body.image is None
            &&& body.snapshot_id == Some(manifest.snapshot_id)
            &&& fresh.image is Some
            &&& fresh.snapshot_id is None
        },
{
}

/// Requests that say the same of whom a sandbox belongs to and what it is made
/// of find the same sandbox, whatever their idle times, and from any process.
pub proof fn law_the_same_request_finds_the_same_sandbox(
    request: &SandboxRequest,
    other: &SandboxRequest,
    name: Option<String>,
    other_name: Option<String>,
)
    requires
        same_key(request.key, other.key),
        same_spec(request.spec, other.spec),
        request.lifecycle.idle_ttl is Some,
        other.lifecycle.idle_ttl is Some,
        call_ensures(sandbox_name_for_request, (request,), name),
        call_ensures(sandbox_name_for_request, (other,), other_name),
    ensures
        name is Some && same_optional(name, other_name),
{
    law_name_is_stable(request.key, other.key, request.spec, other.spec);
}

/// Terminating deletes the sandbox that acquiring would look for, by its name,
/// and nothing where acquiring would look for none. It does so whatever else
/// the request asks for.
pub proof fn law_terminating_deletes_by_name(
    backend: &TensorlakeSandboxBackend,
    request: &SandboxRequest,
    name: Option<String>,
    res: Option<(String, ApiRequest)>,
)
    requires
        call_ensures(sandbox_name_for_request, (request,), name),
        call_ensures(TensorlakeSandboxBackend::terminate, (backend, request), res),
    ensures
        res is Some <==> name is Some,
        res matches Some((identifier, sent)) ==> {
            &&& identifier@ == name->0@
            &&& sent.method == Method::Delete
            &&& sent.url@ =~= backend.api_url@ + "/sandboxes/"@ + name->0@
        },
{
}

/// A handle is named after whom its sandbox belongs to, knows the sandbox by the
/// name that it was looked for, and begins where the sandbox was found. An
/// acquired and a restored sandbox differ in nothing but the id of the handle.
pub proof fn law_a_handle_knows_its_sandbox(
    backend: &TensorlakeSandboxBackend,
    request: SandboxRequest,
    target: TensorlakeSandboxTarget,
    name: Option<String>,
    acquired: (TensorlakeSandboxHandle, Session),
    restored: (TensorlakeSandboxHandle, Session),
)
    requires
        call_ensures(sandbox_name_for_request, (&request,), name),
        call_ensures(TensorlakeSandboxBackend::acquired, (backend, request, target), acquired),
        call_ensures(TensorlakeSandboxBackend::restored, (backend, request, target), restored),
    ensures
        match request.key {
            SandboxKey::ConversationSandbox { conversation_id, sandbox_id } => {
                let owner = "conversation:"@ + conversation_id@ + ":"@ + sandbox_id@;
                &&& acquired.0.id@ == "tensorlake:"@ + owner
                &&& restored.0.id@ == "tensorlake-restored:"@ + owner
            },
        },
        same_optional(acquired.0.name, name),
        same_optional(restored.0.name, name),
        acquired.0.request == request && restored.0.request == request,
        acquired.0.backend.api_url@ == backend.api_url@,
        same_optional(acquired.0.backend.sandbox_base_url, backend.sandbox_base_url),
        restored.0.backend == acquired.0.backend,
        acquired.1.live && acquired.1.target == target,
        restored.1.live && restored.1.target == target,
{
}

/// A length of time is what its seconds and nanoseconds add up to.
pub proof fn law_a_length_of_time_adds_up(span: TimeSpan, nanos: u128)
    requires
        call_ensures(TimeSpan::total_nanos, (span,), nanos),
    ensures
        nanos == span.secs * 1_000_000_000 + span.nanos,
{
}

/// A variable has the value that it was set to last, and setting one leaves the
/// others as they were.
pub proof fn law_a_variable_has_its_last_value(
    env: Environment,
    name: String,
    value: String,
    res: Environment,
    fresh: Environment,
)
    requires
        call_ensures(Environment::new, (), fresh),
        call_ensures(Environment::set, (env, name, value), res),
    ensures
        fresh@.dom() =~= Set::empty(),
        res@.dom().contains(name@) && res@[name@] == value@,
        forall|other: Seq<char>|
            other != name@ ==> (#[trigger] res@.dom().contains(other) <==> env@.dom().contains(other)),
        forall|other: Seq<char>|
            other != name@ && env@.dom().contains(other) ==> #[trigger] res@[other] == env@[other],
{
}

/// The pairs of an environment are its variables, each once.
pub proof fn law_pairs_are_the_variables(env: &Environment, pairs: &Vec<(String, String)>)
    requires
        call_ensures(Environment::pairs, (env,), pairs),
    ensures
        forall|i: int|
            0 <= i < pairs@.len() ==> env@.dom().contains((#[trigger] pairs@[i]).0@)
                && env@[pairs@[i].0@] == pairs@[i].1@,
        forall|name: Seq<char>|
            #[trigger] env@.dom().contains(name) ==> exists|i: int|
                0 <= i < pairs@.len() && (#[trigger] pairs@[i]).0@ == name,
{
    lemma_pairs(pairs@);
}

proof fn lemma_pairs(pairs: Seq<(String, String)>)
    requires
        crate::sandbox::names_once(pairs),
    ensures
        ({
            let map = crate::sandbox::as_map(pairs);
            &&& forall|i: int|
                0 <= i < pairs.len() ==> map.dom().contains((#[trigger] pairs[i]).0@)
                    && map[pairs[i].0@] == pairs[i].1@
            &&& forall|name: Seq<char>|
                #[trigger] map.dom().contains(name) ==> exists|i: int|
                    0 <= i < pairs.len() && (#[trigger] pairs[i]).0@ == name
        }),
    decreases pairs.len(),
{
    if pairs.len() > 0 {
        let init = pairs.drop_last();
        let map = crate::sandbox::as_map(pairs);
        let before = crate::sandbox::as_map(init);
        lemma_pairs(init);
        assert forall|i: int| 0 <= i < pairs.len() implies map.dom().contains(
            (#[trigger] pairs[i]).0@,
        ) && map[pairs[i].0@] == pairs[i].1@ by {
            if i < init.len() {
                assert(init[i] == pairs[i]);
                assert(pairs[i].0@ != pairs[pairs.len() - 1].0@);
            }
        }
        assert forall|name: Seq<char>| #[trigger] map.dom().contains(name) implies exists|i: int|
            0 <= i < pairs.len() && (#[trigger] pairs[i]).0@ == name by {
            if name == pairs.last().0@ {
                assert(pairs[pairs.len() - 1].0@ == name);
            } else {
                assert(before.dom().contains(name));
                let i = choose|i: int| 0 <= i < init.len() && (#[trigger] init[i]).0@ == name;
                assert(pairs[i].0@ == name);
            }
        }
    }
}

} // verus!
