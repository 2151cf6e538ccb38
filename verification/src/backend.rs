//! The backend: which sandbox a request gets, and how it is asked for.
use reqwest::header::{HeaderValue, InvalidHeaderValue};
use vstd::prelude::*;
use vstd::utf8::encode_utf8;

use crate::api::{
    CpuCores, CreateSandboxBody, SandboxNetworkAccessControl, SandboxResourceOverrides,
    TensorlakeSnapshotManifest,
};
use crate::error::{optional, BackendError};
use crate::handle::{Session, TensorlakeSandboxHandle};
use crate::http::{ApiRequest, Method};
use crate::lifecycle::{
    Create, Intent, LookUp, Step, TensorlakeBackendHandle, TensorlakeSandboxTarget,
};
use crate::naming::{sandbox_name, sandbox_name_for_request};
use crate::sandbox::{SandboxNetworkPolicy, SandboxRequest, SandboxSpec, SnapshotKind};
use crate::text::{concat_text, trim_end_text, trim_text, trimmed, trimmed_end, CharClass};

verus! {

pub const DEFAULT_TENSORLAKE_API_URL: &'static str = "https://api.tensorlake.ai";

pub const DEFAULT_TENSORLAKE_IMAGE: &'static str = "tensorlake/ubuntu-minimal";

/// The image of a sandbox for which nobody asks for one.
pub fn default_tensorlake_image() -> (image: String)
    ensures
        image@ == DEFAULT_TENSORLAKE_IMAGE@,
{
    DEFAULT_TENSORLAKE_IMAGE.to_string()
}

/// The error of `HeaderValue::from_str`. It is only passed on.
#[verifier::external_type_specification]
#[verifier::external_body]
pub struct ExInvalidHeaderValue(InvalidHeaderValue);

/// Whether a byte can stand in the value of an HTTP header.
pub open spec fn is_header_byte(byte: u8) -> bool {
    (byte >= 32 && byte != 127) || byte == 9
}

pub open spec fn is_header_text(text: Seq<char>) -> bool {
    forall|i: int|
        0 <= i < encode_utf8(text).len() ==> is_header_byte(#[trigger] encode_utf8(text)[i])
}

/// Calls `HeaderValue::from_str` and hands out the bytes of the value. Control
/// bytes, apart from the tab, are refused; all other text is kept as it is.
#[verifier::external_body]
fn header_value(text: &str) -> (res: Result<Vec<u8>, InvalidHeaderValue>)
    ensures
        match res {
            Ok(bytes) => is_header_text(text@) && bytes@ == encode_utf8(text@),
            Err(_) => !is_header_text(text@),
        },
{
    match HeaderValue::from_str(text) {
        Ok(value) => Ok(value.as_bytes().to_vec()),
        Err(error) => Err(error),
    }
}

/// Shows an `InvalidHeaderValue` with `Display`, which says the same of every
/// one.
#[verifier::external_body]
fn show_invalid_header(error: &InvalidHeaderValue) -> (text: String)
    ensures
        text@ == "failed to parse header value"@,
{
    error.to_string()
}

/// What a backend is made from.
#[derive(Debug)]
pub struct TensorlakeConfig {
    pub api_key: String,
    pub api_url: String,
    /// The image of sandboxes whose spec does not ask for one.
    pub default_image: String,
    /// CPU cores per sandbox, where not the default of the platform.
    pub cpus: Option<CpuCores>,
    /// Memory per sandbox in MiB, where not the default of the platform.
    pub memory_mb: Option<u64>,
    /// Where commands go in place of the URL that the platform reports.
    pub sandbox_base_url: Option<String>,
}

/// The backend, as configured.
pub struct TensorlakeSandboxBackend {
    /// The value of the authorization header of every request.
    pub authorization: Vec<u8>,
    pub api_url: String,
    pub default_image: String,
    pub cpus: Option<CpuCores>,
    pub memory_mb: Option<u64>,
    pub sandbox_base_url: Option<String>,
}

/// The image that a sandbox boots from: that of the spec, else the configured
/// one, else the built-in one. An image of white space counts as none.
pub open spec fn resolved_image(wanted: Seq<char>, configured: Seq<char>) -> Seq<char> {
    if trimmed(wanted).len() != 0 {
        wanted
    } else if trimmed(configured).len() != 0 {
        configured
    } else {
        DEFAULT_TENSORLAKE_IMAGE@
    }
}

pub fn resolve_image(spec: &SandboxSpec, default_image: &str) -> (image: String)
    ensures
        image@ == resolved_image(spec.image@, default_image@),
{
    if !trim_text(spec.image.as_str()).as_str().is_empty() {
        return spec.image.clone();
    }
    if !trim_text(default_image).as_str().is_empty() {
        return default_image.to_string();
    }
    default_tensorlake_image()
}

/// What a request asks for that the platform cannot do.
pub open spec fn unsupported(request: SandboxRequest) -> Option<BackendError> {
    if request.spec.mounts@.len() != 0 {
        Some(BackendError::UnsupportedMounts)
    } else if request.spec.durable_file_systems@.len() != 0 {
        Some(BackendError::UnsupportedDurableFileSystems)
    } else {
        None
    }
}

pub fn reject_unsupported_mounts(request: &SandboxRequest) -> (res: Result<(), BackendError>)
    ensures
        match unsupported(*request) {
            Some(error) => res == Err::<(), _>(error),
            None => res is Ok,
        },
{
    if request.spec.mounts.len() != 0 {
        return Err(BackendError::UnsupportedMounts);
    }
    if request.spec.durable_file_systems.len() != 0 {
        return Err(BackendError::UnsupportedDurableFileSystems);
    }
    Ok(())
}

/// The idle timeout that the platform is told: whole seconds, at least one.
pub open spec fn idle_timeout(request: SandboxRequest) -> Option<u64> {
    match request.lifecycle.idle_ttl {
        Some(ttl) => Some(
            if ttl.secs >= 1 {
                ttl.secs
            } else {
                1
            },
        ),
        None => None,
    }
}

/// The name of the sandbox that a request resumes.
pub open spec fn requested_name(request: SandboxRequest) -> Option<Seq<char>> {
    match request.lifecycle.idle_ttl {
        Some(_) => Some(sandbox_name(request.key, request.spec)),
        None => None,
    }
}

impl TensorlakeSandboxBackend {
    /// A backend for a configuration. The key must be fit for an HTTP header;
    /// trailing slashes of the URLs are dropped.
    pub fn new(config: TensorlakeConfig) -> (res: Result<Self, BackendError>)
        ensures
            match res {
                Ok(backend) => {
                    &&& is_header_text("Bearer "@ + config.api_key@)
                    &&& backend.authorization@ == encode_utf8("Bearer "@ + config.api_key@)
                    &&& backend.api_url@ == trimmed_end(config.api_url@, CharClass::Slash)
                    &&& backend.default_image == config.default_image
                    &&& backend.cpus == config.cpus
                    &&& backend.memory_mb == config.memory_mb
                    &&& optional(backend.sandbox_base_url) == (match config.sandbox_base_url {
                        Some(url) => Some(trimmed_end(url@, CharClass::Slash)),
                        None => None,
                    })
                },
                Err(error) => {
                    &&& !is_header_text("Bearer "@ + config.api_key@)
                    &&& error matches BackendError::InvalidApiKey { cause } && cause@
                        == "failed to parse header value"@
                },
            },
    {
        let credential = concat_text("Bearer ", config.api_key.as_str());
        let authorization = match header_value(credential.as_str()) {
            Ok(bytes) => bytes,
            Err(error) => {
                return Err(BackendError::InvalidApiKey { cause: show_invalid_header(&error) });
            },
        };
        Ok(
            TensorlakeSandboxBackend {
                authorization,
                api_url: trim_end_text(config.api_url.as_str(), CharClass::Slash),
                default_image: config.default_image,
                cpus: config.cpus,
                memory_mb: config.memory_mb,
                sandbox_base_url: match &config.sandbox_base_url {
                    Some(url) => Some(trim_end_text(url.as_str(), CharClass::Slash)),
                    None => None,
                },
            },
        )
    }

    pub open spec fn handle(self) -> TensorlakeBackendHandle {
        TensorlakeBackendHandle { api_url: self.api_url, sandbox_base_url: self.sandbox_base_url }
    }

    /// Where this backend reaches the platform.
    pub fn handle_backend(&self) -> (handle: TensorlakeBackendHandle)
        ensures
            handle == self.handle(),
    {
        TensorlakeBackendHandle {
            api_url: self.api_url.clone(),
            sandbox_base_url: match &self.sandbox_base_url {
                Some(url) => Some(url.clone()),
                None => None,
            },
        }
    }

    /// The configured resources, where any are.
    pub open spec fn overrides(self) -> Option<SandboxResourceOverrides> {
        if self.cpus is None && self.memory_mb is None {
            None
        } else {
            Some(SandboxResourceOverrides { cpus: self.cpus, memory_mb: self.memory_mb })
        }
    }

    pub fn resource_overrides(&self) -> (resources: Option<SandboxResourceOverrides>)
        ensures
            resources == self.overrides(),
    {
        if self.cpus.is_some() || self.memory_mb.is_some() {
            Some(SandboxResourceOverrides { cpus: self.cpus, memory_mb: self.memory_mb })
        } else {
            None
        }
    }

    /// `body` asks for a fresh sandbox for `request`.
    pub open spec fn describes(
        self,
        request: SandboxRequest,
        name: Option<Seq<char>>,
        body: CreateSandboxBody,
    ) -> bool {
        &&& optional(body.name) == name
        &&& optional(body.image) == Some(resolved_image(request.spec.image@, self.default_image@))
        &&& body.snapshot_id is None
        &&& body.resources == self.overrides()
        &&& body.timeout_secs == idle_timeout(request)
        &&& body.network == Some(
            SandboxNetworkAccessControl {
                allow_internet_access: request.spec.network == SandboxNetworkPolicy::Enabled,
            },
        )
    }

    /// Describes a new sandbox. A named one suspends when it has been idle for
    /// its time, and resumes when it is acquired again.
    pub fn create_body(&self, request: &SandboxRequest, name: Option<&str>) -> (body:
        CreateSandboxBody)
        ensures
            self.describes(
                *request,
                match name {
                    Some(name) => Some(name@),
                    None => None,
                },
                body,
            ),
    {
        CreateSandboxBody {
            name: match name {
                Some(name) => Some(name.to_string()),
                None => None,
            },
            image: Some(resolve_image(&request.spec, self.default_image.as_str())),
            snapshot_id: None,
            resources: self.resource_overrides(),
            timeout_secs: match request.lifecycle.idle_ttl {
                Some(ttl) => if ttl.secs >= 1 {
                    Some(ttl.secs)
                } else {
                    Some(1)
                },
                None => None,
            },
            network: Some(
                SandboxNetworkAccessControl {
                    allow_internet_access: request.spec.network == SandboxNetworkPolicy::Enabled,
                },
            ),
        }
    }

    /// `step` begins to acquire the sandbox for `request`: one with a name is
    /// looked up first, one without is created at once.
    pub open spec fn begins(self, request: SandboxRequest, step: Step) -> bool {
        match (requested_name(request), step) {
            (Some(name), Step::LookUp(LookUp { identifier, intent: Intent::Acquire { body } })) => {
                identifier@ == name && self.describes(request, Some(name), body)
            },
            (None, Step::Create(Create { attempt, body })) => attempt == 0 && self.describes(
                request,
                None,
                body,
            ),
            _ => false,
        }
    }

    /// Begins to acquire the sandbox for a request.
    pub fn acquire(&self, request: &SandboxRequest) -> (res: Result<Step, BackendError>)
        ensures
            match unsupported(*request) {
                Some(error) => res == Err::<Step, _>(error),
                None => res matches Ok(step) && self.begins(*request, step),
            },
    {
        if let Err(error) = reject_unsupported_mounts(request) {
            return Err(error);
        }
        match sandbox_name_for_request(request) {
            Some(name) => {
                let body = self.create_body(request, Some(name.as_str()));
                Ok(Step::LookUp(LookUp { identifier: name, intent: Intent::Acquire { body } }))
            },
            None => Ok(TensorlakeBackendHandle::create_and_wait(self.create_body(request, None))),
        }
    }

    /// `body` asks for a sandbox for `request` that boots from a snapshot.
    pub open spec fn restores(
        self,
        request: SandboxRequest,
        name: Option<Seq<char>>,
        snapshot_id: String,
        body: CreateSandboxBody,
    ) -> bool {
        &&& optional(body.name) == name
        &&& body.image is None
        &&& body.snapshot_id == Some(snapshot_id)
        &&& body.resources == self.overrides()
        &&& body.timeout_secs == idle_timeout(request)
        &&& body.network == Some(
            SandboxNetworkAccessControl {
                allow_internet_access: request.spec.network == SandboxNetworkPolicy::Enabled,
            },
        )
    }

    /// `step` begins to restore the sandbox for `request` from a snapshot.
    pub open spec fn begins_restore(
        self,
        request: SandboxRequest,
        snapshot_id: String,
        step: Step,
    ) -> bool {
        match (requested_name(request), step) {
            (Some(name), Step::LookUp(LookUp { identifier, intent: Intent::Restore { body } })) => {
                identifier@ == name && self.restores(request, Some(name), snapshot_id, body)
            },
            (None, Step::Create(Create { attempt, body })) => attempt == 0 && self.restores(
                request,
                None,
                snapshot_id,
                body,
            ),
            _ => false,
        }
    }

    /// Begins to restore the sandbox for a request. A sandbox that already
    /// holds the name makes room first, as the new one must boot from the
    /// snapshot.
    pub fn acquire_from_snapshot(
        &self,
        request: &SandboxRequest,
        kind: SnapshotKind,
        manifest: Result<TensorlakeSnapshotManifest, String>,
    ) -> (res: Result<Step, BackendError>)
        ensures
            match (unsupported(*request), kind, manifest) {
                (Some(error), _, _) => res == Err::<Step, _>(error),
                (None, SnapshotKind::TensorlakeSnapshot, Ok(manifest)) => res matches Ok(step)
                    && self.begins_restore(*request, manifest.snapshot_id, step),
                (None, SnapshotKind::TensorlakeSnapshot, Err(cause)) => res == Err::<Step, _>(
                    BackendError::UnreadableManifest { cause },
                ),
                (None, kind, _) => res == Err::<Step, _>(BackendError::ForeignSnapshot { kind }),
            },
    {
        if let Err(error) = reject_unsupported_mounts(request) {
            return Err(error);
        }
        if kind != SnapshotKind::TensorlakeSnapshot {
            return Err(BackendError::ForeignSnapshot { kind });
        }
        let manifest = match manifest {
            Ok(manifest) => manifest,
            Err(cause) => {
                return Err(BackendError::UnreadableManifest { cause });
            },
        };
        match sandbox_name_for_request(request) {
            Some(name) => {
                let mut body = self.create_body(request, Some(name.as_str()));
                body.image = None;
                body.snapshot_id = Some(manifest.snapshot_id);
                Ok(Step::LookUp(LookUp { identifier: name, intent: Intent::Restore { body } }))
            },
            None => {
                let mut body = self.create_body(request, None);
                body.image = None;
                body.snapshot_id = Some(manifest.snapshot_id);
                Ok(TensorlakeBackendHandle::create_and_wait(body))
            },
        }
    }

    /// The handle of a sandbox that was acquired, and its session.
    pub fn acquired(&self, request: SandboxRequest, target: TensorlakeSandboxTarget) -> (res: (
        TensorlakeSandboxHandle,
        Session,
    ))
        ensures
            res.0.id@ == "tensorlake:"@ + request.key.text(),
            optional(res.0.name) == requested_name(request),
            res.0.request == request,
            res.0.backend == self.handle(),
            res.1 == (Session { target, live: true }),
    {
        let id = concat_text("tensorlake:", request.key.to_text().as_str());
        let name = sandbox_name_for_request(&request);
        TensorlakeSandboxHandle::new(id, name, target, request, self.handle_backend())
    }

    /// The handle of a sandbox that was restored, and its session.
    pub fn restored(&self, request: SandboxRequest, target: TensorlakeSandboxTarget) -> (res: (
        TensorlakeSandboxHandle,
        Session,
    ))
        ensures
            res.0.id@ == "tensorlake-restored:"@ + request.key.text(),
            optional(res.0.name) == requested_name(request),
            res.0.request == request,
            res.0.backend == self.handle(),
            res.1 == (Session { target, live: true }),
    {
        let id = concat_text("tensorlake-restored:", request.key.to_text().as_str());
        let name = sandbox_name_for_request(&request);
        TensorlakeSandboxHandle::new(id, name, target, request, self.handle_backend())
    }

    /// Deletes the sandbox that a request resumes, by its name: a suspended
    /// sandbox still answers to it. Nothing is sent for a request whose sandbox
    /// has none, as only its handle knows that sandbox. The name comes back
    /// along with the request.
    pub fn terminate(&self, request: &SandboxRequest) -> (res: Option<(String, ApiRequest)>)
        ensures
            match (requested_name(*request), res) {
                (Some(name), Some((identifier, sent))) => identifier@ == name && sent.is(
                    Method::Delete,
                    self.handle().sandbox_endpoint(name),
                ),
                (None, None) => true,
                _ => false,
            },
    {
        match sandbox_name_for_request(request) {
            Some(name) => {
                let sent = self.handle_backend().delete_sandbox(name.as_str());
                Some((name, sent))
            },
            None => None,
        }
    }
}

} // verus!
