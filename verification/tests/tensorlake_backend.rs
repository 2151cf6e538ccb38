//! The backend against a platform that answers from a table. The same table
//! stands in for the platform API (`/sandboxes/...`) and for the API of a
//! sandbox (`/api/v1/...`).

use std::collections::hash_map::DefaultHasher;
use std::hash::{Hash, Hasher};

use serde_json::Value;
use tensorlake_sandbox::api::{
    CpuCores, CreateSandboxBody, CreateSandboxResponse, ProcessInfo, ProcessOutputEvent,
    ProcessOutputStream, ProcessStatus, RunProcessBody, RunProcessEvent, SandboxInfo,
    SandboxStatus, SnapshotSandboxResponse, StartProcessBody, TensorlakeSnapshotManifest,
};
use tensorlake_sandbox::backend::{TensorlakeConfig, TensorlakeSandboxBackend};
use tensorlake_sandbox::error::BackendError;
use tensorlake_sandbox::handle::{
    with_proxy_retry, Placement, ProxyCallError, Session, TensorlakeSandboxHandle, Verdict,
};
use tensorlake_sandbox::http::{ApiRequest, HttpStatus, Method, Reply, ReplyBody};
use tensorlake_sandbox::lifecycle::{Step, TensorlakeBackendHandle, TensorlakeSandboxTarget};
use tensorlake_sandbox::process::{
    after_exit, follow_opened, follow_output, process_seen, process_started, start_process,
    stdin_closed, stdin_read, stdin_request, stdin_sent, wait_for_process_exit, ExitStep,
    FollowPoll, OutputFollower, StartedProcess, StdinRead, StdinStep, WaitStep,
};
use tensorlake_sandbox::run::{
    run_accepted, run_finished, run_process, RunCollector, RunEnd, RunPoll,
};
use tensorlake_sandbox::sandbox::{
    Environment, SandboxCommand, SandboxCommandOutput, SandboxKey, SandboxLifecycleConfig, SandboxMount,
    SandboxMountAccess, SandboxNetworkPolicy, SandboxRequest, SandboxSpec, SnapshotKind, TimeSpan,
};

const BASE: &str = "http://platform.test";

struct Route {
    method: Method,
    path: String,
    status: u16,
    body: String,
    /// How often the route still answers.
    left: usize,
    expected: Option<usize>,
    hits: usize,
}

/// A platform that answers from a table and keeps a record of what it is asked.
struct Platform {
    routes: Vec<Route>,
    asked: Vec<(Method, String)>,
    millis: u64,
    created: Vec<CreateSandboxBody>,
    run: Vec<RunProcessBody>,
    started: Vec<StartProcessBody>,
    stdin: Vec<u8>,
}

impl Platform {
    fn new() -> Platform {
        Platform {
            routes: Vec::new(),
            asked: Vec::new(),
            millis: 1_000,
            created: Vec::new(),
            run: Vec::new(),
            started: Vec::new(),
            stdin: Vec::new(),
        }
    }

    fn mount(&mut self, method: Method, path: &str, status: u16, body: &str) -> &mut Route {
        self.routes.push(Route {
            method,
            path: path.to_string(),
            status,
            body: body.to_string(),
            left: usize::MAX,
            expected: None,
            hits: 0,
        });
        self.routes.last_mut().unwrap()
    }

    fn mount_running_sandbox(&mut self, identifier: &str, id: &str) {
        let body = sandbox_info_json(id, "running");
        self.mount(Method::Get, &format!("/sandboxes/{identifier}"), 200, &body);
    }

    fn answer(&mut self, request: &ApiRequest) -> (HttpStatus, String) {
        let path = request.url.strip_prefix(BASE).expect("request to the platform").to_string();
        self.asked.push((request.method, path.clone()));
        for route in &mut self.routes {
            if route.method == request.method && route.path == path && route.left > 0 {
                route.left -= 1;
                route.hits += 1;
                return (HttpStatus::new(route.status).unwrap(), route.body.clone());
            }
        }
        (HttpStatus::new(404).unwrap(), String::new())
    }

    fn reply<T>(
        &mut self,
        request: &ApiRequest,
        parse: fn(&str) -> Result<T, String>,
    ) -> Reply<T> {
        let (status, text) = self.answer(request);
        let parsed = parse(&text);
        Reply::Answered { status, body: ReplyBody::Text { text, parsed } }
    }

    fn acknowledgement(&mut self, request: &ApiRequest) -> Reply<()> {
        self.reply(request, |_| Ok(()))
    }

    fn now(&self) -> TimeSpan {
        TimeSpan { secs: self.millis / 1000, nanos: (self.millis % 1000) as u32 * 1_000_000 }
    }

    fn drive(
        &mut self,
        backend: &TensorlakeBackendHandle,
        mut step: Step,
    ) -> Result<TensorlakeSandboxTarget, BackendError> {
        loop {
            if let Some(millis) = step.delay_millis() {
                self.millis += millis;
                step = step.woken();
                continue;
            }
            let request = backend.request(&step);
            let now = self.now();
            step = match step {
                Step::Done(target) => return Ok(target),
                Step::Failed(error) => return Err(error),
                Step::LookUp(look) => {
                    let reply = self.reply(&request.unwrap(), sandbox_info);
                    backend.looked_up(look, reply, now)
                }
                Step::Evict(evict) => {
                    let reply = self.acknowledgement(&request.unwrap());
                    TensorlakeBackendHandle::evicted(evict, reply)
                }
                Step::Create(create) => {
                    self.created.push(copy_body(&create.body));
                    let reply = self.reply(&request.unwrap(), |text| {
                        let value = json(text)?;
                        let sandbox_id = text_field(&value, "sandbox_id")?;
                        Ok(CreateSandboxResponse { sandbox_id })
                    });
                    TensorlakeBackendHandle::created(create, reply, now)
                }
                Step::Resume(resume) => {
                    let reply = self.acknowledgement(&request.unwrap());
                    TensorlakeBackendHandle::resumed(resume, reply, now)
                }
                Step::Poll(poll) => {
                    let reply = self.reply(&request.unwrap(), sandbox_info);
                    backend.polled(poll, reply, now)
                }
                Step::PollResume(resume) => {
                    let reply = self.acknowledgement(&request.unwrap());
                    TensorlakeBackendHandle::poll_resumed(resume, reply, now)
                }
                Step::Backoff(_) | Step::Pause(_) => unreachable!(),
            };
        }
    }

    fn acquire(
        &mut self,
        backend: &TensorlakeSandboxBackend,
        request: SandboxRequest,
    ) -> Result<(TensorlakeSandboxHandle, Session), BackendError> {
        let step = backend.acquire(&request)?;
        let target = self.drive(&backend.handle_backend(), step)?;
        Ok(backend.acquired(request, target))
    }

    fn acquire_from_snapshot(
        &mut self,
        backend: &TensorlakeSandboxBackend,
        request: SandboxRequest,
        kind: SnapshotKind,
        bytes: &[u8],
    ) -> Result<(TensorlakeSandboxHandle, Session), BackendError> {
        let step = backend.acquire_from_snapshot(&request, kind, manifest(bytes))?;
        let target = self.drive(&backend.handle_backend(), step)?;
        Ok(backend.restored(request, target))
    }

    fn terminate(
        &mut self,
        backend: &TensorlakeSandboxBackend,
        request: &SandboxRequest,
    ) -> Result<(), BackendError> {
        match backend.terminate(request) {
            None => Ok(()),
            Some((name, sent)) => {
                let reply = self.acknowledgement(&sent);
                TensorlakeBackendHandle::sandbox_deleted(name, reply)
            }
        }
    }

    fn stop(
        &mut self,
        handle: &TensorlakeSandboxHandle,
        session: &Session,
    ) -> Result<(), BackendError> {
        let reply = self.acknowledgement(&handle.stop(&session.target));
        handle.stopped(&session.target, reply)
    }

    fn running_target(
        &mut self,
        handle: &TensorlakeSandboxHandle,
        session: &mut Session,
    ) -> Result<TensorlakeSandboxTarget, BackendError> {
        match handle.running_target(session) {
            Placement::Live(target) => Ok(target),
            Placement::Unknown(step) => {
                let target = self.drive(&handle.backend, step)?;
                session.found_again(target.clone());
                Ok(target)
            }
        }
    }

    fn run_once(
        &mut self,
        base_url: &str,
        cwd: &String,
        command: &SandboxCommand,
    ) -> Result<SandboxCommandOutput, ProxyCallError> {
        let (request, body) = run_process(base_url, cwd, command);
        self.run.push(body);
        let (status, text) = self.answer(&request);
        run_accepted(Reply::Answered {
            status,
            body: ReplyBody::Text { text: text.clone(), parsed: Ok(()) },
        })?;
        let outcome = collect(&text);
        run_finished(command, cwd.clone(), RunEnd::Collected(outcome))
    }

    fn exec(
        &mut self,
        handle: &TensorlakeSandboxHandle,
        session: &mut Session,
        command: &SandboxCommand,
    ) -> Result<SandboxCommandOutput, BackendError> {
        let mut attempt = handle.exec(command)?;
        loop {
            let target = self.running_target(handle, session)?;
            let result = self.run_once(&target.base_url, &attempt.cwd, command);
            let (verdict, lost) = with_proxy_retry(attempt, result);
            if lost {
                session.mark_unreachable();
            }
            match verdict {
                Verdict::Return(result) => return result,
                Verdict::TryAgain(next) => attempt = next,
            }
        }
    }

    fn start(
        &mut self,
        handle: &TensorlakeSandboxHandle,
        session: &mut Session,
        command: &SandboxCommand,
    ) -> Result<StartedProcess, BackendError> {
        let mut attempt = handle.start_process(command)?;
        loop {
            let target = self.running_target(handle, session)?;
            let (request, body) = start_process(&target.base_url, &attempt.cwd, command);
            self.started.push(body);
            let reply = self.reply(&request, process_info);
            let result = process_started(&target.base_url, reply);
            let (verdict, lost) = with_proxy_retry(attempt, result);
            if lost {
                session.mark_unreachable();
            }
            match verdict {
                Verdict::Return(result) => return result,
                Verdict::TryAgain(next) => attempt = next,
            }
        }
    }

    fn follow(&mut self, url: &str) -> Result<Vec<u8>, BackendError> {
        let request = ApiRequest { method: Method::Get, url: url.to_string() };
        let (status, text) = self.answer(&request);
        follow_opened(
            url.to_string(),
            Reply::Answered {
                status,
                body: ReplyBody::Text { text: text.clone(), parsed: Ok(()) },
            },
        )?;
        let mut follower = OutputFollower::new();
        let mut written = Vec::new();
        follower.push_chunk(text.as_bytes());
        follower.end_of_stream();
        loop {
            match follower.next_event() {
                FollowPoll::Decode(data) => {
                    let payload = output_event(&data);
                    if let Some(bytes) = follow_output(data, payload)? {
                        written.extend(bytes);
                    }
                }
                FollowPoll::NeedMore => panic!("the stream has ended"),
                FollowPoll::End => return Ok(written),
            }
        }
    }

    fn forward_stdin(&mut self, process_url: &str, pieces: Vec<Vec<u8>>) {
        let mut pieces = pieces.into_iter();
        let mut step = StdinStep::Read;
        loop {
            let request = stdin_request(process_url, &step);
            step = match step {
                StdinStep::Read => stdin_read(StdinRead::Bytes {
                    bytes: pieces.next().unwrap_or_default(),
                }),
                StdinStep::Send { bytes } => {
                    let (status, _) = self.answer(&request.unwrap());
                    self.stdin.extend(bytes);
                    stdin_sent(Some(status))
                }
                StdinStep::Close => {
                    self.answer(&request.unwrap());
                    stdin_closed()
                }
                StdinStep::Finished => return,
            };
        }
    }

    fn wait(&mut self, process_url: &str) -> Result<i32, BackendError> {
        loop {
            let request = ApiRequest { method: Method::Get, url: process_url.to_string() };
            let reply = self.reply(&request, process_info);
            match wait_for_process_exit(process_seen(process_url.to_string(), reply)) {
                WaitStep::Wait => self.millis += 250,
                WaitStep::Exited(code) => return Ok(self.drain(code)),
                WaitStep::Failed(error) => return Err(error),
            }
        }
    }

    /// Waits for followers that never finish.
    fn drain(&mut self, code: i32) -> i32 {
        let mut drained = 0;
        loop {
            match after_exit(code, drained) {
                ExitStep::Drain { millis, .. } => self.millis += millis,
                ExitStep::Exited(code) => return code,
            }
            drained += 1;
        }
    }

    fn verify(&self) {
        for route in &self.routes {
            if let Some(expected) = route.expected {
                assert_eq!(route.hits, expected, "{:?} {}", route.method, route.path);
            }
        }
    }
}

fn json(text: &str) -> Result<Value, String> {
    serde_json::from_str(text).map_err(|error| error.to_string())
}

fn text_field(value: &Value, name: &str) -> Result<String, String> {
    optional_field(value, name).ok_or_else(|| format!("missing field `{name}`"))
}

fn optional_field(value: &Value, name: &str) -> Option<String> {
    value.get(name).and_then(Value::as_str).map(str::to_string)
}

fn number_field(value: &Value, name: &str) -> Option<i32> {
    value.get(name).and_then(Value::as_i64).map(|number| number as i32)
}

fn sandbox_info(text: &str) -> Result<SandboxInfo, String> {
    let value = json(text)?;
    let status = match text_field(&value, "status")?.as_str() {
        "pending" => SandboxStatus::Pending,
        "running" => SandboxStatus::Running,
        "snapshotting" => SandboxStatus::Snapshotting,
        "suspending" => SandboxStatus::Suspending,
        "suspended" => SandboxStatus::Suspended,
        "terminated" => SandboxStatus::Terminated,
        other => return Err(format!("unknown variant `{other}`")),
    };
    Ok(SandboxInfo {
        id: text_field(&value, "id")?,
        status,
        pending_reason: optional_field(&value, "pending_reason"),
        outcome: optional_field(&value, "outcome"),
        sandbox_url: optional_field(&value, "sandbox_url"),
    })
}

fn process_info(text: &str) -> Result<ProcessInfo, String> {
    let value = json(text)?;
    let status = match text_field(&value, "status")?.as_str() {
        "running" => ProcessStatus::Running,
        "exited" => ProcessStatus::Exited,
        "signaled" => ProcessStatus::Signaled,
        "oom_killed" => ProcessStatus::OomKilled,
        other => return Err(format!("unknown variant `{other}`")),
    };
    Ok(ProcessInfo {
        pid: number_field(&value, "pid").ok_or("missing field `pid`")?,
        status,
        exit_code: number_field(&value, "exit_code"),
        signal: number_field(&value, "signal"),
    })
}

fn run_event(text: &str) -> Result<RunProcessEvent, String> {
    let value = json(text)?;
    Ok(RunProcessEvent {
        started_at: value.get("started_at").and_then(Value::as_i64),
        line: optional_field(&value, "line"),
        stream: match optional_field(&value, "stream").as_deref() {
            Some("stdout") => Some(ProcessOutputStream::Stdout),
            Some("stderr") => Some(ProcessOutputStream::Stderr),
            Some(other) => return Err(format!("unknown variant `{other}`")),
            None => None,
        },
        exit_code: number_field(&value, "exit_code"),
        signal: number_field(&value, "signal"),
    })
}

fn output_event(text: &str) -> Result<ProcessOutputEvent, String> {
    let value = json(text)?;
    Ok(ProcessOutputEvent { line: optional_field(&value, "line") })
}

fn manifest(bytes: &[u8]) -> Result<TensorlakeSnapshotManifest, String> {
    let value: Value = serde_json::from_slice(bytes).map_err(|error| error.to_string())?;
    Ok(TensorlakeSnapshotManifest {
        snapshot_id: text_field(&value, "snapshot_id")?,
        sandbox_name: optional_field(&value, "sandbox_name"),
    })
}

fn collect(stream: &str) -> Result<tensorlake_sandbox::run::RunOutcome, BackendError> {
    let mut collector = RunCollector::new();
    // A chunk boundary can fall anywhere.
    for chunk in stream.as_bytes().chunks(7) {
        collector.push_chunk(chunk);
        while let RunPoll::Decode(data) = collector.next_event() {
            let payload = run_event(&data);
            collector.take_event(data, payload)?;
        }
    }
    collector.end_of_stream();
    loop {
        match collector.next_event() {
            RunPoll::Decode(data) => {
                let payload = run_event(&data);
                collector.take_event(data, payload)?;
            }
            RunPoll::NeedMore => panic!("the stream has ended"),
            RunPoll::End => return collector.finish(),
        }
    }
}

fn copy_body(body: &CreateSandboxBody) -> CreateSandboxBody {
    CreateSandboxBody {
        name: body.name.clone(),
        image: body.image.clone(),
        snapshot_id: body.snapshot_id.clone(),
        resources: body.resources,
        timeout_secs: body.timeout_secs,
        network: body.network,
    }
}

fn make_request(conversation_id: &str, sandbox_id: &str) -> SandboxRequest {
    SandboxRequest {
        key: SandboxKey::ConversationSandbox {
            conversation_id: conversation_id.into(),
            sandbox_id: sandbox_id.into(),
        },
        spec: SandboxSpec {
            image: "tensorlake/ubuntu-minimal".into(),
            mounts: Vec::new(),
            durable_file_systems: Vec::new(),
            network: SandboxNetworkPolicy::Enabled,
            default_workdir: "/workspace".into(),
        },
        lifecycle: SandboxLifecycleConfig { idle_ttl: Some(TimeSpan { secs: 300, nanos: 0 }) },
    }
}

/// A request without an idle time, which gets a sandbox without a name.
fn make_ephemeral_request(conversation_id: &str, sandbox_id: &str) -> SandboxRequest {
    SandboxRequest {
        lifecycle: SandboxLifecycleConfig { idle_ttl: None },
        ..make_request(conversation_id, sandbox_id)
    }
}

fn sandbox_spec_hash(spec: &SandboxSpec) -> String {
    let mut hasher = DefaultHasher::new();
    spec.hash(&mut hasher);
    format!("{:016x}", hasher.finish())
}

fn expected_sandbox_name(request: &SandboxRequest) -> String {
    let mut hasher = DefaultHasher::new();
    request.key.hash(&mut hasher);
    sandbox_spec_hash(&request.spec).hash(&mut hasher);
    format!("exo-{:016x}", hasher.finish())
}

fn config() -> TensorlakeConfig {
    TensorlakeConfig {
        api_key: "test-key".into(),
        api_url: BASE.into(),
        default_image: "tensorlake/ubuntu-minimal".into(),
        cpus: None,
        memory_mb: None,
        sandbox_base_url: Some(BASE.into()),
    }
}

fn backend_with_config(config: TensorlakeConfig) -> TensorlakeSandboxBackend {
    TensorlakeSandboxBackend::new(config).expect("TensorlakeSandboxBackend::new")
}

fn backend_for_mock() -> TensorlakeSandboxBackend {
    backend_with_config(config())
}

fn sandbox_info_json(id: &str, status: &str) -> String {
    format!(
        "{{\"id\":\"{id}\",\"namespace\":\"default\",\"status\":\"{status}\",\
         \"created_at\":1773950042728,\"resources\":{{\"cpus\":1.0,\"memory_mb\":1024}},\
         \"timeout_secs\":300,\"allow_unauthenticated_access\":false,\
         \"ingress_endpoint\":\"{BASE}\",\"sandbox_url\":\"{BASE}\"}}"
    )
}

/// The answer to `POST /sandboxes`; `GET /sandboxes/{id}` follows right after.
fn create_response_json(id: &str) -> String {
    format!("{{\"sandbox_id\":\"{id}\",\"status\":\"pending\"}}")
}

fn sse(frames: &[&str]) -> String {
    frames.iter().map(|frame| format!("data: {frame}\n\n")).collect()
}

fn command(argv: &[&str]) -> SandboxCommand {
    SandboxCommand {
        argv: argv.iter().map(|arg| arg.to_string()).collect(),
        env: Environment::new(),
        display_argv: None,
        cwd: None,
        timeout: None,
    }
}

fn touch_command() -> SandboxCommand {
    command(&["touch", "side-effect"])
}

#[test]
fn acquire_creates_named_sandbox_when_missing() {
    let mut server = Platform::new();
    let backend = backend_for_mock();
    let request = make_request("conv-1", "sandbox-1");
    let name = expected_sandbox_name(&request);

    server.mount(Method::Get, &format!("/sandboxes/{name}"), 404, "").expected = Some(1);
    server.mount(Method::Post, "/sandboxes", 200, &create_response_json("sbx-1")).expected =
        Some(1);
    server.mount_running_sandbox("sbx-1", "sbx-1");

    let (handle, session) = server.acquire(&backend, request).expect("acquire");
    assert_eq!(handle.id, "tensorlake:conversation:conv-1:sandbox-1");
    assert_eq!(session.target.sandbox_id, "sbx-1");
    assert!(session.live);

    let create = server.created.last().unwrap();
    assert_eq!(create.name, Some(name));
    assert_eq!(create.image.as_deref(), Some("tensorlake/ubuntu-minimal"));
    assert_eq!(create.timeout_secs, Some(300));
    assert!(create.network.unwrap().allow_internet_access);
    assert!(create.resources.is_none());
    server.verify();
}

#[test]
fn acquire_reuses_running_named_sandbox() {
    let mut server = Platform::new();
    let backend = backend_for_mock();
    let request = make_request("conv-warm", "sandbox-warm");
    let name = expected_sandbox_name(&request);

    server.mount_running_sandbox(&name, "sbx-warm");
    server.mount(Method::Post, "/sandboxes", 200, &create_response_json("sbx-new")).expected =
        Some(0);

    let (_, session) = server.acquire(&backend, request).expect("acquire");
    assert_eq!(session.target.sandbox_id, "sbx-warm");
    assert_eq!(server.asked.len(), 1);
    server.verify();
}

#[test]
fn acquire_resumes_suspended_named_sandbox() {
    let mut server = Platform::new();
    let backend = backend_for_mock();
    let request = make_request("conv-suspended", "sandbox-suspended");
    let name = expected_sandbox_name(&request);

    // The look by name reports suspended; the look by id after the resume, running.
    let suspended = sandbox_info_json("sbx-suspended", "suspended");
    server.mount(Method::Get, &format!("/sandboxes/{name}"), 200, &suspended);
    server.mount(Method::Post, "/sandboxes/sbx-suspended/resume", 202, "").expected = Some(1);
    server.mount_running_sandbox("sbx-suspended", "sbx-suspended");
    server.mount(Method::Post, "/sandboxes", 200, &create_response_json("sbx-new")).expected =
        Some(0);

    server.acquire(&backend, request).expect("acquire");
    server.verify();
}

#[test]
fn acquire_without_idle_ttl_creates_unnamed_sandbox() {
    let mut server = Platform::new();
    let backend = backend_for_mock();
    let request = make_ephemeral_request("conv-ephemeral", "sandbox-ephemeral");

    server.mount(Method::Post, "/sandboxes", 200, &create_response_json("sbx-eph")).expected =
        Some(1);
    server.mount_running_sandbox("sbx-eph", "sbx-eph");

    let (handle, _) = server.acquire(&backend, request).expect("acquire");
    assert!(handle.name.is_none());

    let create = server.created.last().unwrap();
    assert!(create.name.is_none(), "ephemeral create sent a name");
    assert!(create.timeout_secs.is_none(), "ephemeral create pinned a timeout");
    server.verify();
}

#[test]
fn acquire_disables_internet_access_for_a_disabled_network_policy() {
    let mut server = Platform::new();
    let backend = backend_for_mock();
    let mut request = make_request("conv-net", "sandbox-net");
    request.spec.network = SandboxNetworkPolicy::Disabled;
    let name = expected_sandbox_name(&request);

    server.mount(Method::Get, &format!("/sandboxes/{name}"), 404, "");
    server.mount(Method::Post, "/sandboxes", 200, &create_response_json("sbx-net"));
    server.mount_running_sandbox("sbx-net", "sbx-net");

    server.acquire(&backend, request).expect("acquire");
    let create = server.created.last().unwrap();
    assert!(!create.network.unwrap().allow_internet_access);
}

#[test]
fn acquire_forwards_configured_resource_overrides() {
    let mut server = Platform::new();
    let backend = backend_with_config(TensorlakeConfig {
        cpus: Some(CpuCores { bits: 4.0f64.to_bits() }),
        memory_mb: Some(8192),
        ..config()
    });
    let request = make_request("conv-res", "sandbox-res");
    let name = expected_sandbox_name(&request);

    server.mount(Method::Get, &format!("/sandboxes/{name}"), 404, "");
    server.mount(Method::Post, "/sandboxes", 200, &create_response_json("sbx-res"));
    server.mount_running_sandbox("sbx-res", "sbx-res");

    server.acquire(&backend, request).expect("acquire");
    let resources = server.created.last().unwrap().resources.expect("resources");
    assert_eq!(f64::from_bits(resources.cpus.unwrap().bits), 4.0);
    assert_eq!(resources.memory_mb, Some(8192));
}

#[test]
fn exec_collects_run_process_sse_output() {
    let mut server = Platform::new();
    let backend = backend_for_mock();
    let request = make_request("conv-exec", "sandbox-exec");
    let name = expected_sandbox_name(&request);
    server.mount_running_sandbox(&name, "sbx-exec");

    let stream = sse(&[
        "{\"handle\":1,\"pid\":42,\"started_at\":1710000000000}",
        "{\"line\":\"hello\",\"timestamp\":1,\"stream\":\"stdout\"}",
        "{\"line\":\"world\",\"timestamp\":2,\"stream\":\"stdout\"}",
        "{\"line\":\"oops\",\"timestamp\":3,\"stream\":\"stderr\"}",
        "{\"exit_code\":0}",
    ]);
    server.mount(Method::Post, "/api/v1/processes/run", 200, &stream).expected = Some(1);

    let (handle, mut session) = server.acquire(&backend, request).expect("acquire");
    let mut echo = command(&["echo", "hello"]);
    echo.env = Environment::new().set("MODE".to_string(), "prod".to_string());
    let output = server.exec(&handle, &mut session, &echo).expect("exec");

    assert!(output.ok);
    assert_eq!(output.exit_code, Some(0));
    assert_eq!(output.stdout, "hello\nworld\n");
    assert_eq!(output.stderr, "oops\n");
    assert_eq!(output.cwd, "/workspace");
    assert_eq!(output.command, vec!["echo".to_string(), "hello".to_string()]);

    let run = server.run.last().unwrap();
    assert_eq!(run.command, "echo");
    assert_eq!(run.args, vec!["hello".to_string()]);
    assert_eq!(run.working_dir.as_deref(), Some("/workspace"));
    assert_eq!(run.env.pairs(), &vec![("MODE".to_string(), "prod".to_string())]);
    server.verify();
}

#[test]
fn exec_reports_a_non_zero_exit_code() {
    let mut server = Platform::new();
    let backend = backend_for_mock();
    let request = make_request("conv-fail", "sandbox-fail");
    let name = expected_sandbox_name(&request);
    server.mount_running_sandbox(&name, "sbx-fail");

    let stream = sse(&[
        "{\"line\":\"boom\",\"timestamp\":1,\"stream\":\"stderr\"}",
        "{\"exit_code\":3}",
    ]);
    server.mount(Method::Post, "/api/v1/processes/run", 200, &stream);

    let (handle, mut session) = server.acquire(&backend, request).expect("acquire");
    let output = server.exec(&handle, &mut session, &command(&["false"])).expect("exec");

    assert!(!output.ok);
    assert_eq!(output.exit_code, Some(3));
    assert_eq!(output.stderr, "boom\n");
}

#[test]
fn exec_maps_a_signalled_process_to_a_shell_style_exit_code() {
    let mut server = Platform::new();
    let backend = backend_for_mock();
    let request = make_request("conv-signal", "sandbox-signal");
    let name = expected_sandbox_name(&request);
    server.mount_running_sandbox(&name, "sbx-signal");

    let stream = sse(&["{\"exit_code\":null,\"signal\":9}"]);
    server.mount(Method::Post, "/api/v1/processes/run", 200, &stream);

    let (handle, mut session) = server.acquire(&backend, request).expect("acquire");
    let sleep = command(&["sleep", "100"]);
    let output = server.exec(&handle, &mut session, &sleep).expect("exec");

    assert!(!output.ok);
    assert_eq!(output.exit_code, Some(137));
}

#[test]
fn start_process_bridges_stdin_output_and_exit() {
    let mut server = Platform::new();
    let backend = backend_for_mock();
    let request = make_request("conv-stream", "sandbox-stream");
    let name = expected_sandbox_name(&request);
    server.mount_running_sandbox(&name, "sbx-stream");

    server
        .mount(
            Method::Post,
            "/api/v1/processes",
            201,
            "{\"handle\":1,\"pid\":77,\"status\":\"running\",\"stdin_writable\":true,\
             \"command\":\"cat\",\"args\":[],\"started_at\":1}",
        )
        .expected = Some(1);
    server
        .mount(
            Method::Get,
            "/api/v1/processes/77/stdout/follow",
            200,
            "event: output\ndata: {\"line\":\"streamed\",\"timestamp\":1}\n\n\
             event: eof\ndata: {}\n\n",
        )
        .expected = Some(1);
    server
        .mount(
            Method::Get,
            "/api/v1/processes/77/stderr/follow",
            200,
            "event: eof\ndata: {}\n\n",
        )
        .expected = Some(1);
    server.mount(Method::Post, "/api/v1/processes/77/stdin", 204, "").expected = Some(1);
    server.mount(Method::Post, "/api/v1/processes/77/stdin/close", 204, "").expected = Some(1);
    server.mount(
        Method::Get,
        "/api/v1/processes/77",
        200,
        "{\"handle\":1,\"pid\":77,\"status\":\"exited\",\"exit_code\":0,\
         \"stdin_writable\":false,\"command\":\"cat\",\"args\":[],\"started_at\":1,\
         \"ended_at\":2}",
    );

    let (handle, mut session) = server.acquire(&backend, request).expect("acquire");
    let started =
        server.start(&handle, &mut session, &command(&["cat"])).expect("start_process");
    let body = server.started.last().unwrap();
    assert_eq!(body.command, "cat");
    assert!(body.args.is_empty());
    assert_eq!(body.working_dir.as_deref(), Some("/workspace"));
    assert_eq!(body.stdin_mode, "pipe");
    assert_eq!(body.stdout_mode, "capture");
    assert_eq!(body.stderr_mode, "capture");

    server.forward_stdin(&started.process_url, vec![b"ping\n".to_vec()]);
    assert_eq!(server.stdin, b"ping\n");

    let stdout = server.follow(&started.stdout_url).expect("read stdout");
    assert_eq!(String::from_utf8(stdout).unwrap(), "streamed\n");
    assert!(server.follow(&started.stderr_url).expect("read stderr").is_empty());
    assert_eq!(server.wait(&started.process_url).expect("wait"), 0);
    server.verify();
}

#[test]
fn stop_suspends_a_named_sandbox() {
    let mut server = Platform::new();
    let backend = backend_for_mock();
    let request = make_request("conv-stop", "sandbox-stop");
    let name = expected_sandbox_name(&request);
    server.mount_running_sandbox(&name, "sbx-stop");

    server.mount(Method::Post, &format!("/sandboxes/{name}/suspend"), 202, "").expected = Some(1);

    let (handle, session) = server.acquire(&backend, request).expect("acquire");
    server.stop(&handle, &session).expect("stop");
    server.verify();
}

#[test]
fn stop_deletes_an_ephemeral_sandbox() {
    let mut server = Platform::new();
    let backend = backend_for_mock();
    let request = make_ephemeral_request("conv-stop-eph", "sandbox-stop-eph");

    server.mount(Method::Post, "/sandboxes", 200, &create_response_json("sbx-eph"));
    server.mount_running_sandbox("sbx-eph", "sbx-eph");
    server.mount(Method::Delete, "/sandboxes/sbx-eph", 200, "").expected = Some(1);

    let (handle, session) = server.acquire(&backend, request).expect("acquire");
    server.stop(&handle, &session).expect("stop");
    server.verify();
}

#[test]
fn snapshot_returns_a_tensorlake_manifest() {
    let mut server = Platform::new();
    let backend = backend_for_mock();
    let request = make_request("conv-snap", "sandbox-snap");
    let name = expected_sandbox_name(&request);
    server.mount_running_sandbox(&name, "sbx-snap");

    server
        .mount(
            Method::Post,
            "/sandboxes/sbx-snap/snapshot",
            202,
            "{\"snapshot_id\":\"snap-123\",\"status\":\"pending\"}",
        )
        .expected = Some(1);

    let (handle, mut session) = server.acquire(&backend, request).expect("acquire");
    let target = server.running_target(&handle, &mut session).expect("target");
    let (sent, body) = handle.snapshot(&target);
    assert_eq!(body.snapshot_type, "filesystem");
    let reply = server.reply(&sent, |text| {
        let value = json(text)?;
        Ok(SnapshotSandboxResponse { snapshot_id: text_field(&value, "snapshot_id")? })
    });
    let snapshot_id =
        TensorlakeBackendHandle::snapshot_taken(target.sandbox_id, reply).expect("snapshot");
    let (kind, manifest) = handle.manifest(snapshot_id);

    assert_eq!(kind, SnapshotKind::TensorlakeSnapshot);
    assert_eq!(manifest.snapshot_id, "snap-123");
    assert_eq!(manifest.sandbox_name, Some(name));
    server.verify();
}

#[test]
fn acquire_from_snapshot_replaces_the_named_sandbox() {
    let mut server = Platform::new();
    let backend = backend_for_mock();
    let request = make_request("conv-restore", "sandbox-restore");
    let name = expected_sandbox_name(&request);

    server.mount_running_sandbox(&name, "sbx-old");
    server.mount(Method::Delete, &format!("/sandboxes/{name}"), 200, "").expected = Some(1);
    server.mount(Method::Post, "/sandboxes", 200, &create_response_json("sbx-restored")).expected =
        Some(1);
    server.mount_running_sandbox("sbx-restored", "sbx-restored");

    let bytes = format!("{{\"snapshot_id\":\"snap-9\",\"sandbox_name\":\"{name}\"}}");
    let (handle, session) = server
        .acquire_from_snapshot(
            &backend,
            request,
            SnapshotKind::TensorlakeSnapshot,
            bytes.as_bytes(),
        )
        .expect("acquire_from_snapshot");
    assert_eq!(handle.id, "tensorlake-restored:conversation:conv-restore:sandbox-restore");
    assert_eq!(session.target.sandbox_id, "sbx-restored");

    let create = server.created.last().unwrap();
    assert_eq!(create.snapshot_id.as_deref(), Some("snap-9"));
    assert_eq!(create.name, Some(name));
    assert!(create.image.is_none(), "restore should boot from the snapshot, not an image");
    server.verify();
}

#[test]
fn acquire_from_snapshot_rejects_foreign_payload_kinds() {
    let mut server = Platform::new();
    let backend = backend_for_mock();
    let request = make_request("conv-foreign", "sandbox-foreign");

    let error = match server.acquire_from_snapshot(
        &backend,
        request,
        SnapshotKind::DockerImageTar,
        b"not-a-tensorlake-manifest",
    ) {
        Ok(_) => panic!("expected a snapshot kind mismatch error"),
        Err(error) => error.message(),
    };
    assert!(error.contains("TensorlakeSnapshot"), "unexpected error: {error}");
    assert!(server.asked.is_empty());
}

#[test]
fn acquire_rejects_host_bind_mounts() {
    let mut server = Platform::new();
    let backend = backend_for_mock();
    let mut request = make_request("conv-mount", "sandbox-mount");
    request.spec.mounts.push(SandboxMount {
        host_path: b"/tmp".to_vec(),
        guest_path: "/workspace".into(),
        access: SandboxMountAccess::ReadWrite,
        internal: false,
    });

    let error = match server.acquire(&backend, request) {
        Ok(_) => panic!("expected a host bind-mount rejection"),
        Err(error) => error.message(),
    };
    assert!(error.contains("host bind-mounts"), "unexpected error: {error}");
}

/// A command that already started must never be replayed: the run stream dying
/// on the way is final, not a reason to send it again.
#[test]
fn exec_does_not_rerun_a_command_after_a_mid_stream_failure() {
    let mut server = Platform::new();
    let backend = backend_for_mock();
    let request = make_request("conv-truncated", "sandbox-truncated");
    let name = expected_sandbox_name(&request);
    server.mount_running_sandbox(&name, "sbx-truncated");

    // The process started and emitted output, then the stream ended without the
    // exit: the shape of a connection that was dropped.
    let truncated = sse(&[
        "{\"handle\":1,\"pid\":42,\"started_at\":1710000000000}",
        "{\"line\":\"side effect happened\",\"timestamp\":1,\"stream\":\"stdout\"}",
    ]);
    server.mount(Method::Post, "/api/v1/processes/run", 200, &truncated).expected = Some(1);

    let (handle, mut session) = server.acquire(&backend, request).expect("acquire");
    let error = match server.exec(&handle, &mut session, &touch_command()) {
        Ok(output) => panic!("expected a truncated-stream error, got {output:?}"),
        Err(error) => error.message(),
    };
    assert!(error.contains("without an exit event"), "unexpected error: {error}");
    server.verify();
}

/// A sandbox that is reported gone before the command is accepted is safe to
/// try again, once, where it is found then.
#[test]
fn exec_retries_once_when_the_proxy_reports_the_sandbox_gone() {
    let mut server = Platform::new();
    let backend = backend_for_mock();
    let request = make_request("conv-gone", "sandbox-gone");
    let name = expected_sandbox_name(&request);
    server.mount_running_sandbox(&name, "sbx-gone");

    let gone = server.mount(Method::Post, "/api/v1/processes/run", 404, "sandbox not found");
    gone.left = 1;
    gone.expected = Some(1);
    let stream = sse(&[
        "{\"handle\":1,\"pid\":43,\"started_at\":1710000000000}",
        "{\"line\":\"recovered\",\"timestamp\":1,\"stream\":\"stdout\"}",
        "{\"exit_code\":0}",
    ]);
    server.mount(Method::Post, "/api/v1/processes/run", 200, &stream).expected = Some(1);

    let (handle, mut session) = server.acquire(&backend, request).expect("acquire");
    let output = server.exec(&handle, &mut session, &touch_command()).expect("exec");

    assert!(output.ok);
    assert_eq!(output.stdout, "recovered\n");
    assert!(session.live);
    server.verify();
}

/// A resume is refused while a suspend is under way, so a sandbox that is
/// suspending is waited out and resumed exactly once after it settles.
#[test]
fn acquire_waits_out_a_suspending_sandbox_before_resuming() {
    let mut server = Platform::new();
    let backend = backend_for_mock();
    let request = make_request("conv-suspending", "sandbox-suspending");
    let name = expected_sandbox_name(&request);

    let suspending = sandbox_info_json("sbx-suspending", "suspending");
    server.mount(Method::Get, &format!("/sandboxes/{name}"), 200, &suspending);
    let suspended = sandbox_info_json("sbx-suspending", "suspended");
    server.mount(Method::Get, "/sandboxes/sbx-suspending", 200, &suspended).left = 1;
    server.mount_running_sandbox("sbx-suspending", "sbx-suspending");
    server.mount(Method::Post, "/sandboxes/sbx-suspending/resume", 202, "").expected = Some(1);

    server.acquire(&backend, request).expect("acquire");
    server.verify();
    assert_eq!(server.millis, 1_500);
}

#[test]
fn terminate_deletes_the_named_sandbox() {
    let mut server = Platform::new();
    let backend = backend_for_mock();
    let request = make_request("conv-terminate", "sandbox-terminate");
    let name = expected_sandbox_name(&request);

    // No look first: a delete can be repeated, so a look would be wasted.
    let running = sandbox_info_json("sbx-terminate", "running");
    server.mount(Method::Get, &format!("/sandboxes/{name}"), 200, &running).expected = Some(0);
    // By name, not by id: a suspended sandbox still answers to its name.
    server.mount(Method::Delete, &format!("/sandboxes/{name}"), 200, "").expected = Some(1);
    server.mount(Method::Post, &format!("/sandboxes/{name}/suspend"), 202, "").expected = Some(0);

    server.terminate(&backend, &request).expect("terminate");
    server.verify();
}

/// Terminating must put up with a sandbox that is already gone, and must never
/// create the thing it is looking for.
#[test]
fn terminate_tolerates_a_sandbox_that_is_already_gone() {
    let mut server = Platform::new();
    let backend = backend_for_mock();
    let request = make_request("conv-absent", "sandbox-absent");
    let name = expected_sandbox_name(&request);

    server
        .mount(Method::Delete, &format!("/sandboxes/{name}"), 404, "sandbox not found")
        .expected = Some(1);
    server.mount(Method::Post, "/sandboxes", 200, &create_response_json("sbx-new")).expected =
        Some(0);

    server.terminate(&backend, &request).expect("terminate");
    server.verify();
}

/// A sandbox without a name cannot be found by its request, so terminating must
/// not guess.
#[test]
fn terminate_ignores_ephemeral_requests() {
    let mut server = Platform::new();
    let backend = backend_for_mock();
    let request = make_ephemeral_request("conv-eph-term", "sandbox-eph-term");

    server.terminate(&backend, &request).expect("terminate");
    assert!(
        server.asked.is_empty(),
        "ephemeral terminate must not talk to the platform at all"
    );
}

#[test]
fn a_stopped_sandbox_is_found_again_by_the_next_acquire() {
    let mut server = Platform::new();
    let backend = backend_for_mock();
    let request = make_request("conv-again", "sandbox-again");
    let name = expected_sandbox_name(&request);
    let path = format!("/sandboxes/{name}");

    server.mount(Method::Get, &path, 200, &sandbox_info_json("sbx-again", "running")).left = 1;
    server.mount(Method::Get, &path, 200, &sandbox_info_json("sbx-again", "suspended"));
    server.mount_running_sandbox("sbx-again", "sbx-again");
    server.mount(Method::Post, &format!("{path}/suspend"), 202, "").expected = Some(1);
    server.mount(Method::Post, "/sandboxes/sbx-again/resume", 202, "").expected = Some(1);

    let (handle, session) = server.acquire(&backend, request.clone()).expect("acquire");
    server.stop(&handle, &session).expect("stop");
    let (_, session) = server.acquire(&backend, request).expect("acquire");
    assert_eq!(session.target.sandbox_id, "sbx-again");
    server.verify();
}

#[test]
fn a_snapshot_is_restored_without_a_name_for_a_request_without_an_idle_time() {
    let mut server = Platform::new();
    let backend = backend_for_mock();
    let request = make_ephemeral_request("conv-r", "sandbox-r");
    server.mount(Method::Post, "/sandboxes", 200, &create_response_json("sbx-r"));
    server.mount_running_sandbox("sbx-r", "sbx-r");

    server
        .acquire_from_snapshot(
            &backend,
            request,
            SnapshotKind::TensorlakeSnapshot,
            b"{\"snapshot_id\":\"snap-1\"}",
        )
        .expect("acquire_from_snapshot");
    let create = server.created.last().unwrap();
    assert!(create.name.is_none());
    assert!(create.image.is_none());
    assert_eq!(create.snapshot_id.as_deref(), Some("snap-1"));
    assert_eq!(server.asked[0], (Method::Post, "/sandboxes".to_string()));
}

#[test]
fn a_name_that_stays_taken_is_given_up_after_five_attempts() {
    let mut server = Platform::new();
    let backend = backend_for_mock();
    let request = make_request("conv-taken", "sandbox-taken");
    let name = expected_sandbox_name(&request);
    server.mount(Method::Post, "/sandboxes", 409, "taken").expected = Some(5);

    let error = server.acquire(&backend, request).err().expect("conflict");
    assert_eq!(
        error.message(),
        format!(
            "Tensorlake create-sandbox kept reporting a name conflict for Some(\"{name}\"): taken"
        )
    );
    // Four pauses of a second lie between five attempts.
    assert_eq!(server.millis, 5_000);
    server.verify();
}

#[test]
fn a_name_that_comes_free_is_used() {
    let mut server = Platform::new();
    let backend = backend_for_mock();
    let request = make_request("conv-free", "sandbox-free");
    server.mount(Method::Post, "/sandboxes", 409, "taken").left = 4;
    server.mount(Method::Post, "/sandboxes", 200, &create_response_json("sbx-free"));
    server.mount_running_sandbox("sbx-free", "sbx-free");

    let (_, session) = server.acquire(&backend, request).expect("acquire");
    assert_eq!(session.target.sandbox_id, "sbx-free");
    assert_eq!(server.created.len(), 5);
}

#[test]
fn a_sandbox_that_never_gets_ready_is_given_up_after_three_minutes() {
    let mut server = Platform::new();
    let backend = backend_for_mock();
    let request = make_request("conv-slow", "sandbox-slow");
    server.mount(Method::Post, "/sandboxes", 200, &create_response_json("sbx-slow"));
    server.mount(
        Method::Get,
        "/sandboxes/sbx-slow",
        200,
        "{\"id\":\"sbx-slow\",\"status\":\"pending\",\"pending_reason\":\"no capacity\"}",
    );

    let error = server.acquire(&backend, request).err().expect("not ready");
    assert_eq!(
        error.message(),
        "Tensorlake sandbox sbx-slow was still Pending after 180s (no capacity)"
    );
    assert_eq!(server.millis, 181_000);
}

#[test]
fn a_sandbox_is_resumed_only_once_while_it_is_awaited() {
    let mut server = Platform::new();
    let backend = backend_for_mock();
    let request = make_request("conv-once", "sandbox-once");
    let name = expected_sandbox_name(&request);
    let suspended = sandbox_info_json("sbx-once", "suspended");
    server.mount(Method::Get, &format!("/sandboxes/{name}"), 200, &suspended);
    server.mount(Method::Get, "/sandboxes/sbx-once", 200, &suspended);
    server.mount(Method::Post, "/sandboxes/sbx-once/resume", 202, "").expected = Some(1);

    let error = server.acquire(&backend, request).err().expect("not ready");
    assert_eq!(
        error.message(),
        "Tensorlake sandbox sbx-once was still Suspended after 180s"
    );
    server.verify();
}

#[test]
fn a_sandbox_that_dies_while_it_starts_is_an_error() {
    let mut server = Platform::new();
    let backend = backend_for_mock();
    let request = make_request("conv-dies", "sandbox-dies");
    server.mount(Method::Post, "/sandboxes", 200, &create_response_json("sbx-dies"));
    server.mount(
        Method::Get,
        "/sandboxes/sbx-dies",
        200,
        "{\"id\":\"sbx-dies\",\"status\":\"terminated\",\"outcome\":\"image not found\"}",
    );

    let error = server.acquire(&backend, request).err().expect("terminated");
    assert_eq!(
        error.message(),
        "Tensorlake sandbox sbx-dies terminated while starting: image not found"
    );
}

#[test]
fn a_terminated_sandbox_counts_as_absent() {
    let mut server = Platform::new();
    let backend = backend_for_mock();
    let request = make_request("conv-tomb", "sandbox-tomb");
    let name = expected_sandbox_name(&request);
    let terminated = sandbox_info_json("sbx-tomb", "terminated");
    server.mount(Method::Get, &format!("/sandboxes/{name}"), 200, &terminated);
    server.mount(Method::Post, "/sandboxes", 200, &create_response_json("sbx-fresh"));
    server.mount_running_sandbox("sbx-fresh", "sbx-fresh");

    let (_, session) = server.acquire(&backend, request).expect("acquire");
    assert_eq!(session.target.sandbox_id, "sbx-fresh");
}

#[test]
fn a_command_is_given_up_when_the_sandbox_stays_out_of_reach() {
    let mut server = Platform::new();
    let backend = backend_for_mock();
    let request = make_request("conv-lost", "sandbox-lost");
    let name = expected_sandbox_name(&request);
    server.mount_running_sandbox(&name, "sbx-lost");
    server.mount(Method::Post, "/api/v1/processes/run", 503, "warming up").expected = Some(2);

    let (handle, mut session) = server.acquire(&backend, request).expect("acquire");
    let error = server.exec(&handle, &mut session, &touch_command()).err().expect("lost");
    assert_eq!(
        error.message(),
        "Tensorlake run-process failed (503 Service Unavailable): warming up"
    );
    assert!(!session.live);
    server.verify();
}

#[test]
fn a_refused_command_is_not_tried_again() {
    let mut server = Platform::new();
    let backend = backend_for_mock();
    let request = make_request("conv-refused", "sandbox-refused");
    let name = expected_sandbox_name(&request);
    server.mount_running_sandbox(&name, "sbx-refused");
    server.mount(Method::Post, "/api/v1/processes/run", 400, "bad command").expected = Some(1);

    let (handle, mut session) = server.acquire(&backend, request).expect("acquire");
    let error = server.exec(&handle, &mut session, &touch_command()).err().expect("refused");
    assert_eq!(error.message(), "Tensorlake run-process failed (400 Bad Request): bad command");
    assert!(session.live);
    server.verify();
}

#[test]
fn a_lost_sandbox_that_is_gone_is_reported_by_its_name() {
    let mut server = Platform::new();
    let backend = backend_for_mock();
    let request = make_request("conv-away", "sandbox-away");
    let name = expected_sandbox_name(&request);
    let running = sandbox_info_json("sbx-away", "running");
    server.mount(Method::Get, &format!("/sandboxes/{name}"), 200, &running).left = 1;

    let (handle, mut session) = server.acquire(&backend, request).expect("acquire");
    let error = server.exec(&handle, &mut session, &touch_command()).err().expect("gone");
    assert_eq!(error.message(), format!("Tensorlake sandbox {name} no longer exists"));
}

#[test]
fn a_command_without_words_is_refused() {
    let mut server = Platform::new();
    let backend = backend_for_mock();
    let request = make_request("conv-empty", "sandbox-empty");
    let name = expected_sandbox_name(&request);
    server.mount_running_sandbox(&name, "sbx-empty");
    let (handle, mut session) = server.acquire(&backend, request).expect("acquire");

    let error = server.exec(&handle, &mut session, &command(&[])).err().expect("empty");
    assert_eq!(error.message(), "sandbox command requires at least one argv entry");
    let error = server.start(&handle, &mut session, &command(&[])).err().expect("empty");
    assert!(matches!(error, BackendError::EmptyCommand));
}

#[test]
fn input_that_is_refused_is_not_sent_on() {
    let mut server = Platform::new();
    server.mount(Method::Post, "/p/stdin", 204, "").left = 1;
    server.mount(Method::Post, "/p/stdin", 410, "");
    server.mount(Method::Post, "/p/stdin/close", 204, "").expected = Some(1);
    let pieces = vec![b"one".to_vec(), b"two".to_vec(), b"three".to_vec()];
    server.forward_stdin(&format!("{BASE}/p"), pieces);
    assert_eq!(server.stdin, b"onetwo");
    assert_eq!(server.asked.last().unwrap().1, "/p/stdin/close");
    server.verify();
}
