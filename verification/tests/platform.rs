//! Configuration, requests to the platform and the failures they report.

use tensorlake_sandbox::api::{
    CreateSandboxBody, SandboxInfo, SandboxStatus, SnapshotSandboxResponse,
    TensorlakeSnapshotManifest,
};
use tensorlake_sandbox::backend::{
    default_tensorlake_image, reject_unsupported_mounts, resolve_image, TensorlakeConfig,
    TensorlakeSandboxBackend, DEFAULT_TENSORLAKE_API_URL, DEFAULT_TENSORLAKE_IMAGE,
};
use tensorlake_sandbox::error::{
    conflict_text, refusal_text, Activity, BackendError, Operation,
};
use tensorlake_sandbox::handle::{Placement, TensorlakeSandboxHandle};
use tensorlake_sandbox::http::{HttpStatus, Method, Reply, ReplyBody};
use tensorlake_sandbox::lifecycle::{
    decode_json_response, Create, Intent, LookUp, Poll, Resume, Step, TensorlakeBackendHandle,
    TensorlakeSandboxTarget,
};
use tensorlake_sandbox::sandbox::{
    SandboxKey, SandboxLifecycleConfig, SandboxNetworkPolicy, SandboxRequest, SandboxSpec,
    SnapshotKind, TimeSpan,
};
use tensorlake_sandbox::text::{decimal_signed_text, decimal_text, hexadecimal_text, join_text};

const NOW: TimeSpan = TimeSpan { secs: 10, nanos: 0 };

fn config(api_key: &str) -> TensorlakeConfig {
    TensorlakeConfig {
        api_key: api_key.to_string(),
        api_url: "https://api.example//".to_string(),
        default_image: "base".to_string(),
        cpus: None,
        memory_mb: None,
        sandbox_base_url: None,
    }
}

fn backend() -> TensorlakeSandboxBackend {
    TensorlakeSandboxBackend::new(config("key")).unwrap()
}

fn request(idle_ttl: Option<TimeSpan>) -> SandboxRequest {
    SandboxRequest {
        key: SandboxKey::ConversationSandbox {
            conversation_id: "c".to_string(),
            sandbox_id: "s".to_string(),
        },
        spec: spec("img"),
        lifecycle: SandboxLifecycleConfig { idle_ttl },
    }
}

fn spec(image: &str) -> SandboxSpec {
    SandboxSpec {
        image: image.to_string(),
        mounts: Vec::new(),
        durable_file_systems: Vec::new(),
        network: SandboxNetworkPolicy::Enabled,
        default_workdir: "/workspace".to_string(),
    }
}

fn status(code: u16) -> HttpStatus {
    HttpStatus::new(code).unwrap()
}

fn answered<T>(code: u16, text: &str, parsed: Result<T, String>) -> Reply<T> {
    Reply::Answered {
        status: status(code),
        body: ReplyBody::Text { text: text.to_string(), parsed },
    }
}

fn unsent<T>() -> Reply<T> {
    Reply::Unsent { cause: "connection refused".to_string() }
}

fn info(status: SandboxStatus, sandbox_url: Option<&str>) -> SandboxInfo {
    SandboxInfo {
        id: "sbx".to_string(),
        status,
        pending_reason: None,
        outcome: None,
        sandbox_url: sandbox_url.map(str::to_string),
    }
}

fn body() -> CreateSandboxBody {
    backend().create_body(&request(None), None)
}

#[test]
fn the_key_goes_into_the_authorization_header() {
    let made = backend();
    assert_eq!(made.authorization, b"Bearer key");
    assert_eq!(made.api_url, "https://api.example");
    assert_eq!(made.sandbox_base_url, None);
    let spaced = TensorlakeSandboxBackend::new(config("a\tb c\u{e9}")).unwrap();
    assert_eq!(spaced.authorization, "Bearer a\tb c\u{e9}".as_bytes());
}

#[test]
fn a_key_that_does_not_fit_a_header_is_refused() {
    for key in ["a\nb", "a\rb", "\0", "\u{7f}", "\u{1f}"] {
        let error = TensorlakeSandboxBackend::new(config(key)).err().unwrap();
        assert_eq!(
            error.message(),
            "TENSORLAKE_API_KEY contains characters that aren't valid in an HTTP header"
        );
        assert_eq!(error.cause().as_deref(), Some("failed to parse header value"));
    }
}

#[test]
fn urls_lose_their_trailing_slashes() {
    let made = TensorlakeSandboxBackend::new(TensorlakeConfig {
        api_url: "http://a/b///".to_string(),
        sandbox_base_url: Some("http://c/".to_string()),
        ..config("key")
    })
    .unwrap();
    let handle = made.handle_backend();
    assert_eq!(handle.api_url, "http://a/b");
    assert_eq!(handle.sandbox_base_url.as_deref(), Some("http://c"));
    assert_eq!(handle.api_endpoint("/x"), "http://a/b/x");
    assert_eq!(DEFAULT_TENSORLAKE_API_URL, "https://api.tensorlake.ai");
}

#[test]
fn an_image_of_white_space_counts_as_none() {
    assert_eq!(default_tensorlake_image(), "tensorlake/ubuntu-minimal");
    assert_eq!(DEFAULT_TENSORLAKE_IMAGE, "tensorlake/ubuntu-minimal");
    assert_eq!(resolve_image(&spec(" img "), "base"), " img ");
    assert_eq!(resolve_image(&spec(" \t"), "base"), "base");
    assert_eq!(resolve_image(&spec(""), "\u{3000}\n"), "tensorlake/ubuntu-minimal");
}

#[test]
fn durable_file_systems_are_refused() {
    let mut wanted = request(None);
    wanted.spec.durable_file_systems.push("data".to_string());
    let error = reject_unsupported_mounts(&wanted).unwrap_err();
    assert_eq!(
        error.message(),
        "Tensorlake sandbox backend does not support durable file systems"
    );
    assert!(backend().acquire(&wanted).is_err());
    assert!(reject_unsupported_mounts(&request(None)).is_ok());
}

#[test]
fn an_idle_time_is_told_in_whole_seconds_and_at_least_one() {
    let told = |secs: u64, nanos: u32| {
        backend().create_body(&request(Some(TimeSpan { secs, nanos })), Some("n")).timeout_secs
    };
    assert_eq!(told(300, 0), Some(300));
    assert_eq!(told(1, 999_999_999), Some(1));
    assert_eq!(told(0, 500_000_000), Some(1));
    assert_eq!(body().timeout_secs, None);
}

#[test]
fn one_configured_resource_is_enough_for_an_override() {
    let mut made = backend();
    assert!(made.resource_overrides().is_none());
    made.memory_mb = Some(512);
    let resources = made.resource_overrides().unwrap();
    assert_eq!(resources.memory_mb, Some(512));
    assert!(resources.cpus.is_none());
}

#[test]
fn a_snapshot_of_another_kind_or_without_a_manifest_is_refused() {
    let kind = SnapshotKind::DockerImageTar;
    let error = backend()
        .acquire_from_snapshot(&request(None), kind, Err("bad".to_string()))
        .unwrap_err();
    assert_eq!(
        error.message(),
        "Tensorlake sandbox backend can only restore from \
         SnapshotKind::TensorlakeSnapshot, got DockerImageTar"
    );
    let kind = SnapshotKind::TensorlakeSnapshot;
    let error = backend()
        .acquire_from_snapshot(&request(None), kind, Err("bad".to_string()))
        .unwrap_err();
    assert_eq!(error.message(), "decoding TensorlakeSnapshot manifest");
    assert_eq!(error.cause().as_deref(), Some("bad"));
}

#[test]
fn what_a_snapshot_leaves_behind_restores_it() {
    let target = TensorlakeSandboxTarget {
        sandbox_id: "sbx".to_string(),
        base_url: "http://s".to_string(),
    };
    let wanted = request(Some(TimeSpan { secs: 5, nanos: 0 }));
    let (handle, _) = backend().acquired(wanted.clone(), target);
    let taken = SnapshotSandboxResponse { snapshot_id: "snap".to_string() };
    let id =
        TensorlakeBackendHandle::snapshot_taken("sbx".to_string(), answered(200, "", Ok(taken)))
            .unwrap();
    let (kind, manifest) = handle.manifest(id);
    match backend().acquire_from_snapshot(&wanted, kind, Ok(manifest)).unwrap() {
        Step::LookUp(LookUp { identifier, intent: Intent::Restore { body } }) => {
            assert_eq!(Some(identifier), handle.name);
            assert_eq!(body.snapshot_id.as_deref(), Some("snap"));
            assert!(body.image.is_none());
        }
        other => panic!("{other:?}"),
    }
}

#[test]
fn requests_go_to_the_platform() {
    let handle = backend().handle_backend();
    let sent = handle.get_sandbox("n");
    assert_eq!((sent.method, sent.url.as_str()), (Method::Get, "https://api.example/sandboxes/n"));
    let sent = handle.create_sandbox();
    assert_eq!((sent.method, sent.url.as_str()), (Method::Post, "https://api.example/sandboxes"));
    let sent = handle.delete_sandbox("n");
    assert_eq!(sent.method, Method::Delete);
    assert_eq!(sent.url, "https://api.example/sandboxes/n");
    assert_eq!(handle.suspend_sandbox("n").url, "https://api.example/sandboxes/n/suspend");
    assert_eq!(handle.resume_sandbox("n").url, "https://api.example/sandboxes/n/resume");
    let (sent, body) = handle.snapshot_sandbox("n");
    assert_eq!(sent.url, "https://api.example/sandboxes/n/snapshot");
    assert_eq!(body.snapshot_type, "filesystem");
}

#[test]
fn answers_are_read_in_order_of_what_can_fail() {
    let unreadable: ReplyBody<u8> = ReplyBody::Unreadable { cause: "reset".to_string() };
    let error =
        decode_json_response(status(500), unreadable, Operation::GetSandbox).unwrap_err();
    assert_eq!(error.message(), "reading Tensorlake get-sandbox response body");
    let refused: ReplyBody<u8> = ReplyBody::Text { text: "no".to_string(), parsed: Ok(1) };
    let error =
        decode_json_response(status(500), refused, Operation::CreateSandbox).unwrap_err();
    assert_eq!(
        error.message(),
        "Tensorlake create-sandbox failed (500 Internal Server Error): no"
    );
    let garbled: ReplyBody<u8> =
        ReplyBody::Text { text: "<html>".to_string(), parsed: Err("expected value".to_string()) };
    let error = decode_json_response(status(200), garbled, Operation::GetProcess).unwrap_err();
    assert_eq!(error.message(), "decoding Tensorlake get-process response: <html>");
    assert_eq!(error.cause().as_deref(), Some("expected value"));
    let fine: ReplyBody<u8> = ReplyBody::Text { text: "7".to_string(), parsed: Ok(7) };
    assert_eq!(decode_json_response(status(299), fine, Operation::GetProcess).unwrap(), 7);
}

#[test]
fn a_request_without_an_answer_says_what_was_being_done() {
    let handle = backend().handle_backend();
    let id = || "x".to_string();
    let look = LookUp { identifier: id(), intent: Intent::Refresh };
    let failed = |step: Step| match step {
        Step::Failed(error) => {
            assert_eq!(error.cause().as_deref(), Some("connection refused"));
            error.message()
        }
        other => panic!("{other:?}"),
    };
    assert_eq!(failed(handle.looked_up(look, unsent(), NOW)), "fetching Tensorlake sandbox x");
    let create = Create { attempt: 0, body: body() };
    assert_eq!(
        failed(TensorlakeBackendHandle::created(create, unsent(), NOW)),
        "creating Tensorlake sandbox"
    );
    let resume = Resume { sandbox_id: id() };
    assert_eq!(
        failed(TensorlakeBackendHandle::resumed(resume, unsent(), NOW)),
        "resuming Tensorlake sandbox x"
    );
    let poll = Poll { sandbox_id: id(), resumed: false, deadline: 0 };
    assert_eq!(failed(handle.polled(poll, unsent(), NOW)), "polling Tensorlake sandbox x");
    let message = |res: Result<(), BackendError>| res.unwrap_err().message();
    assert_eq!(
        message(TensorlakeBackendHandle::sandbox_deleted(id(), unsent())),
        "deleting Tensorlake sandbox x"
    );
    assert_eq!(
        message(TensorlakeBackendHandle::sandbox_suspended(id(), unsent())),
        "suspending Tensorlake sandbox x"
    );
    assert_eq!(
        TensorlakeBackendHandle::snapshot_taken(id(), unsent()).unwrap_err().message(),
        "snapshotting Tensorlake sandbox x"
    );
    assert_eq!(Activity::StartingProcess.to_text(), "Tensorlake start-process");
}

#[test]
fn only_a_delete_puts_up_with_a_missing_sandbox() {
    let id = || "x".to_string();
    assert!(TensorlakeBackendHandle::sandbox_deleted(id(), answered(404, "", Ok(()))).is_ok());
    let error = TensorlakeBackendHandle::sandbox_suspended(id(), answered(404, "gone", Ok(())))
        .unwrap_err();
    assert_eq!(error.message(), "Tensorlake suspend-sandbox failed (404 Not Found): gone");
    let error = TensorlakeBackendHandle::sandbox_resumed(id(), answered(409, "busy", Ok(())))
        .unwrap_err();
    assert_eq!(error.message(), "Tensorlake resume-sandbox failed (409 Conflict): busy");
    let unreadable = Reply::Answered {
        status: status(500),
        body: ReplyBody::Unreadable { cause: "reset".to_string() },
    };
    let error = TensorlakeBackendHandle::sandbox_deleted(id(), unreadable).unwrap_err();
    assert_eq!(
        error.message(),
        "Tensorlake delete-sandbox failed (500 Internal Server Error): "
    );
}

#[test]
fn a_running_sandbox_must_say_where_it_is() {
    let handle = backend().handle_backend();
    let target = handle.target_for(&info(SandboxStatus::Running, Some("https://s//"))).unwrap();
    assert_eq!(target.base_url, "https://s");
    assert_eq!(target.sandbox_id, "sbx");
    let error = handle.target_for(&info(SandboxStatus::Running, None)).unwrap_err();
    assert_eq!(
        error.message(),
        "Tensorlake sandbox sbx is running but reported no sandbox_url"
    );
}

#[test]
fn every_status_of_a_sandbox_has_its_own_way_to_running() {
    let handle = backend().handle_backend();
    let step = |status| handle.drive_to_running(info(status, Some("u")), NOW);
    assert!(matches!(step(SandboxStatus::Running), Step::Done(_)));
    assert!(matches!(step(SandboxStatus::Suspended), Step::Resume(_)));
    for status in [
        SandboxStatus::Suspending,
        SandboxStatus::Pending,
        SandboxStatus::Snapshotting,
    ] {
        match step(status) {
            Step::Poll(poll) => {
                assert!(!poll.resumed);
                assert_eq!(poll.deadline, 190_000_000_000);
            }
            other => panic!("{other:?}"),
        }
    }
    match step(SandboxStatus::Terminated) {
        Step::Failed(error) => assert_eq!(
            error.message(),
            "Tensorlake sandbox sbx is terminated and cannot be reused"
        ),
        other => panic!("{other:?}"),
    }
}

#[test]
fn the_deadline_counts_after_the_look_and_after_the_resume() {
    let handle = backend().handle_backend();
    let poll = |resumed| Poll { sandbox_id: "sbx".to_string(), resumed, deadline: 10_000_000_000 };
    let pending = || answered(200, "", Ok(info(SandboxStatus::Pending, None)));
    let early = TimeSpan { secs: 9, nanos: 999_999_999 };
    assert!(matches!(handle.polled(poll(false), pending(), early), Step::Pause(_)));
    assert!(matches!(handle.polled(poll(false), pending(), NOW), Step::Failed(_)));
    let suspended = || answered(200, "", Ok(info(SandboxStatus::Suspended, None)));
    assert!(matches!(handle.polled(poll(true), suspended(), early), Step::Pause(_)));
    match handle.polled(poll(false), suspended(), NOW) {
        Step::PollResume(resume) => {
            let step = TensorlakeBackendHandle::poll_resumed(resume, answered(200, "", Ok(())), NOW);
            match step {
                Step::Failed(error) => assert_eq!(
                    error.message(),
                    "Tensorlake sandbox sbx was still Suspended after 180s"
                ),
                other => panic!("{other:?}"),
            }
        }
        other => panic!("{other:?}"),
    }
}

#[test]
fn a_sandbox_without_a_name_is_found_by_its_id() {
    let target = TensorlakeSandboxTarget {
        sandbox_id: "sbx".to_string(),
        base_url: "http://s".to_string(),
    };
    let (handle, mut session) = TensorlakeSandboxHandle::new(
        "id".to_string(),
        None,
        target,
        request(None),
        backend().handle_backend(),
    );
    assert!(matches!(handle.running_target(&session), Placement::Live(_)));
    session.mark_unreachable();
    match handle.running_target(&session) {
        Placement::Unknown(Step::LookUp(LookUp { identifier, intent: Intent::Refresh })) => {
            assert_eq!(identifier, "sbx")
        }
        other => panic!("{other:?}"),
    }
}

#[test]
fn statuses_have_three_digits() {
    assert!(HttpStatus::new(99).is_none());
    assert!(HttpStatus::new(1000).is_none());
    assert_eq!(status(418).to_text(), "418 I'm a teapot");
    assert_eq!(status(799).to_text(), "799 <unknown status code>");
    assert!(status(200).is_success());
    assert!(!status(300).is_success());
}

#[test]
fn a_conflict_without_a_name_is_shown_as_such() {
    let error = BackendError::NameConflict { name: None, last: "l".to_string() };
    assert_eq!(
        error.message(),
        "Tensorlake create-sandbox kept reporting a name conflict for None: l"
    );
    let name = Some("a\"b".to_string());
    let error = BackendError::NameConflict { name, last: String::new() };
    assert_eq!(
        error.message(),
        "Tensorlake create-sandbox kept reporting a name conflict for Some(\"a\\\"b\"): "
    );
}

#[test]
fn failures_of_pipes_and_streams_name_what_they_did() {
    let cause = || "c".to_string();
    let error = BackendError::BrokenOutputStream { cause: cause() };
    assert_eq!(error.message(), "reading Tensorlake event stream");
    let error = BackendError::BrokenOutputPipe { cause: cause() };
    assert_eq!(error.message(), "writing Tensorlake process output pipe");
    assert_eq!(error.cause(), Some(cause()));
    assert_eq!(BackendError::MissingExit.cause(), None);
}

#[test]
fn numbers_are_written_out() {
    assert_eq!(decimal_text(0), "0");
    assert_eq!(decimal_text(u64::MAX), "18446744073709551615");
    assert_eq!(decimal_signed_text(i32::MIN), "-2147483648");
    assert_eq!(decimal_signed_text(77), "77");
    assert_eq!(hexadecimal_text(0xabc, 16), "0000000000000abc");
    assert_eq!(hexadecimal_text(u64::MAX, 16), "ffffffffffffffff");
    let words = vec!["a".to_string(), String::new(), "c".to_string()];
    assert_eq!(join_text(&words, " "), "a  c");
}

#[test]
fn a_manifest_of_an_unnamed_sandbox_has_no_name() {
    let target = TensorlakeSandboxTarget { sandbox_id: String::new(), base_url: String::new() };
    let (handle, _) = backend().restored(request(None), target);
    assert_eq!(handle.id, "tensorlake-restored:conversation:c:s");
    let (_, manifest) = handle.manifest("snap".to_string());
    let TensorlakeSnapshotManifest { snapshot_id, sandbox_name } = manifest;
    assert_eq!(snapshot_id, "snap");
    assert_eq!(sandbox_name, None);
}

#[test]
fn messages_are_built_from_what_is_shown() {
    assert_eq!(
        refusal_text(Operation::StartProcess, "502 Bad Gateway", "down"),
        "Tensorlake start-process failed (502 Bad Gateway): down"
    );
    assert_eq!(
        conflict_text("Some(\"n\")", "taken"),
        "Tensorlake create-sandbox kept reporting a name conflict for Some(\"n\"): taken"
    );
}
