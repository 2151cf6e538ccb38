//! Commands that run to their end, and processes that run on.

use tensorlake_sandbox::api::{
    ProcessInfo, ProcessOutputEvent, ProcessOutputStream, ProcessStatus, RunProcessEvent,
};
use tensorlake_sandbox::error::BackendError;
use tensorlake_sandbox::handle::{
    classify_proxy_status, with_proxy_retry, ProxyAttempt, ProxyCall, ProxyCallError, Verdict,
};
use tensorlake_sandbox::http::{HttpStatus, Reply, ReplyBody};
use tensorlake_sandbox::process::{
    after_exit, follow_opened, follow_output, process_fits, process_seen, process_started,
    stdin_read, stdin_sent,
    wait_for_process_exit, ExitStep, FollowPoll, OutputFollower, StdinRead, StdinStep, WaitStep,
};
use tensorlake_sandbox::run::{
    event_fits, exit_code_fits, resolve_exit_code, run_accepted, run_backstop, run_finished, run_process,
    timeout_fits, OutputLines, RunCollector, RunEnd, RunOutcome, RunPoll,
};
use tensorlake_sandbox::sandbox::{Environment, SandboxCommand, TimeSpan};

fn command(argv: &[&str], timeout: Option<TimeSpan>) -> SandboxCommand {
    SandboxCommand {
        argv: argv.iter().map(|arg| arg.to_string()).collect(),
        env: Environment::new(),
        display_argv: None,
        cwd: None,
        timeout,
    }
}

fn status(code: u16) -> HttpStatus {
    HttpStatus::new(code).unwrap()
}

fn answered<T>(code: u16, text: &str, parsed: Result<T, String>) -> Reply<T> {
    Reply::Answered {
        status: status(code),
        body: ReplyBody::Text { text: text.to_string(), parsed },
    }
}

fn event() -> RunProcessEvent {
    RunProcessEvent { started_at: None, line: None, stream: None, exit_code: None, signal: None }
}

fn line(text: &str, stream: Option<ProcessOutputStream>) -> RunProcessEvent {
    RunProcessEvent { line: Some(text.to_string()), stream, ..event() }
}

#[test]
fn exit_codes_follow_the_shell() {
    assert_eq!(resolve_exit_code(Some(3), None), Some(3));
    assert_eq!(resolve_exit_code(Some(0), Some(9)), Some(0));
    assert_eq!(resolve_exit_code(None, Some(15)), Some(143));
    assert_eq!(resolve_exit_code(None, None), None);
    assert!(exit_code_fits(None, Some(i32::MAX - 128)));
    assert!(!exit_code_fits(None, Some(i32::MAX - 127)));
    assert!(exit_code_fits(Some(1), Some(i32::MAX)));
    let odd = RunProcessEvent { signal: Some(i32::MAX), ..event() };
    assert!(!event_fits(&odd));
    assert!(event_fits(&RunProcessEvent { started_at: Some(1), ..odd }));
    let info = |status| {
        Ok(ProcessInfo { pid: 1, status, exit_code: None, signal: Some(i32::MAX) })
    };
    assert!(process_fits(&info(ProcessStatus::Running)));
    assert!(!process_fits(&info(ProcessStatus::Signaled)));
}

#[test]
fn every_line_of_output_ends_with_a_line_feed() {
    let mut output = OutputLines::new();
    assert_eq!(OutputLines::new().into_text(), "");
    output.push("one".to_string());
    output.push(String::new());
    output.push("three".to_string());
    assert_eq!(output.into_text(), "one\n\nthree\n");
}

#[test]
fn lines_go_to_their_stream() {
    let mut collector = RunCollector::new();
    for event in [
        RunProcessEvent { started_at: Some(5), ..event() },
        line("out", Some(ProcessOutputStream::Stdout)),
        line("err", Some(ProcessOutputStream::Stderr)),
        line("plain", None),
        RunProcessEvent { exit_code: Some(4), ..event() },
    ] {
        collector.take_event("{}".to_string(), Ok(event)).unwrap();
    }
    let outcome = collector.finish().unwrap();
    assert_eq!(outcome.stdout, "out\nplain\n");
    assert_eq!(outcome.stderr, "err\n");
    assert_eq!(outcome.exit_code, Some(4));
}

#[test]
fn the_last_exit_counts() {
    let mut collector = RunCollector::new();
    for code in [1, 2] {
        let exit = RunProcessEvent { exit_code: Some(code), ..event() };
        collector.take_event("{}".to_string(), Ok(exit)).unwrap();
    }
    assert_eq!(collector.finish().unwrap().exit_code, Some(2));
}

#[test]
fn an_exit_without_a_code_is_an_exit() {
    let mut collector = RunCollector::new();
    collector.take_event("{}".to_string(), Ok(event())).unwrap();
    let outcome = collector.finish().unwrap();
    assert_eq!(outcome.exit_code, None);
    let output = run_finished(
        &command(&["x"], None),
        String::new(),
        RunEnd::Collected(Ok(outcome)),
    )
    .unwrap();
    assert!(!output.ok);
}

#[test]
fn a_run_without_an_exit_has_no_result() {
    assert!(matches!(RunCollector::new().finish(), Err(BackendError::MissingExit)));
}

#[test]
fn events_without_data_are_passed_over() {
    let mut collector = RunCollector::new();
    collector.push_chunk(b"event: ping\n\nevent: output\ndata: {}\n\nevent: last\n\n");
    match collector.next_event() {
        RunPoll::Decode(data) => assert_eq!(data, "{}"),
        other => panic!("{other:?}"),
    }
    assert!(matches!(collector.next_event(), RunPoll::NeedMore));
    collector.end_of_stream();
    assert!(matches!(collector.next_event(), RunPoll::End));
}

#[test]
fn an_exit_without_a_final_line_feed_counts() {
    let mut collector = RunCollector::new();
    collector.push_chunk(b"data: {\"exit_code\":0}");
    assert!(matches!(collector.next_event(), RunPoll::NeedMore));
    collector.end_of_stream();
    match collector.next_event() {
        RunPoll::Decode(data) => {
            assert_eq!(data, "{\"exit_code\":0}");
            let exit = RunProcessEvent { exit_code: Some(0), ..event() };
            collector.take_event(data, Ok(exit)).unwrap();
        }
        other => panic!("{other:?}"),
    }
    assert!(matches!(collector.next_event(), RunPoll::End));
    assert_eq!(collector.finish().unwrap().exit_code, Some(0));
}

#[test]
fn an_event_that_cannot_be_decoded_is_an_error() {
    let mut collector = RunCollector::new();
    let error = collector
        .take_event("nonsense".to_string(), Err("expected ident".to_string()))
        .unwrap_err();
    assert_eq!(error.message(), "decoding Tensorlake run-process event: nonsense");
    assert_eq!(error.cause().as_deref(), Some("expected ident"));
}

#[test]
fn an_empty_directory_is_not_passed_on() {
    let (request, body) = run_process("http://s", &String::new(), &command(&["a", "b"], None));
    assert_eq!(request.url, "http://s/api/v1/processes/run");
    assert_eq!(body.working_dir, None);
    assert_eq!(body.args, vec!["b".to_string()]);
}

#[test]
fn the_wait_outlasts_the_timeout() {
    let timeout = TimeSpan { secs: 30, nanos: 7 };
    let (_, body) = run_process("", &String::new(), &command(&["a"], Some(timeout)));
    assert_eq!(body.timeout, Some(timeout));
    assert_eq!(
        run_backstop(&command(&["a"], Some(timeout))),
        Some(TimeSpan { secs: 40, nanos: 7 })
    );
    assert_eq!(run_backstop(&command(&["a"], None)), None);
    let fits = |secs| timeout_fits(&command(&["a"], Some(TimeSpan { secs, nanos: 0 })));
    assert!(fits(u64::MAX - 10));
    assert!(!fits(u64::MAX - 9));
    assert!(timeout_fits(&command(&["a"], None)));
}

#[test]
fn a_command_that_runs_out_of_time_is_shown_as_asked() {
    let mut slow = command(&["sleep", "token-1"], Some(TimeSpan { secs: 2, nanos: 1 }));
    match run_finished(&slow, String::new(), RunEnd::TimedOut) {
        Err(ProxyCallError::Failed(error)) => assert_eq!(
            error.message(),
            "sandbox command timed out after 2s: sleep token-1"
        ),
        other => panic!("{other:?}"),
    }
    slow.display_argv = Some(vec!["sleep".to_string(), "***".to_string()]);
    match run_finished(&slow, String::new(), RunEnd::TimedOut) {
        Err(ProxyCallError::Failed(error)) => {
            assert_eq!(error.message(), "sandbox command timed out after 2s: sleep ***")
        }
        other => panic!("{other:?}"),
    }
    let outcome =
        RunOutcome { exit_code: Some(0), stdout: "o".to_string(), stderr: "e".to_string() };
    let output =
        run_finished(&slow, "/w".to_string(), RunEnd::Collected(Ok(outcome))).unwrap();
    assert_eq!(output.command, vec!["sleep".to_string(), "***".to_string()]);
    assert_eq!(output.cwd, "/w");
    assert!(output.ok);
}

#[test]
fn a_stream_that_breaks_off_is_final() {
    let end = RunEnd::Broken { cause: "reset".to_string() };
    let result = run_finished(&command(&["x"], None), String::new(), end);
    match with_proxy_retry(ProxyAttempt { number: 0, cwd: String::new() }, result) {
        (Verdict::Return(Err(error)), false) => {
            assert_eq!(error.message(), "Tensorlake run-process");
            assert_eq!(
                error.cause().as_deref(),
                Some("reading Tensorlake event stream: reset")
            );
        }
        other => panic!("{other:?}"),
    }
}

#[test]
fn only_some_statuses_mean_that_the_sandbox_is_out_of_reach() {
    for code in 100..=999 {
        let error =
            classify_proxy_status(status(code), ProxyCall::StartProcess, "b".to_string());
        let unavailable = matches!(error, ProxyCallError::Unavailable(_));
        assert_eq!(unavailable, [404, 502, 503, 504].contains(&code), "{code}");
        let accepted = run_accepted(answered(code, "b", Ok(())));
        assert_eq!(accepted.is_ok(), (200..300).contains(&code), "{code}");
    }
    let unsent = run_accepted(Reply::Unsent { cause: "refused".to_string() });
    match unsent {
        Err(ProxyCallError::Unavailable(error)) => {
            assert_eq!(error.message(), "Tensorlake run-process");
            assert_eq!(error.cause().as_deref(), Some("refused"));
        }
        other => panic!("{other:?}"),
    }
}

#[test]
fn a_start_that_cannot_be_read_is_final() {
    let undecodable = process_started("", answered(200, "{", Err("EOF".to_string())));
    match undecodable {
        Err(ProxyCallError::Failed(error)) => {
            assert_eq!(error.message(), "decoding Tensorlake start-process response");
            assert_eq!(error.cause().as_deref(), Some("EOF"));
        }
        other => panic!("{other:?}"),
    }
    let broken = Reply::Answered {
        status: status(200),
        body: ReplyBody::Unreadable { cause: "reset".to_string() },
    };
    assert!(matches!(
        process_started("", broken),
        Err(ProxyCallError::Failed(BackendError::UndecodableStart { .. }))
    ));
    assert!(matches!(
        process_started("", answered(504, "", Err(String::new()))),
        Err(ProxyCallError::Unavailable(_))
    ));
}

#[test]
fn a_process_is_reached_by_its_number() {
    let info =
        ProcessInfo { pid: -12, status: ProcessStatus::Running, exit_code: None, signal: None };
    let started = process_started("http://s", answered(201, "", Ok(info))).unwrap();
    assert_eq!(started.process_url, "http://s/api/v1/processes/-12");
    assert_eq!(started.stdout_url, "http://s/api/v1/processes/-12/stdout/follow");
    assert_eq!(started.stderr_url, "http://s/api/v1/processes/-12/stderr/follow");
}

#[test]
fn a_follower_stops_at_the_end_of_the_output() {
    let mut follower = OutputFollower::new();
    follower.push_chunk(b"event: ping\n\ndata: {}\n\nevent: eof\n\ndata: late\n\n");
    assert!(matches!(follower.next_event(), FollowPoll::Decode(data) if data == "{}"));
    assert!(matches!(follower.next_event(), FollowPoll::End));
}

#[test]
fn a_follower_ends_with_its_stream() {
    let mut follower = OutputFollower::new();
    follower.push_chunk(b"event: eofx\ndata: {}\n\n");
    assert!(matches!(follower.next_event(), FollowPoll::Decode(_)));
    assert!(matches!(follower.next_event(), FollowPoll::NeedMore));
    follower.end_of_stream();
    assert!(matches!(follower.next_event(), FollowPoll::End));
}

#[test]
fn an_output_line_is_written_with_a_line_feed() {
    let text = Some("gr\u{fc}n".to_string());
    let bytes = follow_output(String::new(), Ok(ProcessOutputEvent { line: text })).unwrap();
    assert_eq!(bytes.unwrap(), "gr\u{fc}n\n".as_bytes());
    let nothing = follow_output(String::new(), Ok(ProcessOutputEvent { line: None })).unwrap();
    assert!(nothing.is_none());
    let error = follow_output("x".to_string(), Err("bad".to_string())).unwrap_err();
    assert_eq!(error.message(), "decoding Tensorlake output event: x");
}

#[test]
fn a_follower_that_is_refused_says_so() {
    let error = follow_opened("u".to_string(), answered(500, "oops", Ok(()))).unwrap_err();
    assert_eq!(
        error.message(),
        "Tensorlake follow-output failed (500 Internal Server Error): oops"
    );
    let error =
        follow_opened("http://s/x".to_string(), Reply::Unsent { cause: "c".to_string() })
            .unwrap_err();
    assert_eq!(error.message(), "following Tensorlake process output at http://s/x");
    assert!(follow_opened(String::new(), answered(200, "", Ok(()))).is_ok());
}

#[test]
fn input_ends_with_a_close() {
    let read = StdinRead::Bytes { bytes: vec![1, 2] };
    assert!(matches!(stdin_read(read), StdinStep::Send { bytes } if bytes == vec![1, 2]));
    let none = StdinRead::Bytes { bytes: Vec::new() };
    assert!(matches!(stdin_read(none), StdinStep::Close));
    assert!(matches!(stdin_read(StdinRead::Broken), StdinStep::Close));
    assert!(matches!(stdin_sent(Some(status(204))), StdinStep::Read));
    assert!(matches!(stdin_sent(Some(status(409))), StdinStep::Close));
    assert!(matches!(stdin_sent(None), StdinStep::Close));
}

fn look(status: ProcessStatus, exit_code: Option<i32>, signal: Option<i32>) -> WaitStep {
    let info = ProcessInfo { pid: 1, status, exit_code, signal };
    wait_for_process_exit(process_seen(String::new(), answered(200, "", Ok(info))))
}

#[test]
fn a_process_is_awaited_until_it_is_no_longer_running() {
    assert!(matches!(look(ProcessStatus::Running, None, None), WaitStep::Wait));
    assert!(matches!(look(ProcessStatus::Exited, Some(3), None), WaitStep::Exited(3)));
    assert!(matches!(look(ProcessStatus::Signaled, None, Some(9)), WaitStep::Exited(137)));
    assert!(matches!(look(ProcessStatus::OomKilled, None, None), WaitStep::Exited(0)));
    let refused: Reply<ProcessInfo> = answered(404, "no such process", Err(String::new()));
    match wait_for_process_exit(process_seen("u".to_string(), refused)) {
        WaitStep::Failed(error) => assert_eq!(
            error.message(),
            "Tensorlake get-process failed (404 Not Found): no such process"
        ),
        other => panic!("{other:?}"),
    }
    let unsent: Reply<ProcessInfo> = Reply::Unsent { cause: "c".to_string() };
    let error = process_seen("http://p".to_string(), unsent).unwrap_err();
    assert_eq!(error.message(), "polling Tensorlake process at http://p");
}

#[test]
fn an_exit_code_is_reported_after_both_followers_had_their_time() {
    for code in [0, 137, -1] {
        for (drained, stream) in
            [(0, ProcessOutputStream::Stdout), (1, ProcessOutputStream::Stderr)]
        {
            match after_exit(code, drained) {
                ExitStep::Drain { follower, millis, code: kept } => {
                    assert_eq!(follower, stream);
                    assert_eq!(millis, 5000);
                    assert_eq!(kept, code);
                }
                other => panic!("{other:?}"),
            }
        }
        assert!(matches!(after_exit(code, 2), ExitStep::Exited(kept) if kept == code));
    }
}

#[test]
fn an_environment_has_one_value_for_each_name() {
    let env = Environment::new()
        .set("A".to_string(), "1".to_string())
        .set("B".to_string(), "2".to_string())
        .set("A".to_string(), "3".to_string());
    let mut pairs = env.clone().pairs().clone();
    pairs.sort();
    let expected =
        vec![("A".to_string(), "3".to_string()), ("B".to_string(), "2".to_string())];
    assert_eq!(pairs, expected);
    assert_eq!(env.pairs().len(), 2);
    assert!(Environment::new().pairs().is_empty());

    let mut run = command(&["a"], None);
    run.env = env;
    let (_, body) = run_process("", &String::new(), &run);
    let mut passed = body.env.pairs().clone();
    passed.sort();
    assert_eq!(passed, expected);
}
