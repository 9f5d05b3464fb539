use qqqa::shell::ShellKind;
use qqqa::tools::execute_command::{
    collect_stream_messages, confirmation_plan, format_summary, is_yes, sanitize_cwd_path,
    select_backend, should_use_pty, summarize_streams, ChildBackend, CollectedStreams,
    StreamMessage,
};
use qqqa::tools::{dispatch_tool_step, parse_tool_call, ToolCall, ToolDispatch};

#[test]
fn sanitize_cwd_allows_relative_subdir() {
    let (path, fell_back) = sanitize_cwd_path(Some("sub/child"), "/tmp/base", None);
    assert_eq!(path, "/tmp/base/sub/child");
    assert!(!fell_back);
}

#[test]
fn sanitize_cwd_rejects_parent_dirs() {
    let (path, fell_back) = sanitize_cwd_path(Some("../outside"), "/tmp/base", None);
    assert_eq!(path, "/tmp/base");
    assert!(fell_back);
}

#[test]
fn sanitize_cwd_rejects_absolute_outside() {
    let (path, fell_back) =
        sanitize_cwd_path(Some("/somewhere/else"), "/tmp/base", Some("/somewhere/else"));
    assert_eq!(path, "/tmp/base");
    assert!(fell_back);
}

#[test]
fn sanitize_cwd_accepts_absolute_inside_base() {
    let (path, fell_back) =
        sanitize_cwd_path(Some("/tmp/base/nested"), "/tmp/base", Some("/tmp/base/nested"));
    assert_eq!(path, "/tmp/base/nested");
    assert!(!fell_back);
}

#[test]
fn summary_reports_exit_code_and_streams() {
    let summary = format_summary(0, "test123\n", "");
    assert!(summary.contains("Exit code: 0"));
    assert!(summary.contains("test123"));
    assert_eq!(
        summary,
        "Exit code: 0\n--- stdout ---\ntest123\n--- stderr ---\n\n"
    );
    let failed = format_summary(-1, "out", "err");
    assert_eq!(failed, "Exit code: -1\n--- stdout ---\nout\n--- stderr ---\nerr\n");
}

#[test]
fn collector_accumulates_chunks_in_arrival_order() {
    let msgs = vec![
        StreamMessage::Stdout(b"first\n".to_vec()),
        StreamMessage::Stderr(b"warn\n".to_vec()),
        StreamMessage::Stdout(b"second\n".to_vec()),
    ];
    let collected = collect_stream_messages(&msgs).expect("no error message in stream");
    // Concatenating the callback fragments equals the stdout buffer.
    assert_eq!(collected.stdout, b"first\nsecond\n".to_vec());
    assert_eq!(collected.stderr, b"warn\n".to_vec());
}

#[test]
fn collector_aborts_on_stream_error() {
    let msgs = vec![
        StreamMessage::Stdout(b"partial".to_vec()),
        StreamMessage::Error("broken pipe".to_string()),
        StreamMessage::Stdout(b"ignored".to_vec()),
    ];
    let err = collect_stream_messages(&msgs).expect_err("error message aborts the drain");
    assert_eq!(err, "broken pipe");
}

#[test]
fn pty_decision_follows_force_and_disable_flags() {
    // Forcing wins over everything; disabling yields pipes unless forced.
    assert!(should_use_pty(true, false, false));
    assert!(should_use_pty(true, true, false));
    assert!(!should_use_pty(false, true, true));
    assert!(should_use_pty(false, false, true));
    assert!(!should_use_pty(false, false, false));
    assert_eq!(select_backend(ShellKind::Posix, true), ChildBackend::Pty);
    assert_eq!(select_backend(ShellKind::Posix, false), ChildBackend::Pipes);
    assert_eq!(select_backend(ShellKind::CmdExe, true), ChildBackend::Pipes);
    assert_eq!(select_backend(ShellKind::PowerShell, true), ChildBackend::Pipes);
}

#[test]
fn confirmation_plan_matches_flags() {
    let plan = confirmation_plan(false, true, false);
    assert!(!plan.warn_outside_home && !plan.ask_outside_home && !plan.ask_execute);
    let plan = confirmation_plan(true, true, false);
    assert!(plan.ask_execute);
    let plan = confirmation_plan(false, false, true);
    assert!(plan.warn_outside_home && plan.ask_outside_home && plan.ask_execute);
    let plan = confirmation_plan(false, true, true);
    assert!(plan.warn_outside_home && !plan.ask_outside_home && !plan.ask_execute);
}

#[test]
fn lossy_decoding_keeps_ascii_and_replaces_junk() {
    let streams = CollectedStreams {
        stdout: b"plain ascii".to_vec(),
        stderr: vec![0xff],
    };
    let summary = summarize_streams(0, &streams);
    assert_eq!(
        summary,
        "Exit code: 0\n--- stdout ---\nplain ascii\n--- stderr ---\n\u{fffd}\n"
    );
}

#[test]
fn yes_answers_are_recognized() {
    assert!(is_yes("y"));
    assert!(is_yes(" YES \n"));
    assert!(is_yes("\u{a0}yes\u{a0}"));
    assert!(!is_yes("no"));
    assert!(!is_yes(""));
}

#[test]
fn parse_tool_call_valid_and_invalid() {
    let json = r#"{"tool":"read_file","arguments":{"path":"a.txt"}}"#;
    let call = parse_tool_call(json).expect("should parse tool call");
    match call {
        ToolCall::ReadFile(args) => assert_eq!(args.path, "a.txt"),
        _ => panic!("unexpected tool type"),
    }

    let bad = r#"{"tool":"unknown","arguments":{}}"#;
    assert!(parse_tool_call(bad).is_err());
}

#[test]
fn dispatch_unwraps_json_wrapper() {
    let payload = r#"{"tool":"read_file","arguments":{"path":"hello.txt"}}"#;
    let step = dispatch_tool_step("json", payload);
    let (name, args) = match step {
        ToolDispatch::Wrapped(name, args) => (name, args),
        other => panic!("expected a wrapped call, got {:?}", other),
    };
    assert_eq!(name, "read_file");
    match dispatch_tool_step(&name, &args) {
        ToolDispatch::Call(ToolCall::ReadFile(a)) => assert_eq!(a.path, "hello.txt"),
        other => panic!("expected a read_file call, got {:?}", other),
    }
    assert!(matches!(
        dispatch_tool_step("never_heard_of_it", "{}"),
        ToolDispatch::Unknown
    ));
}

#[test]
fn dispatch_tolerates_wrapper_without_arguments() {
    let step = dispatch_tool_step("json", r#"{"tool":"read_file"}"#);
    match step {
        ToolDispatch::Wrapped(name, args) => {
            assert_eq!(name, "read_file");
            assert_eq!(args, "{}");
        }
        other => panic!("expected a wrapped call, got {:?}", other),
    }
}
