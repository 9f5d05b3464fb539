use qqqa::ai::{
    codex_cli_args, codex_prompt, find_double_newline, find_single_newline,
    parse_codex_response_for_test,
};

#[test]
fn codex_parser_returns_last_agent_message() {
    let payload = r#"{"type":"item.completed","item":{"id":"item_0","type":"reasoning","text":"Reasoning"}}
{"type":"item.completed","item":{"id":"item_1","type":"agent_message","text":"First"}}
{"type":"item.completed","item":{"id":"item_2","type":"agent_message","text":"Second"}}"#;
    let merged = payload.replace('\n', "\n");
    let parsed = parse_codex_response_for_test(&merged).expect("parse");
    assert_eq!(parsed, "First\n\nSecond");
}

#[test]
fn codex_parser_rejects_transcripts_without_messages() {
    assert!(parse_codex_response_for_test("").is_err());
    assert!(parse_codex_response_for_test("not json at all").is_err());
    let reasoning_only = r#"{"type":"item.completed","item":{"type":"reasoning","text":"hm"}}"#;
    assert!(parse_codex_response_for_test(reasoning_only).is_err());
}

#[test]
fn newline_finders_report_first_positions() {
    assert_eq!(find_double_newline(b"a\n\nb"), Some(2));
    assert_eq!(find_double_newline(b"ab"), None);
    assert_eq!(find_single_newline(b"ab\ncd"), Some(2));
    assert_eq!(find_single_newline(b"abcd"), None);
}

#[test]
fn codex_invocation_is_assembled_exactly() {
    let args = codex_cli_args(&Vec::new(), Some("minimal"));
    assert_eq!(
        args,
        vec![
            "exec",
            "--json",
            "-c",
            "model_reasoning_effort=minimal",
            "-c",
            "sandbox_mode=read-only",
            "-c",
            "tools.web_search=false",
            "-",
        ]
    );
    let custom = codex_cli_args(&vec!["run".to_string()], None);
    assert_eq!(custom[0], "run");
    assert_eq!(custom[3], "model_reasoning_effort=minimal");

    let prompt = codex_prompt("SYSTEM", "USER");
    assert_eq!(
        prompt,
        "<system-prompt>\nSYSTEM\n</system-prompt>\n\n<user-prompt>\nUSER\n</user-prompt>\n"
    );
}
