use qqqa::history::{recent_supported_history, is_supported_history_command, HistoryFormat};
use qqqa::prompt::{
    build_qa_system_prompt, build_qa_user_message, build_qq_prompt, build_qq_system_prompt,
    coalesce_prompt_inputs, PromptInputs,
};

#[test]
fn prompt_builders_include_sections() {
    let hist = vec!["cmd1".to_string(), "cmd2".to_string()];
    let stdin_block = Some("input text\nline2");
    let qq = build_qq_prompt(Some("Linux"), &hist, stdin_block, "What is Rust?");
    assert!(qq.contains("Terminal History"));
    assert!(qq.contains("Input from pipe:"));
    assert!(qq.contains("Question: What is Rust?"));

    let sys = build_qa_system_prompt();
    assert!(sys.contains("Available tools"));
    let user = build_qa_user_message(Some("Linux"), &hist, stdin_block, "Do the thing");
    assert!(user.contains("Question: Do the thing"));
}

#[test]
fn coalesce_prompt_inputs_uses_piped_text_when_args_empty() {
    let prepared = coalesce_prompt_inputs(
        String::new(),
        Some("Show me the full contents of this directory\n".to_string()),
    );
    let PromptInputs {
        question,
        stdin_block,
    } = prepared;
    assert_eq!(question, "Show me the full contents of this directory");
    assert!(stdin_block.is_none());

    let prompt = build_qq_prompt(
        Some("Linux"),
        &Vec::new(),
        stdin_block.as_deref(),
        &question,
    );
    assert!(prompt.contains("Question: Show me the full contents of this directory"));
    assert!(!prompt.contains("Input from pipe:"));
}

#[test]
fn coalesce_keeps_cli_question_and_context() {
    let prepared = coalesce_prompt_inputs(
        "explain this".to_string(),
        Some("piped context".to_string()),
    );
    assert_eq!(prepared.question, "explain this");
    assert_eq!(prepared.stdin_block.as_deref(), Some("piped context"));
}

#[test]
fn qq_system_prompt_states_format_rules() {
    let sys = build_qq_system_prompt();
    assert!(sys.contains("FORMAT using XML tags:"));
    assert!(sys.contains("<cmd>command to run</cmd>"));
    assert!(sys.contains("TOPIC RESTRICTIONS:"));
}

#[test]
fn zsh_history_keeps_only_assistant_commands_and_limits() {
    let content = ": 1696971992:0;qq alpha\n\
: 1696971993:0;qa beta\n\
: 1696971994:0;ls -la\n\
: 1696971995:0;qq gamma\n\
: 1696971996:0;qa delta\n\
: 1696971997:0;git status\n\
: 1696971998:0;qq epsilon\n\
: 1696971999:0;qa zeta\n\
: 1696972000:0;qq eta\n\
: 1696972001:0;qa theta\n\
: 1696972002:0;qq iota\n\
: 1696972003:0;qa kappa\n\
: 1696972004:0;qq lambda\n";
    let got = recent_supported_history(content, HistoryFormat::Zsh, 10);
    assert_eq!(
        got,
        vec![
            "qa beta",
            "qq gamma",
            "qa delta",
            "qq epsilon",
            "qa zeta",
            "qq eta",
            "qa theta",
            "qq iota",
            "qa kappa",
            "qq lambda"
        ]
    );
}

#[test]
fn fish_and_plain_history_formats_are_understood() {
    let fish = "- cmd: qq one\nsomething else\n- cmd: ls\n- cmd: qa two\n";
    assert_eq!(
        recent_supported_history(fish, HistoryFormat::Fish, 10),
        vec!["qq one", "qa two"]
    );
    let plain = "qq first\nmake build\nqa second\n";
    assert_eq!(
        recent_supported_history(plain, HistoryFormat::Plain, 10),
        vec!["qq first", "qa second"]
    );
    assert!(is_supported_history_command("  qq hello"));
    assert!(!is_supported_history_command("sudo qq hello"));
}
