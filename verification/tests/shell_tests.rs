use qqqa::shell::{classify_windows_shell, shell_hint_for_prompt, ShellKind};

#[test]
fn windows_posix_when_shell_env_mentions_bash() {
    let result = classify_windows_shell(Some("/usr/bin/bash".into()), false, false);
    assert_eq!(result, ShellKind::Posix);
}

#[test]
fn windows_powershell_when_only_ps_markers_present() {
    let result = classify_windows_shell(None, false, true);
    assert_eq!(result, ShellKind::PowerShell);
}

#[test]
fn windows_cmd_when_prompt_present_no_ps_markers() {
    let result = classify_windows_shell(None, true, false);
    assert_eq!(result, ShellKind::CmdExe);
}

#[test]
fn shell_names_and_hints() {
    assert_eq!(ShellKind::Posix.display_name(), "POSIX sh");
    assert_eq!(ShellKind::CmdExe.display_name(), "Windows cmd.exe");
    assert_eq!(ShellKind::PowerShell.display_name(), "Windows PowerShell");
    assert_eq!(shell_hint_for_prompt(ShellKind::Posix), "POSIX-compatible sh");
}

#[test]
fn windows_prompt_wins_over_markers() {
    // A PROMPT variable points at cmd.exe even when PowerShell markers exist.
    let result = classify_windows_shell(None, true, true);
    assert_eq!(result, ShellKind::CmdExe);
}
