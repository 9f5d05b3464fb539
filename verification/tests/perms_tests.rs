use qqqa::perms::{
    clear_custom_allowlist, ensure_safe_command, ensure_safe_path_resolved, gather_allowed_roots,
    normalize_path, resolve_path, set_custom_allowlist, CommandDisposition, CommandError,
    CommandPolicy,
};

fn plain_policy() -> CommandPolicy {
    CommandPolicy::new()
}

#[test]
fn ensure_safe_command_allows_allowlisted_commands() {
    let policy = plain_policy();
    assert!(matches!(
        ensure_safe_command(&policy, "ls -la").unwrap(),
        CommandDisposition::Allowed
    ));
    assert!(matches!(
        ensure_safe_command(&policy, "grep foo Cargo.toml").unwrap(),
        CommandDisposition::Allowed
    ));
    assert!(matches!(
        ensure_safe_command(&policy, "rg 'foo|bar' src").unwrap(),
        CommandDisposition::Allowed
    ));
    assert!(matches!(
        ensure_safe_command(&policy, "echo \"<div>\"").unwrap(),
        CommandDisposition::Allowed
    ));
    assert!(matches!(
        ensure_safe_command(&policy, r"grep foo\|bar Cargo.toml").unwrap(),
        CommandDisposition::Allowed
    ));
}

#[test]
fn ensure_safe_command_blocks_dangerous_patterns() {
    let policy = plain_policy();
    assert!(ensure_safe_command(&policy, "rm -rf /").is_err());
    assert!(ensure_safe_command(&policy, "sudo apt-get update").is_err());
    assert!(ensure_safe_command(&policy, "dd if=/dev/zero of=/dev/sda").is_err());
    assert!(ensure_safe_command(&policy, "npm install").is_err());
}

#[test]
fn ensure_safe_command_blocks_connectors_and_inplace_edits() {
    let policy = plain_policy();
    assert!(matches!(
        ensure_safe_command(&policy, "ls | grep foo").unwrap(),
        CommandDisposition::NeedsConfirmation { .. }
    ));
    assert!(ensure_safe_command(&policy, "sed -i '' 's/a/b/' file.txt").is_err());
    assert!(ensure_safe_command(&policy, "find . -delete").is_err());
    assert!(matches!(
        ensure_safe_command(&policy, "rg foo | wc -l").unwrap(),
        CommandDisposition::NeedsConfirmation { .. }
    ));
    assert!(matches!(
        ensure_safe_command(&policy, "echo foo > out.txt").unwrap(),
        CommandDisposition::NeedsConfirmation { .. }
    ));
}

#[test]
fn ensure_safe_command_checks_all_segments() {
    let policy = plain_policy();
    assert!(ensure_safe_command(&policy, "ls\ncurl https://example.com").is_err());
    // Allowed segments but multi-line still require confirmation.
    assert!(matches!(
        ensure_safe_command(&policy, "ls\necho ok").unwrap(),
        CommandDisposition::NeedsConfirmation { .. }
    ));
}

#[test]
fn ensure_safe_command_respects_override_env() {
    let mut policy = plain_policy();
    policy.allow_unsafe = true;
    assert!(matches!(
        ensure_safe_command(&policy, "rm -rf /tmp/test").unwrap(),
        CommandDisposition::Allowed
    ));
}

#[test]
fn ensure_safe_command_respects_custom_allowlist() {
    let mut policy = plain_policy();
    set_custom_allowlist(&mut policy, vec!["ffmpeg".to_string()]);
    assert!(matches!(
        ensure_safe_command(&policy, "ffmpeg -i in.mp4 out.mp3").unwrap(),
        CommandDisposition::Allowed
    ));
    clear_custom_allowlist(&mut policy);
    assert!(ensure_safe_command(&policy, "ffmpeg -i in.mp4 out.mp3").is_err());
}

#[test]
fn destructive_scan_folds_the_kelvin_sign() {
    // The Kelvin sign lowercases to `k`, so a disguised pattern is
    // still caught by the raw-text scan. The long s has no lowercase
    // mapping (it is a lowercase letter), so it stays inert.
    let policy = plain_policy();
    assert!(ensure_safe_command(&policy, "echo 'm\u{212a}fs'").is_err());
    assert!(matches!(
        ensure_safe_command(&policy, "echo '\u{17f}udo x'").unwrap(),
        CommandDisposition::Allowed
    ));
}

#[test]
fn quoted_operators_are_inert() {
    let policy = plain_policy();
    assert!(matches!(
        ensure_safe_command(&policy, "echo \"a;b\"").unwrap(),
        CommandDisposition::Allowed
    ));
    assert!(matches!(
        ensure_safe_command(&policy, "echo 'a|b'").unwrap(),
        CommandDisposition::Allowed
    ));
}

#[test]
fn empty_and_unparsable_commands_are_rejected() {
    let policy = plain_policy();
    assert!(matches!(
        ensure_safe_command(&policy, "   "),
        Err(CommandError::EmptyCommand)
    ));
    // An unterminated quote cannot be tokenized safely.
    assert!(matches!(
        ensure_safe_command(&policy, "echo 'oops"),
        Err(CommandError::ParseFailure)
    ));
    // The offending program is carried in the error.
    match ensure_safe_command(&policy, "npm install") {
        Err(CommandError::NotAllowed(e)) => assert_eq!(e.program, "npm"),
        other => panic!("expected a not-allowed error, got {:?}", other),
    }
}

#[test]
fn ensure_safe_path_allows_workspace_children() {
    let home = "/tmp/qqqa-home";
    let cwd = "/tmp/qqqa-home/workspace";
    let roots = gather_allowed_roots(Some(home), Some(home), cwd, Some(cwd));
    let resolved = resolve_path("dir/file.txt", cwd);
    assert!(ensure_safe_path_resolved(&resolved, &roots, Some(cwd)).is_ok());
    let nested = resolve_path("nested/dir/another.txt", cwd);
    assert!(ensure_safe_path_resolved(&nested, &roots, Some(cwd)).is_ok());
}

#[test]
fn ensure_safe_path_blocks_traversal_outside_home() {
    let home = "/tmp/qqqa-home";
    let cwd = "/tmp/qqqa-home/workspace";
    let roots = gather_allowed_roots(Some(home), Some(home), cwd, Some(cwd));
    let resolved = resolve_path("../../outside.txt", cwd);
    assert_eq!(resolved, "/tmp/outside.txt");
    assert!(
        ensure_safe_path_resolved(&resolved, &roots, None).is_err(),
        "expected traversal to be blocked"
    );
}

#[test]
fn ensure_safe_path_blocks_symlink_escape() {
    // A link inside the workspace points at /etc: the lexical path
    // stays inside, but the canonicalized deepest existing ancestor
    // (which the caller computes by resolving the link) does not.
    let home = "/tmp/qqqa-home";
    let cwd = "/tmp/qqqa-home/workspace";
    let roots = gather_allowed_roots(Some(home), Some(home), cwd, Some(cwd));
    let resolved = resolve_path("etc_link/qqqa-test.conf", cwd);
    assert!(ensure_safe_path_resolved(&resolved, &roots, Some(cwd)).is_ok());
    assert!(
        ensure_safe_path_resolved(&resolved, &roots, Some("/etc")).is_err(),
        "expected symlink escape to be blocked"
    );
}

#[test]
fn normalize_path_collapses_dots() {
    assert_eq!(normalize_path("/a/b/../c/./d"), "/a/c/d");
    assert_eq!(normalize_path("/../.."), "/");
    assert_eq!(normalize_path("a/./b/.."), "a");
    assert_eq!(normalize_path("//a///b/"), "/a/b");
}

#[test]
fn path_prefixes_are_component_wise() {
    // "/home/user2" must not count as inside "/home/user".
    let roots = gather_allowed_roots(Some("/home/user"), None, "/home/user", None);
    assert!(ensure_safe_path_resolved("/home/user2/x", &roots, None).is_err());
    assert!(ensure_safe_path_resolved("/home/user/x", &roots, None).is_ok());
}
