use norenwake::git_ops::{
    build_remote_safety_lines, build_target_origin_push_url, build_target_origin_url,
    command_failure_detail, ensure_safe_remotes, join_strings, remote_url_from_output,
    repo_create_error_is_ignorable,
};

#[test]
fn remote_safety_flags_dangerous_origin() {
    let source = "https://github.com/me/source.git";
    let expected = build_target_origin_url("me", "my-new-repo");
    let expected_push = build_target_origin_push_url("me", "my-new-repo");
    let lines = build_remote_safety_lines(
        source,
        Some(source),
        Some(source),
        Some(source),
        &expected,
        &expected_push,
    );
    assert!(lines
        .iter()
        .any(|l| l.contains("NG: origin が暖簾分け元を向いています")));
}

#[test]
fn target_addresses_are_https_for_fetch_and_ssh_for_push() {
    assert_eq!(build_target_origin_url("me", "tool"), "https://github.com/me/tool.git");
    assert_eq!(build_target_origin_push_url("me", "tool"), "git@github.com:me/tool.git");
}

#[test]
fn safety_report_of_a_safe_working_copy() {
    let source = "https://github.com/me/source.git";
    let expected = build_target_origin_url("me", "tool");
    let expected_push = build_target_origin_push_url("me", "tool");
    let lines = build_remote_safety_lines(
        source,
        Some(&expected),
        Some(&expected_push),
        None,
        &expected,
        &expected_push,
    );
    assert_eq!(
        lines,
        vec![
            "origin:   https://github.com/me/tool.git".to_string(),
            "pushurl:  git@github.com:me/tool.git".to_string(),
            "upstream: (none)".to_string(),
            "OK: origin は新しい repo を向いています".to_string(),
            "OK: push URL は SSH を向いています".to_string(),
            "OK: upstream は未設定です".to_string(),
        ]
    );
}

#[test]
fn safety_report_of_missing_and_foreign_remotes() {
    let source = "https://github.com/me/source.git";
    let lines = build_remote_safety_lines(
        source,
        Some("https://example.com/other.git"),
        None,
        Some("https://example.com/else.git"),
        "https://github.com/me/tool.git",
        "git@github.com:me/tool.git",
    );
    assert_eq!(lines[3], "NG: origin が想定 push 先を向いていません");
    assert_eq!(lines[4], "NG: push URL が未設定です");
    assert_eq!(lines[5], "NG: upstream が想定外の値です");
    let lines = build_remote_safety_lines(
        source,
        None,
        Some("https://example.com/other.git"),
        Some(source),
        "https://github.com/me/tool.git",
        "git@github.com:me/tool.git",
    );
    assert_eq!(lines[0], "origin:   (none)");
    assert_eq!(lines[3], "NG: origin が想定 push 先を向いていません");
    assert_eq!(lines[4], "NG: push URL が想定の SSH 宛先を向いていません");
    assert_eq!(lines[5], "NG: upstream が暖簾分け元を向いています");
}

fn strings(parts: &[&str]) -> Vec<String> {
    parts.iter().map(|p| p.to_string()).collect()
}

#[test]
fn remotes_are_fixed_by_removing_upstream_and_repointing_origin() {
    let cmds = ensure_safe_remotes(
        true,
        Some("https://github.com/me/source.git"),
        "https://github.com/me/tool.git",
        "git@github.com:me/tool.git",
    );
    assert_eq!(
        cmds,
        vec![
            strings(&["remote", "remove", "upstream"]),
            strings(&["remote", "set-url", "origin", "https://github.com/me/tool.git"]),
            strings(&["remote", "set-url", "--push", "origin", "git@github.com:me/tool.git"]),
        ]
    );
}

#[test]
fn a_missing_origin_is_added_and_a_right_one_kept() {
    let cmds = ensure_safe_remotes(false, None, "https://github.com/me/tool.git", "git@github.com:me/tool.git");
    assert_eq!(
        cmds,
        vec![
            strings(&["remote", "add", "origin", "https://github.com/me/tool.git"]),
            strings(&["remote", "set-url", "--push", "origin", "git@github.com:me/tool.git"]),
        ]
    );
    let cmds = ensure_safe_remotes(
        false,
        Some("https://github.com/me/tool.git"),
        "https://github.com/me/tool.git",
        "git@github.com:me/tool.git",
    );
    assert_eq!(
        cmds,
        vec![strings(&["remote", "set-url", "--push", "origin", "git@github.com:me/tool.git"])]
    );
}

#[test]
fn failure_detail_quotes_the_first_stderr_line_and_adds_hints() {
    let args = strings(&["push", "-u", "origin", "--all"]);
    let detail = command_failure_detail(
        "128",
        "git",
        &args,
        "\n  \nremote: Invalid username or token.\nfatal: Authentication failed\n",
    );
    assert_eq!(
        detail,
        "command failed (exit=128): git push -u origin --all / stderr: remote: Invalid username or token. / hint: origin の push URL を SSH に設定するか、HTTPS 認証設定を確認してください"
    );
    let detail = command_failure_detail("1", "git", &args, "refusing to allow an OAuth App to create or update workflow without `workflow` scope");
    assert!(detail.ends_with(" / hint: SSH push を使うか、workflow scope 付きの HTTPS 認証を使ってください"));
    let detail = command_failure_detail("unknown", "gh", &strings(&["repo", "create"]), "");
    assert_eq!(detail, "command failed (exit=unknown): gh repo create");
}

#[test]
fn failure_detail_cuts_a_long_stderr_line() {
    let long = "e".repeat(200);
    let detail = command_failure_detail("1", "git", &strings(&["status"]), &long);
    assert_eq!(
        detail,
        format!("command failed (exit=1): git status / stderr: {}...", "e".repeat(180))
    );
}

#[test]
fn an_existing_repository_is_not_an_error_for_the_push() {
    assert!(repo_create_error_is_ignorable("GraphQL: Name already exists on this account"));
    assert!(repo_create_error_is_ignorable("repo already exists"));
    assert!(!repo_create_error_is_ignorable("HTTP 401: Bad credentials"));
}

#[test]
fn remote_address_is_the_trimmed_output_of_a_successful_lookup() {
    assert_eq!(
        remote_url_from_output(true, "https://github.com/me/tool.git\n"),
        Some("https://github.com/me/tool.git".to_string())
    );
    assert_eq!(remote_url_from_output(false, "error: No such remote 'upstream'\n"), None);
}

#[test]
fn arguments_are_joined_with_the_separator() {
    assert_eq!(join_strings(&strings(&["a", "b", "c"]), " "), "a b c");
    assert_eq!(join_strings(&Vec::new(), " "), "");
}
