use norenwake::display::{Tone, ValidationLine};
use norenwake::app::App;
use norenwake::models::{Mode, Repo};
use norenwake::workflow::{
    commit_message, name_conflict_message, newest_candidate, stamped_line, staged_changes_check,
    CopyStep, PushAction, ReadmeSource, StartupData,
};

fn repo(name: &str) -> Repo {
    Repo {
        name: name.to_string(),
        full_name: format!("me/{}", name),
        clone_url: format!("https://github.com/me/{}.git", name),
        default_branch: "main".to_string(),
        private: false,
        fork: false,
        archived: false,
        updated_at: "2026-03-01T00:00:00Z".to_string(),
        description: None,
    }
}

fn loaded_app() -> App {
    let mut app = App::new(Vec::new(), 0, true);
    app.apply_startup_data(StartupData {
        github_token: "token".to_string(),
        github_login: "me".to_string(),
        repos: vec![repo("source"), repo("other")],
        startup_tree_lines: Vec::new(),
    });
    app
}

/// An app whose working copy was cloned, renamed to `tool`, found free and committed.
fn ready_app() -> App {
    let mut app = loaded_app();
    let source = app.clone_source().unwrap();
    app.apply_clone(source, "/work/my-new-repo".to_string());
    app.record_name_availability(true);
    app.edit_buffer = "  tool ".to_string();
    let name = app.name_candidate().unwrap();
    assert_eq!(name, "tool");
    app.check_name_availability(true).unwrap();
    app.apply_confirmed_name(name, "/work/tool".to_string());
    app.commit_precheck().unwrap();
    app.apply_commit(commit_message("tool"));
    app
}

#[test]
fn clone_starts_under_the_provisional_name() {
    let mut app = loaded_app();
    app.committed = true;
    let source = app.clone_source().unwrap();
    assert_eq!(source.name, "source");
    app.apply_clone(source, "/work/my-new-repo".to_string());
    let p = app.preview.as_ref().unwrap();
    assert_eq!(p.preview_dir, "/work/my-new-repo");
    assert!(p.file_list.is_empty());
    assert_eq!(app.new_repo_name, "my-new-repo");
    assert!(!app.name_confirmed);
    assert!(!app.committed);
    assert_eq!(app.readme_source(), ReadmeSource::WorkingCopy);
}

#[test]
fn nothing_to_clone_without_repositories() {
    let app = App::new(Vec::new(), 0, false);
    assert_eq!(app.clone_source().unwrap_err(), "repo がありません");
    assert_eq!(app.readme_source(), ReadmeSource::Nothing);
    assert_eq!(loaded_app().readme_source(), ReadmeSource::Listed(0));
}

#[test]
fn metadata_fills_the_tree_and_the_safety_report() {
    let mut app = loaded_app();
    let source = app.clone_source().unwrap();
    app.apply_clone(source, "/work/my-new-repo".to_string());
    app.apply_preview_metadata(
        vec!["src/".to_string(), "README.md".to_string()],
        String::new(),
        vec!["(差分はありません)".to_string()],
        Some("https://github.com/me/source.git".to_string()),
        None,
        None,
    );
    assert_eq!(app.current_tree_lines().len(), 2);
    assert_eq!(app.tree_state.list.selected(), Some(0));
    assert_eq!(app.remote_safety_lines[3], "NG: origin が暖簾分け元を向いています");
    assert_eq!(app.remote_safety_lines[4], "NG: push URL が未設定です");
    assert_eq!(
        app.preview.as_ref().unwrap().origin_url.as_deref(),
        Some("https://github.com/me/source.git")
    );
}

#[test]
fn an_empty_or_taken_name_is_refused() {
    let mut app = loaded_app();
    app.edit_buffer = "   ".to_string();
    assert_eq!(app.name_candidate().unwrap_err(), "新しい repo 名が空です");
    app.name_confirmed = true;
    assert_eq!(
        app.check_name_availability(false).unwrap_err(),
        "repo 名がすでに存在します。別の名前に変更してください"
    );
    assert!(!app.name_confirmed);
    assert_eq!(app.repo_name_available, Some(false));
    assert_eq!(
        name_conflict_message("taken"),
        "repo 名が衝突しています。別の名前にしてください: taken"
    );
    assert_eq!(app.rename_inputs().unwrap_err(), "先に clone が必要です");
}

#[test]
fn keeping_the_provisional_name_does_not_count_as_decided() {
    let mut app = loaded_app();
    let source = app.clone_source().unwrap();
    app.apply_clone(source, "/work/my-new-repo".to_string());
    app.apply_confirmed_name("my-new-repo".to_string(), "/work/my-new-repo".to_string());
    assert!(!app.name_confirmed);
    assert_eq!(
        app.commit_precheck().unwrap_err(),
        "新しい repo 名が未決定です。仮名のまま commit しないでください"
    );
    let (dir, name, url) = app.rename_inputs().unwrap();
    assert_eq!(dir, "/work/my-new-repo");
    assert_eq!(name, "source");
    assert_eq!(url, "https://github.com/me/source.git");
}

#[test]
fn commit_is_recorded_with_its_message() {
    let app = ready_app();
    assert!(app.committed);
    assert!(!app.pushed);
    assert_eq!(
        app.last_commit_message.as_deref(),
        Some("docs: initialize norenwake split as tool")
    );
    assert_eq!(app.preview.as_ref().unwrap().preview_dir, "/work/tool");
    assert_eq!(
        staged_changes_check(true).unwrap_err(),
        "commit 対象の staged change がありません"
    );
    assert!(staged_changes_check(false).is_ok());
}

#[test]
fn the_hard_guard_refuses_an_origin_pointing_at_the_source() {
    let app = ready_app();
    assert!(app.push_precheck().is_ok());
    let err = app
        .validate_before_push(
            Some("https://github.com/me/source.git"),
            Some("git@github.com:me/tool.git"),
            None,
        )
        .unwrap_err();
    assert_eq!(err, "ハードガードです。origin が暖簾分け元を向いているため push できません");
}

#[test]
fn push_validation_checks_every_remote() {
    let app = ready_app();
    let origin = "https://github.com/me/tool.git";
    let push = "git@github.com:me/tool.git";
    assert!(app.validate_before_push(Some(origin), Some(push), None).is_ok());
    assert_eq!(
        app.validate_before_push(Some("https://x/y.git"), Some(push), None).unwrap_err(),
        "origin が想定 push 先を向いていません"
    );
    assert_eq!(app.validate_before_push(None, Some(push), None).unwrap_err(), "origin が存在しません");
    assert_eq!(
        app.validate_before_push(Some(origin), Some(origin), None).unwrap_err(),
        "push URL が想定の SSH 宛先を向いていません"
    );
    assert_eq!(app.validate_before_push(Some(origin), None, None).unwrap_err(), "push URL が存在しません");
    assert_eq!(
        app.validate_before_push(Some(origin), Some(push), Some("https://github.com/me/source.git"))
            .unwrap_err(),
        "upstream が残っています。origin のみで運用してください"
    );
}

#[test]
fn push_needs_clone_name_commit_and_a_free_name() {
    let app = loaded_app();
    assert_eq!(app.push_precheck().unwrap_err(), "Enter で repo を clone してください");
    let mut app = ready_app();
    app.committed = false;
    assert_eq!(app.push_precheck().unwrap_err(), "commit がまだです");
    app.committed = true;
    app.repo_name_available = Some(false);
    assert_eq!(app.push_precheck().unwrap_err(), "repo 名が衝突しています");
    app.name_confirmed = false;
    assert_eq!(app.push_precheck().unwrap_err(), "新しい repo 名が未決定です");
}

#[test]
fn the_push_confirmation_lists_the_dry_run() {
    let mut app = ready_app();
    app.apply_preview_metadata(
        Vec::new(),
        String::new(),
        (0..25).map(|i| format!("+ line {}", i)).collect(),
        Some("https://github.com/me/tool.git".to_string()),
        Some("git@github.com:me/tool.git".to_string()),
        None,
    );
    app.prepare_push_confirm(
        Some("https://github.com/me/tool.git"),
        Some("git@github.com:me/tool.git"),
        None,
    )
    .unwrap();
    assert_eq!(app.mode, Mode::ConfirmPush);
    let lines = &app.dry_run_lines;
    assert_eq!(lines.len(), 15 + 20 + 2);
    assert_eq!(lines[0], "検証に合格しました");
    assert_eq!(lines[1], "source repo: me/source");
    assert_eq!(lines[2], "new repo:    tool");
    assert_eq!(lines[5], "workdir:     /work/tool");
    assert_eq!(lines[6], "repo name validation: OK: repo 名は未使用です");
    assert_eq!(lines[7], "origin target: https://github.com/me/tool.git");
    assert_eq!(lines[8], "push target:   git@github.com:me/tool.git");
    assert_eq!(lines[11], "upstream current: (none)");
    assert_eq!(lines[15], "+ line 0");
    assert_eq!(lines[34], "+ line 19");
    assert_eq!(lines[36], "y で push し、N で中止します");
}

#[test]
fn a_refused_push_leaves_the_confirmation_closed() {
    let mut app = ready_app();
    let before = app.dry_run_lines.clone();
    assert!(app.prepare_push_confirm(None, None, None).is_err());
    assert_eq!(app.mode, Mode::Normal);
    assert_eq!(app.dry_run_lines, before);
    app.finish_push();
    assert!(app.pushed);
    assert_eq!(app.mode, Mode::Normal);
}

#[test]
fn the_todo_list_follows_the_workflow() {
    let mut app = ready_app();
    app.refresh_status_items();
    let done: Vec<bool> = app.status_items.iter().map(|i| i.done).collect();
    assert_eq!(done, vec![false, true, true, true, false]);
    app.status_items.clear();
    app.finish_push();
    app.refresh_status_items();
    let done: Vec<bool> = app.status_items.iter().map(|i| i.done).collect();
    assert_eq!(done, vec![false, true, true, true, true]);
    assert_eq!(app.status_items[4].label, "push : Shift + P で検証して push します");
}

#[test]
fn a_blank_readme_says_so() {
    let mut app = loaded_app();
    app.show_readme("README.md".to_string(), "  \n".to_string());
    assert_eq!(app.readme_preview_title, "README.md");
    assert_eq!(app.readme_preview_markdown, "README.md は空です");
    app.show_readme("README.ja.md".to_string(), "# 本文".to_string());
    assert_eq!(app.readme_preview_markdown, "# 本文");
    app.show_no_readme();
    assert_eq!(app.readme_preview_markdown, "README.ja.md preview はありません");
    assert!(app.selected_repo_is("source"));
    assert!(!app.selected_repo_is("other"));
}

#[test]
fn log_lines_are_stamped_counted_and_capped() {
    let mut app = App::new(vec!["old".to_string()], 1, false);
    let line = stamped_line("2026-01-02 03:04:05", "hello");
    assert_eq!(line, "[2026-01-02 03:04:05] hello");
    app.record_log_line(line, true);
    assert_eq!(app.log_state.lines, vec!["old".to_string(), "[2026-01-02 03:04:05] hello".to_string()]);
    assert_eq!(app.log_file_line_count, 2);
    assert_eq!(app.log_state.scroll, 1);
    app.record_log_line("not written".to_string(), false);
    assert_eq!(app.log_file_line_count, 2);
    for i in 0..6000 {
        app.record_log_line(format!("{}", i), false);
    }
    assert_eq!(app.log_state.lines.len(), 5000);
    assert_eq!(app.log_state.lines[4999], "5999");
    assert_eq!(app.log_text().lines().count(), 5000);
}

#[test]
fn the_log_pane_follows_the_log_file() {
    let mut app = App::new(vec!["a".to_string(), "b".to_string()], 2, false);
    app.sync_log_view_from_file("a\nb\n");
    assert_eq!(app.log_state.lines.len(), 2);
    app.sync_log_view_from_file("a\nb\nc\r\nd\n");
    assert_eq!(app.log_state.lines, vec!["a", "b", "c", "d"]);
    assert_eq!(app.log_file_line_count, 4);
    assert_eq!(app.log_state.scroll, 3);
    app.sync_log_view_from_file("x\n");
    assert_eq!(app.log_state.lines, vec!["x"]);
    assert_eq!(app.log_file_line_count, 1);
    assert_eq!(app.log_state.scroll, 0);
}

#[test]
fn the_newest_working_copy_wins_and_the_last_of_equals() {
    assert_eq!(newest_candidate(&Vec::new()), None);
    assert_eq!(newest_candidate(&vec![None, Some(5), Some(3)]), Some(1));
    assert_eq!(newest_candidate(&vec![Some(5), None, Some(5)]), Some(2));
    assert_eq!(newest_candidate(&vec![None, None]), Some(1));
}

#[test]
fn the_whole_log_is_copied_as_one_text() {
    let app = App::new(vec!["a".to_string(), "b".to_string()], 2, false);
    assert_eq!(app.log_text(), "a\nb");
}

fn args_of(action: &PushAction) -> Vec<String> {
    match action {
        PushAction::SafeRemotes { origin_url, push_url } => vec![origin_url.clone(), push_url.clone()],
        PushAction::CreateRepo { args } => args.clone(),
        PushAction::Git { args } => args.clone(),
    }
}

#[test]
fn a_push_plan_comes_only_after_the_guard() {
    let app = ready_app();
    let origin = "https://github.com/me/tool.git";
    let push = "git@github.com:me/tool.git";
    let plan = app.push_plan(Some(origin), Some(push), None).unwrap();
    assert_eq!(plan.len(), 4);
    assert!(matches!(plan[0], PushAction::SafeRemotes { .. }));
    assert_eq!(args_of(&plan[0]), vec![origin.to_string(), push.to_string()]);
    assert!(matches!(plan[1], PushAction::CreateRepo { .. }));
    assert_eq!(args_of(&plan[1]), vec!["repo", "create", "tool", "--public"]);
    assert!(matches!(plan[2], PushAction::Git { .. }));
    assert_eq!(args_of(&plan[2]), vec!["push", "-u", "origin", "--all"]);
    assert!(matches!(plan[3], PushAction::Git { .. }));
    assert_eq!(args_of(&plan[3]), vec!["push", "origin", "--tags"]);
    let refused = app.push_plan(Some("https://github.com/me/source.git"), Some(push), None);
    assert_eq!(
        refused.err().unwrap(),
        "ハードガードです。origin が暖簾分け元を向いているため push できません"
    );
    assert!(app.push_plan(Some(origin), Some(push), Some("https://github.com/me/source.git")).is_err());
    assert!(loaded_app().push_plan(Some(origin), Some(push), None).is_err());
}

fn copy_step(step: &CopyStep) -> (&'static str, Vec<String>) {
    match step {
        CopyStep::Git { args } => ("git", args.clone()),
        CopyStep::MoveTo { name } => ("move", vec![name.clone()]),
        CopyStep::SafeRemotes { origin_url, push_url } => ("remotes", vec![origin_url.clone(), push_url.clone()]),
        CopyStep::WriteReadme { name } => ("readme", vec![name.clone()]),
    }
}

#[test]
fn a_clone_fixes_the_remotes_before_the_readme() {
    let app = loaded_app();
    let source = app.clone_source().unwrap();
    let plan: Vec<_> = app.clone_plan(&source).iter().map(copy_step).collect();
    assert_eq!(
        plan,
        vec![
            (
                "git",
                vec![
                    "clone".to_string(),
                    "https://github.com/me/source.git".to_string(),
                    "my-new-repo".to_string()
                ]
            ),
            (
                "remotes",
                vec![
                    "https://github.com/me/my-new-repo.git".to_string(),
                    "git@github.com:me/my-new-repo.git".to_string()
                ]
            ),
            ("readme", vec!["my-new-repo".to_string()]),
        ]
    );
}

#[test]
fn a_rename_moves_the_directory_remotes_and_readme_together() {
    let app = ready_app();
    let plan: Vec<_> = app.rename_plan("tool").iter().map(copy_step).collect();
    assert_eq!(
        plan,
        vec![
            ("move", vec!["tool".to_string()]),
            (
                "remotes",
                vec!["https://github.com/me/tool.git".to_string(), "git@github.com:me/tool.git".to_string()]
            ),
            ("readme", vec!["tool".to_string()]),
        ]
    );
}

fn describe(line: &ValidationLine) -> String {
    let tone = |t: &Tone| match t {
        Tone::Good => "good",
        Tone::Bad => "bad",
        Tone::Plain => "plain",
    };
    match line {
        ValidationLine::Text(t) => format!("text {}", t),
        ValidationLine::Toned(t, k) => format!("{} {}", tone(k), t),
        ValidationLine::Muted(t) => format!("muted {}", t),
        ValidationLine::Blank => "blank".to_string(),
        ValidationLine::Heading(t) => format!("heading {}", t),
        ValidationLine::Delta(a, p) => format!(
            "delta {} | {}",
            a,
            p.iter().map(|(l, k)| format!("{}:{}", tone(k), l)).collect::<Vec<_>>().join(",")
        ),
    }
}

#[test]
fn the_validation_pane_lists_name_remotes_and_diff() {
    let mut app = loaded_app();
    let before: Vec<String> = app.validation_lines().iter().map(describe).collect();
    assert_eq!(before[0], "text repo name: my-new-repo");
    assert_eq!(before[1], "muted name available: pending");
    assert_eq!(before[2], "blank");
    let source = app.clone_source().unwrap();
    app.apply_clone(source, "/work/my-new-repo".to_string());
    app.record_name_availability(false);
    let plain: Vec<String> = (0..25).map(|i| if i == 0 { "+ added".to_string() } else { format!("- gone {}", i) }).collect();
    app.apply_preview_metadata(
        Vec::new(),
        "\u{1b}[32m+ added\u{1b}[0m".to_string(),
        plain,
        Some("https://github.com/me/source.git".to_string()),
        None,
        None,
    );
    let lines: Vec<String> = app.validation_lines().iter().map(describe).collect();
    assert_eq!(lines[1], "bad name available: NG");
    let n = app.remote_safety_lines.len();
    assert_eq!(lines.len(), 3 + n + 3);
    assert_eq!(lines[3 + 3], "bad NG: origin が暖簾分け元を向いています");
    assert_eq!(lines[3 + n], "blank");
    assert_eq!(lines[3 + n + 1], "heading README.ja.md delta:");
    assert!(lines[3 + n + 2].starts_with("delta \u{1b}[32m+ added\u{1b}[0m | good:+ added,bad:- gone 1,"));
    assert_eq!(lines[3 + n + 2].matches("bad:").count(), 19);
    app.apply_preview_metadata(Vec::new(), " \n".to_string(), Vec::new(), None, None, None);
    let last = app.validation_lines().iter().map(describe).last().unwrap();
    assert_eq!(last, "muted (差分はありません)");
}
