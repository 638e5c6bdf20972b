use norenwake::app::{App, KeyCode, KeyEffect, KeyInput, KeyKind, PendingAction};
use norenwake::layout::Rect;
use norenwake::models::{ActivePane, Mode, Repo};
use norenwake::workflow::{StartupData, StartupPoll, StartupStep};

fn repo(name: &str) -> Repo {
    Repo {
        name: name.to_string(),
        full_name: format!("me/{}", name),
        clone_url: format!("https://github.com/me/{}.git", name),
        default_branch: "main".to_string(),
        private: false,
        fork: false,
        archived: false,
        updated_at: "2026-03-01T00:00:00Z".to_string(),
        description: None,
    }
}

fn press(code: KeyCode) -> KeyInput {
    KeyInput { code, kind: KeyKind::Press, shift: false, control: false }
}

fn loaded_app(names: &[&str]) -> App {
    let mut app = App::new(Vec::new(), 0, true);
    app.apply_startup_data(StartupData {
        github_token: "token".to_string(),
        github_login: "me".to_string(),
        repos: names.iter().map(|n| repo(n)).collect(),
        startup_tree_lines: vec!["src/".to_string(), "README.md".to_string()],
    });
    app
}

#[test]
fn app_can_initialize_before_startup_data_arrives() {
    let app = App::new(Vec::new(), 0, true);

    assert!(app.is_startup_loading());
    assert!(app.repos.is_empty());
    assert_eq!(app.github_token, "");
    assert_eq!(app.github_login, "");
    assert_eq!(app.readme_preview_markdown, "起動処理を読み込んでいます...");
}

#[test]
fn startup_data_is_applied_after_background_loading() {
    let mut app = App::new(Vec::new(), 0, false);

    app.apply_startup_data(StartupData {
        github_token: "token".to_string(),
        github_login: "me".to_string(),
        repos: vec![repo("repo-a")],
        startup_tree_lines: vec!["src".to_string(), "README.md".to_string()],
    });

    assert_eq!(app.github_token, "token");
    assert_eq!(app.github_login, "me");
    assert_eq!(app.repos.len(), 1);
    assert_eq!(app.repos[0].name, "repo-a");
    assert_eq!(app.repo_state.list.selected(), Some(0));
    assert_eq!(app.tree_state.list.selected(), Some(0));
    assert_eq!(
        app.current_tree_lines(),
        &["src".to_string(), "README.md".to_string()]
    );
}

#[test]
fn startup_error_is_retained_when_background_channel_disconnects() {
    let mut app = App::new(Vec::new(), 0, true);

    let step = app.drain_startup_updates(StartupPoll::Disconnected);

    assert!(!app.is_startup_loading());
    assert_eq!(
        app.startup_error.as_deref(),
        Some("起動処理チャネルが切断されました")
    );
    assert_eq!(app.readme_preview_title, "startup error");
    assert_eq!(
        app.readme_preview_markdown,
        "起動処理に失敗しました。log を確認してください"
    );
    match step {
        StartupStep::Failed(line) => assert_eq!(line, "error: 起動処理チャネルが切断されました"),
        _ => panic!("a disconnected start-up is a failure"),
    }
}

#[test]
fn a_failed_startup_reports_its_error_and_an_empty_poll_waits() {
    let mut app = App::new(Vec::new(), 0, true);
    assert!(matches!(app.drain_startup_updates(StartupPoll::Empty), StartupStep::Waiting));
    assert!(app.is_startup_loading());
    match app.drain_startup_updates(StartupPoll::Failed("gh がありません".to_string())) {
        StartupStep::Failed(line) => assert_eq!(line, "error: 起動処理に失敗しました: gh がありません"),
        _ => panic!("expected a failure"),
    }
    assert_eq!(app.startup_error.as_deref(), Some("gh がありません"));
}

#[test]
fn the_todo_list_starts_open() {
    let app = App::new(Vec::new(), 0, false);
    assert_eq!(app.status_items.len(), 5);
    assert!(app.status_items.iter().all(|i| !i.done));
    assert_eq!(app.status_items[1].label, "clone : repos で Enter を押して選択した repo を clone します");
    assert_eq!(app.remote_safety_lines, vec!["origin の安全性は未評価です".to_string()]);
    assert_eq!(app.new_repo_name, "my-new-repo");
}

#[test]
fn q_quits_and_question_mark_opens_help_which_swallows_keys() {
    let mut app = loaded_app(&["a", "b"]);
    app.handle_key(press(KeyCode::Char('?'))).unwrap();
    assert!(app.show_help);
    app.handle_key(press(KeyCode::Char('q'))).unwrap();
    assert!(!app.should_quit);
    app.handle_key(press(KeyCode::Esc)).unwrap();
    assert!(!app.show_help);
    app.handle_key(press(KeyCode::Char('q'))).unwrap();
    assert!(app.should_quit);
}

#[test]
fn cursors_start_and_stay_in_bounds() {
    let mut app = loaded_app(&["a", "b"]);
    assert!(app.cursors_in_bounds());
    app.handle_key(press(KeyCode::PageDown)).unwrap();
    assert!(app.cursors_in_bounds());
    app.repo_state.selected = usize::MAX;
    assert!(!app.cursors_in_bounds());
}

#[test]
fn released_keys_are_ignored() {
    let mut app = loaded_app(&["a", "b"]);
    let effects = app
        .handle_key(KeyInput { code: KeyCode::Down, kind: KeyKind::Release, shift: false, control: false })
        .unwrap();
    assert!(effects.is_empty());
    assert_eq!(app.repo_state.selected, 0);
}

#[test]
fn j_and_k_move_the_repository_cursor_within_bounds() {
    let mut app = loaded_app(&["a", "b", "c"]);
    let effects = app.handle_key(press(KeyCode::Char('j'))).unwrap();
    assert!(matches!(effects.as_slice(), [KeyEffect::RefreshReadmePreview]));
    assert_eq!(app.repo_state.selected, 1);
    app.handle_key(press(KeyCode::PageDown)).unwrap();
    assert_eq!(app.repo_state.selected, 2);
    app.handle_key(press(KeyCode::Char('k'))).unwrap();
    assert_eq!(app.repo_state.selected, 1);
    app.handle_key(press(KeyCode::PageUp)).unwrap();
    assert_eq!(app.repo_state.selected, 0);
    assert_eq!(app.repo_state.list.selected(), Some(0));
}

#[test]
fn without_a_clone_panes_alternate_between_repos_and_log() {
    let mut app = loaded_app(&["a"]);
    app.handle_key(press(KeyCode::Char('l'))).unwrap();
    assert_eq!(app.active_pane, ActivePane::Log);
    app.handle_key(press(KeyCode::Right)).unwrap();
    assert_eq!(app.active_pane, ActivePane::Repos);
    app.handle_key(press(KeyCode::Char('h'))).unwrap();
    assert_eq!(app.active_pane, ActivePane::Log);
}

#[test]
fn n_needs_a_clone_first() {
    let mut app = loaded_app(&["a"]);
    let err = app.handle_key(press(KeyCode::Char('n'))).unwrap_err();
    assert_eq!(err, "先に Enter で repo を clone してください");
    assert_eq!(app.mode, Mode::Normal);
}

#[test]
fn enter_on_the_list_schedules_a_clone() {
    let mut app = loaded_app(&["a"]);
    let effects = app.handle_key(press(KeyCode::Enter)).unwrap();
    assert!(matches!(effects.as_slice(), [KeyEffect::StartBusyTimer]));
    assert_eq!(app.pending_action, Some(PendingAction::CloneSelectedRepo));
    assert_eq!(app.busy_message.as_deref(), Some("Cloning repository..."));
    assert_eq!(app.take_pending_action(), Some(PendingAction::CloneSelectedRepo));
    assert_eq!(app.pending_action, None);
}

#[test]
fn the_filter_narrows_by_every_word_and_enter_selects() {
    let mut app = loaded_app(&["alpha-tool", "beta-tool", "alpha-lib"]);
    app.handle_key(press(KeyCode::Char('/'))).unwrap();
    assert_eq!(app.mode, Mode::FilteringRepos);
    for c in "ALPHA lib".chars() {
        app.handle_key(press(KeyCode::Char(c))).unwrap();
    }
    assert_eq!(app.repo_filter, "ALPHA lib");
    assert_eq!(app.filtered_repo_indices(), vec![2]);
    let effects = app.handle_key(press(KeyCode::Enter)).unwrap();
    assert!(matches!(effects.as_slice(), [KeyEffect::RefreshReadmePreviewChecked]));
    assert_eq!(app.mode, Mode::Normal);
    assert_eq!(app.repo_state.selected, 2);
    assert_eq!(app.repo_filter, "");
}

#[test]
fn esc_in_the_filter_restores_the_cursor() {
    let mut app = loaded_app(&["a", "b", "c"]);
    app.handle_key(press(KeyCode::Down)).unwrap();
    app.handle_key(press(KeyCode::Char('/'))).unwrap();
    app.handle_key(press(KeyCode::Char('j'))).unwrap();
    app.handle_key(press(KeyCode::Char('x'))).unwrap();
    assert!(app.filtered_repo_indices().is_empty());
    app.handle_key(press(KeyCode::Backspace)).unwrap();
    app.handle_key(press(KeyCode::Esc)).unwrap();
    assert_eq!(app.mode, Mode::Normal);
    assert_eq!(app.repo_state.selected, 1);
}

#[test]
fn the_log_scrolls_within_its_content() {
    let lines: Vec<String> = (0..50).map(|i| format!("line {}", i)).collect();
    let mut app = App::new(lines, 50, false);
    app.frame_area = Rect::new(0, 0, 80, 40);
    let panes = app.layout_rects(app.frame_area);
    let h = app.log_view_height(panes) as usize;
    assert_eq!(h, panes.log.height as usize - 2);
    let bottom = app.bottom_log_scroll(panes);
    assert_eq!(bottom as usize, 50 - h);
    app.scroll_log_down(1000, panes);
    assert_eq!(app.log_state.scroll, bottom);
    app.scroll_log_up(5);
    assert_eq!(app.log_state.scroll, bottom - 5);
    app.scroll_log_up(1000);
    assert_eq!(app.log_state.scroll, 0);
}

#[test]
fn a_click_selects_the_pane_under_the_mouse() {
    let mut app = loaded_app(&["a"]);
    let area = Rect::new(0, 0, 100, 40);
    let rects = app.layout_rects(area);
    assert!(app.handle_mouse(true, rects.log.x + 1, rects.log.y + 1, area));
    assert_eq!(app.active_pane, ActivePane::Log);
    assert!(!app.handle_mouse(false, rects.repos.x + 1, rects.repos.y + 1, area));
    assert_eq!(app.active_pane, ActivePane::Log);
    assert!(app.handle_mouse(true, rects.repos.x + 1, rects.repos.y + 1, area));
    assert_eq!(app.active_pane, ActivePane::Repos);
    assert!(rects.dir_tree.is_none());
}

#[test]
fn esc_after_any_filter_keys_restores_the_cursor_and_filter() {
    let mut app = loaded_app(&["alpha", "beta", "gamma", "delta"]);
    app.handle_key(press(KeyCode::Down)).unwrap();
    app.handle_key(press(KeyCode::Down)).unwrap();
    let before = app.repo_state;
    app.handle_key(press(KeyCode::Char('/'))).unwrap();
    let keys = [
        press(KeyCode::Char('a')),
        press(KeyCode::PageDown),
        press(KeyCode::Up),
        KeyInput { code: KeyCode::Down, kind: KeyKind::Repeat, shift: false, control: false },
        KeyInput { code: KeyCode::Char('z'), kind: KeyKind::Release, shift: false, control: false },
        press(KeyCode::Char('k')),
        press(KeyCode::Backspace),
        press(KeyCode::Backspace),
        press(KeyCode::Char('?')),
        press(KeyCode::PageUp),
        press(KeyCode::Left),
    ];
    for key in keys {
        app.handle_key(key).unwrap();
        assert_eq!(app.mode, Mode::FilteringRepos);
    }
    app.handle_key(press(KeyCode::Esc)).unwrap();
    assert_eq!(app.mode, Mode::Normal);
    assert_eq!(app.repo_filter, "");
    assert_eq!(app.repo_state.list.offset, before.list.offset);
    assert_eq!(app.repo_state.list.selected, before.list.selected);
    assert_eq!(app.repo_state.selected, 2);
    assert!(app.filter_restore_state.is_none());
}

#[test]
fn keys_answered_on_given_panes() {
    let lines: Vec<String> = (0..30).map(|i| format!("line {}", i)).collect();
    let mut app = App::new(lines, 30, false);
    let panes = app.layout_rects(Rect::new(0, 0, 80, 40));
    let mut small = panes;
    small.log.height = 12;
    app.handle_key_in(press(KeyCode::Char('l')), small).unwrap();
    assert_eq!(app.active_pane, ActivePane::Log);
    app.scroll_log_up(1000);
    assert_eq!(app.log_state.scroll, 0);
    app.handle_key_in(press(KeyCode::PageDown), small).unwrap();
    assert_eq!(app.log_state.scroll, 10);
    app.handle_key_in(press(KeyCode::PageDown), small).unwrap();
    assert_eq!(app.log_state.scroll, 20);
    app.handle_key_in(press(KeyCode::PageDown), small).unwrap();
    assert_eq!(app.log_state.scroll, 20);
    assert!(panes.dir_tree.is_none());
}
