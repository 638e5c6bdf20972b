use norenwake::app::{App, KeyCode, KeyInput, KeyKind};
use norenwake::cache::{
    cache_write_targets, cached_readme_file, readme_file_name, readme_plan, CacheIndex, ReadmeFile,
    ReadmePlan,
};
use norenwake::display::{
    availability_label, confirm_line_tone, delta_line_tone, log_scroll_in_view, repo_row_style,
    safety_line_tone, spinner_frame, todo_mark, Overlay, Pane, RowStyle, Tone, TodoMark,
};
use norenwake::layout::{centered_rect, contains, expand_rect_within, popup_constraints, Constraint, Rect};
use norenwake::models::Repo;
use norenwake::paths::{app_data_dir, cache_dir, cache_index_path, data_dirs, work_dir};
use norenwake::tree::{collect_files, FsEntry};
use norenwake::workflow::StartupData;

fn repo(name: &str, updated_at: &str) -> Repo {
    Repo {
        name: name.to_string(),
        full_name: format!("me/{}", name),
        clone_url: format!("https://github.com/me/{}.git", name),
        default_branch: "main".to_string(),
        private: false,
        fork: false,
        archived: false,
        updated_at: updated_at.to_string(),
        description: None,
    }
}

fn file(name: &str) -> FsEntry {
    FsEntry { name: name.to_string(), is_dir: false, children: Vec::new() }
}

fn dir(name: &str, children: Vec<FsEntry>) -> FsEntry {
    FsEntry { name: name.to_string(), is_dir: true, children }
}

#[test]
fn the_tree_lists_directories_first_with_branches() {
    let entries = vec![
        file("README.md"),
        dir(".git", vec![file("HEAD")]),
        dir("src", vec![file("main.rs"), dir("bin", vec![file("x.rs")]), file("lib.rs")]),
        file("Cargo.toml"),
        dir("docs", vec![]),
    ];
    let lines = collect_files(&entries, 300);
    assert_eq!(
        lines,
        vec![
            "docs/",
            "src/",
            "|-- bin/",
            "|   `-- x.rs",
            "|-- lib.rs",
            "`-- main.rs",
            "Cargo.toml",
            "README.md",
        ]
    );
}

#[test]
fn nested_branches_use_bars_and_backticks() {
    let entries = vec![dir(
        "a",
        vec![dir("b", vec![dir("c", vec![file("f1"), file("f2")]), file("g")])],
    )];
    let lines = collect_files(&entries, 300);
    assert_eq!(
        lines,
        vec!["a/", "`-- b/", "    |-- c/", "    |   |-- f1", "    |   `-- f2", "    `-- g"]
    );
}

#[test]
fn the_tree_stops_at_the_limit_and_says_when_it_is_empty() {
    let entries = vec![file("a"), file("b"), file("c")];
    assert_eq!(collect_files(&entries, 2), vec!["a", "b"]);
    assert_eq!(collect_files(&Vec::new(), 300), vec!["(empty)"]);
    assert_eq!(collect_files(&vec![dir(".git", vec![])], 300), vec!["(empty)"]);
    assert_eq!(collect_files(&entries, 0), vec!["(empty)"]);
}

#[test]
fn cache_index_gives_back_what_was_recorded() {
    let mut index = CacheIndex::new();
    assert_eq!(index.get("tool"), None);
    index.insert("tool".to_string(), "2026-01-01".to_string());
    index.insert("lib".to_string(), "2026-02-01".to_string());
    index.insert("tool".to_string(), "2026-03-01".to_string());
    assert_eq!(index.get("tool"), Some("2026-03-01".to_string()));
    assert_eq!(index.get("lib"), Some("2026-02-01".to_string()));
    assert_eq!(index.pairs().len(), 2);
    let copy = index.snapshot();
    assert_eq!(copy.get("lib"), Some("2026-02-01".to_string()));
    assert!(index.is_fresh(&repo("tool", "2026-03-01")));
    assert!(!index.is_fresh(&repo("tool", "2026-04-01")));
    assert!(!index.prefetch_needed(&repo("tool", "2026-03-01"), true));
    assert!(index.prefetch_needed(&repo("tool", "2026-03-01"), false));
    assert!(index.prefetch_needed(&repo("new", "2026-03-01"), true));
}

#[test]
fn readme_cache_prefers_the_japanese_file() {
    assert_eq!(cached_readme_file(true, true), Some(ReadmeFile::Ja));
    assert_eq!(cached_readme_file(false, true), Some(ReadmeFile::Md));
    assert_eq!(cached_readme_file(false, false), None);
    assert_eq!(readme_plan(true, false, true), ReadmePlan::ReadCached(ReadmeFile::Md));
    assert_eq!(readme_plan(false, true, true), ReadmePlan::Fetch);
    assert_eq!(readme_plan(true, false, false), ReadmePlan::Fetch);
    assert_eq!(cache_write_targets("README.ja.md"), (ReadmeFile::Ja, ReadmeFile::Md));
    assert_eq!(cache_write_targets("README.md"), (ReadmeFile::Md, ReadmeFile::Ja));
    assert_eq!(readme_file_name(ReadmeFile::Ja), "README.ja.md");
}

#[test]
fn spinner_turns_every_quarter_second() {
    assert_eq!(spinner_frame(None), "-");
    assert_eq!(spinner_frame(Some(0)), "-");
    assert_eq!(spinner_frame(Some(260)), "\\");
    assert_eq!(spinner_frame(Some(500)), "|");
    assert_eq!(spinner_frame(Some(999)), "/");
    assert_eq!(spinner_frame(Some(1000)), "-");
}

#[test]
fn lines_are_coloured_by_their_verdict() {
    assert_eq!(safety_line_tone("OK: upstream は未設定です"), Tone::Good);
    assert_eq!(safety_line_tone("NG: push URL が未設定です"), Tone::Bad);
    assert_eq!(safety_line_tone("origin:   (none)"), Tone::Plain);
    assert_eq!(confirm_line_tone("検証に合格しました"), Tone::Good);
    assert_eq!(confirm_line_tone("repo name validation: NG: repo 名がすでに存在します"), Tone::Bad);
    assert_eq!(delta_line_tone("  + added"), Tone::Good);
    assert_eq!(delta_line_tone("-removed"), Tone::Bad);
    assert_eq!(delta_line_tone("  context"), Tone::Plain);
    assert_eq!(delta_line_tone(""), Tone::Plain);
    assert_eq!(availability_label(Some(true)), ("name available: OK", Tone::Good));
    assert_eq!(availability_label(None), ("name available: pending", Tone::Plain));
    assert_eq!(todo_mark("移動 : h / l", true), TodoMark::Navigation);
    assert_eq!(todo_mark("commit : c", true), TodoMark::Done);
    assert_eq!(todo_mark("commit : c", false), TodoMark::Open);
    assert_eq!(repo_row_style(true, true), RowStyle::Highlight);
    assert_eq!(repo_row_style(true, false), RowStyle::Normal);
    assert_eq!(repo_row_style(false, true), RowStyle::Dim);
}

#[test]
fn log_scroll_never_passes_the_last_page() {
    assert_eq!(log_scroll_in_view(100, 22, 500), 80);
    assert_eq!(log_scroll_in_view(100, 22, 10), 10);
    assert_eq!(log_scroll_in_view(5, 22, 3), 0);
    assert_eq!(log_scroll_in_view(5, 1, 9), 5);
}

#[test]
fn panes_and_popups_follow_the_state() {
    let mut app = App::new(Vec::new(), 0, false);
    assert_eq!(app.top_panes(), vec![Pane::Todo, Pane::Repos, Pane::Readme]);
    assert!(app.overlays().is_empty());
    app.is_focused = false;
    app.show_help = true;
    app.busy_message = Some("x".to_string());
    assert_eq!(app.overlays(), vec![Overlay::FocusDim, Overlay::Help, Overlay::Busy]);
}

#[test]
fn the_filter_popup_shows_a_window_around_the_selection() {
    let mut app = App::new(Vec::new(), 0, false);
    app.apply_startup_data(StartupData {
        github_token: String::new(),
        github_login: String::new(),
        repos: (0..30).map(|i| repo(&format!("r{:02}", i), "2026")).collect(),
        startup_tree_lines: Vec::new(),
    });
    app.handle_key(KeyInput { code: KeyCode::Char('/'), kind: KeyKind::Press, shift: false, control: false })
        .unwrap();
    assert!(app.overlays().contains(&Overlay::Filter));
    for _ in 0..20 {
        app.handle_key(KeyInput { code: KeyCode::Down, kind: KeyKind::Press, shift: false, control: false })
            .unwrap();
    }
    let rows = app.filter_rows(15);
    assert_eq!(rows.len(), 10);
    assert_eq!(rows[0].0, "r15");
    assert!(rows[5].1);
    assert_eq!(rows[5].0, "r20");
    app.handle_key(KeyInput { code: KeyCode::Char('z'), kind: KeyKind::Press, shift: false, control: false })
        .unwrap();
    assert!(app.filter_rows(15).is_empty());
}

#[test]
fn popups_are_centred_and_guarded_inside_the_screen() {
    let area = Rect::new(0, 0, 100, 50);
    let popup = centered_rect(70, 74, area);
    assert!(popup.width <= 70 && popup.width >= 69);
    assert!(popup.x >= 14 && popup.x <= 16);
    let guard = expand_rect_within(popup, area, 1, 1, 0, 0);
    assert_eq!(guard.x, popup.x - 1);
    assert_eq!(guard.width, popup.width + 2);
    let edge = expand_rect_within(Rect::new(0, 0, 100, 50), area, 1, 1, 0, 0);
    assert_eq!(edge, area);
    assert!(contains(Rect::new(2, 3, 4, 5), 2, 3));
    assert!(!contains(Rect::new(2, 3, 4, 5), 6, 3));
    assert_eq!(Rect::new(65530, 0, 100, 1).width, 5);
}

#[test]
fn data_directories_sit_under_the_application_directory() {
    let base = app_data_dir("/home/me/.local/share");
    assert!(base == "/home/me/.local/share/norenwake" || base == "/home/me/.local/share\\norenwake");
    let sep = std::path::MAIN_SEPARATOR;
    assert_eq!(work_dir("/data/"), "/data/work");
    assert_eq!(cache_dir("/data"), format!("/data{}caches", sep));
    assert_eq!(cache_index_path("/data"), format!("/data{}caches{}caches.json", sep, sep));
    assert_eq!(work_dir(""), "work");
}

#[test]
fn all_data_paths_share_one_separator() {
    let sep = std::path::MAIN_SEPARATOR;
    let dirs = data_dirs("/home/me/.local/share");
    assert_eq!(dirs.app, format!("/home/me/.local/share{}norenwake", sep));
    assert_eq!(dirs.work, format!("{}{}work", dirs.app, sep));
    assert_eq!(dirs.cache, format!("{}{}caches", dirs.app, sep));
    assert_eq!(dirs.cache_index, format!("{}{}caches{}caches.json", dirs.app, sep, sep));
    assert!(dirs.cache_index.starts_with(&dirs.app));
    assert_eq!(dirs.app, app_data_dir("/home/me/.local/share"));
    assert_eq!(dirs.cache_index, cache_index_path(&dirs.app));
}

#[test]
fn popup_bands_have_equal_margins() {
    assert_eq!(
        popup_constraints(70),
        vec![Constraint::Percentage(15), Constraint::Percentage(70), Constraint::Percentage(15)]
    );
    assert_eq!(
        popup_constraints(75),
        vec![Constraint::Percentage(12), Constraint::Percentage(75), Constraint::Percentage(12)]
    );
    assert_eq!(
        popup_constraints(100),
        vec![Constraint::Percentage(0), Constraint::Percentage(100), Constraint::Percentage(0)]
    );
}

#[test]
fn the_tree_pane_keeps_within_its_limit_and_skips_git() {
    let entries = vec![
        dir(".git", vec![file("HEAD")]),
        dir("src", vec![dir(".git", vec![]), file("a.rs"), file("b.rs")]),
        file("z.txt"),
    ];
    for limit in 0..8 {
        let lines = collect_files(&entries, limit);
        assert!(!lines.is_empty());
        assert!(lines.len() <= limit.max(1));
        assert!(lines.iter().all(|l| !l.contains(".git")));
    }
    assert_eq!(collect_files(&entries, 0), vec!["(empty)"]);
    assert_eq!(collect_files(&entries, 2), vec!["src/", "|-- a.rs"]);
    assert_eq!(collect_files(&[dir(".git", vec![])].into_iter().collect::<Vec<_>>(), 5), vec!["(empty)"]);
}

#[test]
fn panes_and_popups_lie_inside_the_screen() {
    let app = App::new(Vec::new(), 0, false);
    let area = Rect::new(3, 2, 90, 41);
    let (rows, cols) = app.screen_areas(area);
    assert_eq!(rows.len(), 4);
    for r in &rows {
        assert_eq!((r.x, r.width), (area.x, area.width));
        assert!(r.y >= area.y && r.y + r.height <= area.y + area.height);
    }
    for c in &cols {
        assert_eq!((c.y, c.height), (rows[1].y, rows[1].height));
        assert!(c.x >= area.x && c.x + c.width <= area.x + area.width);
    }
    let panes = app.layout_rects(area);
    assert_eq!((panes.log.x, panes.log.width), (area.x, area.width));
    let popup = centered_rect(60, 40, area);
    assert!(popup.x >= area.x && popup.x + popup.width <= area.x + area.width);
    assert!(popup.y >= area.y && popup.y + popup.height <= area.y + area.height);
    let mut app = app;
    assert!(app.handle_mouse(true, 0, 0, area));
    assert!(!app.handle_mouse(false, 0, 0, area));
}
