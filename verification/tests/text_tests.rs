use norenwake::delta::{
    filter_delta_output, is_delta_noise_line, rendering_without_diff, strip_ansi_sequences,
};
use norenwake::logging::{
    command_log_line, status_lines, stderr_log_line, stdout_log_line, tail_lines, COMMAND_SUCCESS_LOG,
};
use norenwake::models::{ActivePane, LogState, RepoListState, StatusItem, TreeListState};

#[test]
fn ansi_sequences_are_removed() {
    assert_eq!(strip_ansi_sequences("\u{1b}[31mred\u{1b}[0m text"), "red text");
    assert_eq!(strip_ansi_sequences("a\u{1b}b"), "ab");
    assert_eq!(strip_ansi_sequences("plain"), "plain");
}

#[test]
fn delta_decoration_is_noise() {
    assert!(is_delta_noise_line("   "));
    assert!(is_delta_noise_line("diff --git a/x b/x"));
    assert!(is_delta_noise_line("@@ -1 +1 @@"));
    assert!(is_delta_noise_line("──────┬─────"));
    assert!(is_delta_noise_line(" 12:"));
    assert!(!is_delta_noise_line(":"));
    assert!(!is_delta_noise_line("+ added line"));
}

#[test]
fn delta_output_keeps_content_lines_in_both_renderings() {
    let ansi = "\u{1b}[1mdiff --git a/R b/R\u{1b}[0m\n\u{1b}[32m+ new\u{1b}[0m\n───\n- old\n";
    let (kept_ansi, kept_plain) = filter_delta_output(ansi);
    assert_eq!(kept_ansi, "\u{1b}[32m+ new\u{1b}[0m\n- old");
    assert_eq!(kept_plain, vec!["+ new".to_string(), "- old".to_string()]);
    let (empty_ansi, notice) = filter_delta_output("───\n\n");
    assert_eq!(empty_ansi, "");
    assert_eq!(notice, vec!["(delta の出力は空です)".to_string()]);
}

#[test]
fn the_log_tail_keeps_the_newest_lines() {
    assert_eq!(tail_lines("a\nb\nc\n", 2), vec!["b".to_string(), "c".to_string()]);
    assert_eq!(tail_lines("a\nb", 5), vec!["a".to_string(), "b".to_string()]);
    assert!(tail_lines("", 5).is_empty());
    assert_eq!(status_lines(""), vec!["(clean)".to_string()]);
    assert_eq!(status_lines(" M a\n?? b\n"), vec![" M a".to_string(), "?? b".to_string()]);
}

#[test]
fn panes_cycle_in_both_directions() {
    let p = ActivePane::Repos;
    assert_eq!(p.next(), ActivePane::DirTree);
    assert_eq!(p.next().next(), ActivePane::Log);
    assert_eq!(p.next().next().next(), ActivePane::Repos);
    assert_eq!(p.previous(), ActivePane::Log);
    assert_eq!(p.next().previous(), p);
}

#[test]
fn log_state_scrolls_to_the_newest_line() {
    let mut log = LogState::new(Vec::new());
    assert_eq!(log.scroll, 0);
    log.on_new_line("one".to_string());
    assert_eq!(log.scroll, 0);
    log.on_new_line("two".to_string());
    assert_eq!(log.scroll, 1);
    assert_eq!(log.lines, vec!["one".to_string(), "two".to_string()]);
    let item = StatusItem::new(true, "x".to_string());
    assert!(item.done);
}

#[test]
fn list_cursors_stay_inside_their_lists() {
    let mut s = RepoListState::new(true);
    s.move_selection(5, 3);
    assert_eq!(s.selected, 2);
    s.move_selection(-10, 3);
    assert_eq!(s.selected, 0);
    s.move_selection(1, 0);
    assert_eq!(s.selected, 0);
    let mut t = TreeListState::new(true);
    t.move_selection(3, 10);
    t.sync_len(2);
    assert_eq!(t.selected, 1);
    assert_eq!(t.list.selected(), Some(1));
    t.sync_len(0);
    assert_eq!(t.list.selected(), None);
    t.move_selection(1, 0);
    assert_eq!(t.selected, 0);
}

#[test]
fn stripping_leaves_no_escape_and_is_stable() {
    let inputs = [
        "\u{1b}[31mred\u{1b}[0m plain",
        "a\u{1b}b\u{1b}[1;32mc",
        "\u{1b}[unterminated",
        "no colour at all",
        "",
    ];
    for input in inputs {
        let once = strip_ansi_sequences(input);
        assert!(!once.contains('\u{1b}'));
        assert!(once.len() <= input.len());
        assert_eq!(strip_ansi_sequences(&once), once);
    }
    assert_eq!(strip_ansi_sequences("no colour at all"), "no colour at all");
    assert_eq!(strip_ansi_sequences("a\u{1b}b\u{1b}[1;32mc"), "abc");
    assert_eq!(strip_ansi_sequences("x\u{1b}[12;3"), "x");
    assert_eq!(strip_ansi_sequences("x\u{1b}[unterminated"), "xnterminated");
}

#[test]
fn a_blank_diff_is_shown_without_delta() {
    let (ansi, plain) = rendering_without_diff("  \n\t\n").unwrap();
    assert_eq!(ansi, "");
    assert_eq!(plain, vec!["(差分はありません)".to_string()]);
    assert!(rendering_without_diff("").is_some());
    assert!(rendering_without_diff("diff --git a/x b/x\n").is_none());
}

#[test]
fn command_runs_are_logged_line_by_line() {
    let args = vec!["push".to_string(), "-u".to_string(), "origin".to_string()];
    assert_eq!(command_log_line("/work/tool", "git", &args), "$ (cwd=/work/tool) git push -u origin");
    assert_eq!(command_log_line("/w", "ls", &Vec::new()), "$ (cwd=/w) ls ");
    assert_eq!(stdout_log_line("done\n\n").as_deref(), Some("stdout: done"));
    assert_eq!(stderr_log_line("  warning: x  \n").as_deref(), Some("stderr:   warning: x"));
    assert_eq!(stdout_log_line(""), None);
    assert_eq!(stderr_log_line(""), None);
    assert_eq!(stdout_log_line("\n").as_deref(), Some("stdout: "));
    assert_eq!(COMMAND_SUCCESS_LOG, "success");
}
