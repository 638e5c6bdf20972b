//! The steps of the spin-off that change the application state: start-up, the TODO
//! list, the log pane, and the clone / rename / commit / push decisions. The git,
//! GitHub and file-system work between the steps is done by the caller, which hands
//! the results in.
use vstd::prelude::*;

use crate::app::{App, AppView, PendingAction};
use crate::git_ops::{
    build_remote_safety_lines, build_target_origin_push_url, build_target_origin_url, opt_view,
    remote_safety_report, shown, target_origin_url, target_push_url,
};
use crate::layout::Rect;
use crate::models::{
    appended_log, bottom_scroll, first_row, ActivePane, LogState, Mode, PreviewState, PreviewView,
    Repo, RepoListState, StatusItem, TreeListState, DEFAULT_NEW_REPO, MAX_LOG_LINES,
};
use crate::text::{
    from_chars, lemma_string_views_push, lines, opt_string_view, split_lines, str_eq, string_of, string_views, to_chars,
    trim, trim_str,
};

verus! {

broadcast use vstd::string::group_string_axioms;

// ---------------------------------------------------------------------------
// The TODO list
// ---------------------------------------------------------------------------

pub open spec fn status_labels() -> Seq<Seq<char>> {
    seq![
        "移動 : h / l / ← / → で pane を移動します"@,
        "clone : repos で Enter を押して選択した repo を clone します"@,
        "new repo name : n で新しい repo 名を編集します"@,
        "commit : c で local commit を実行します"@,
        "push : Shift + P で検証して push します"@,
    ]
}

fn default_status_items() -> (r: Vec<StatusItem>)
    ensures
        r@.len() == 5,
        forall|i: int| 0 <= i < 5 ==> #[trigger] r@[i].label@ == status_labels()[i],
        forall|i: int| 0 <= i < 5 ==> !(#[trigger] r@[i].done),
{
    let r = vec![
        StatusItem::new(false, string_of("移動 : h / l / ← / → で pane を移動します")),
        StatusItem::new(false, string_of("clone : repos で Enter を押して選択した repo を clone します")),
        StatusItem::new(false, string_of("new repo name : n で新しい repo 名を編集します")),
        StatusItem::new(false, string_of("commit : c で local commit を実行します")),
        StatusItem::new(false, string_of("push : Shift + P で検証して push します")),
    ];
    r
}

/// What a log keeps of the lines `s`: the newest `MAX_LOG_LINES` of them.
pub open spec fn log_kept(s: Seq<Seq<char>>) -> Seq<Seq<char>> {
    if s.len() > MAX_LOG_LINES {
        s.skip(s.len() - MAX_LOG_LINES)
    } else {
        s
    }
}

pub open spec fn saturating_inc(n: usize) -> usize {
    if n == usize::MAX {
        n
    } else {
        (n + 1) as usize
    }
}

impl AppView {
    /// Which TODO entries are done: moving between panes never is; clone, name,
    /// commit and push are once they happened.
    pub open spec fn status_flags(self) -> Seq<bool> {
        seq![
            false,
            self.preview is Some,
            self.name_confirmed && self.repo_name_available == Some(true),
            self.committed,
            self.pushed,
        ]
    }

    /// The TODO list with its five entries (restored when they were lost) marked.
    pub open spec fn status_refreshed(self) -> AppView {
        let labels = if self.status_items.len() != 5 {
            status_labels()
        } else {
            self.status_items.map_values(|p: (bool, Seq<char>)| p.1)
        };
        AppView {
            status_items: Seq::new(5, |i: int| (self.status_flags()[i], labels[i])),
            ..self
        }
    }

    /// The state after a line was written to the log pane (and, when `appended`, to
    /// the log file too).
    pub open spec fn logged(self, line: Seq<char>, appended: bool) -> AppView {
        let kept = log_kept(self.log_lines.push(line));
        AppView {
            log_lines: kept,
            log_scroll: bottom_scroll(kept.len()),
            log_file_line_count: if appended {
                saturating_inc(self.log_file_line_count)
            } else {
                self.log_file_line_count
            },
            ..self
        }
    }

    /// The log pane caught up with the log file, whose lines are `file_lines`: a file
    /// that shrank is shown anew (its newest lines), one that grew has its new lines
    /// appended, one of the known length changes nothing.
    pub open spec fn log_synced(self, file_lines: Seq<Seq<char>>) -> AppView {
        let total = file_lines.len();
        let known = self.log_file_line_count as int;
        if total < known {
            let kept = log_kept(file_lines);
            AppView {
                log_lines: kept,
                log_scroll: bottom_scroll(kept.len()),
                log_file_line_count: total as usize,
                ..self
            }
        } else if total == known {
            self
        } else {
            let kept = log_kept(self.log_lines + file_lines.skip(known));
            AppView {
                log_lines: kept,
                log_scroll: bottom_scroll(kept.len()),
                log_file_line_count: total as usize,
                ..self
            }
        }
    }
}

/// What `App::new` starts with: no repositories, token or login until the
/// background start-up reports, and the log lines read from the log file.
pub open spec fn initial_view(
    log_lines: Seq<Seq<char>>,
    log_file_line_count: usize,
    startup_loading: bool,
) -> AppView {
    AppView {
        repos: Seq::empty(),
        repo_state: RepoListState { selected: 0, list: first_row(false) },
        new_repo_name: "my-new-repo"@,
        edit_buffer: "my-new-repo"@,
        name_confirmed: false,
        preview: None,
        status_items: Seq::new(5, |i: int| (false, status_labels()[i])),
        dry_run_lines: Seq::empty(),
        mode: Mode::Normal,
        should_quit: false,
        committed: false,
        pushed: false,
        last_commit_message: None,
        log_lines,
        log_scroll: 0,
        show_help: false,
        github_token: Seq::empty(),
        github_login: Seq::empty(),
        repo_name_available: None,
        remote_safety_lines: seq!["origin の安全性は未評価です"@],
        active_pane: ActivePane::Repos,
        tree_state: TreeListState { selected: 0, list: first_row(false) },
        startup_tree_lines: Seq::empty(),
        busy_message: None,
        is_focused: true,
        frame_area: Rect { x: 0, y: 0, width: 0, height: 0 },
        repo_filter: Seq::empty(),
        filter_state: RepoListState { selected: 0, list: first_row(false) },
        readme_preview_title: "README.ja.md"@,
        readme_preview_markdown: if startup_loading {
            "起動処理を読み込んでいます..."@
        } else {
            "README.ja.md preview を読み込みます"@
        },
        filter_restore_state: None,
        pending_action: None,
        log_file_line_count,
        startup_loading,
        startup_error: None,
    }
}

/// What the background start-up hands over: the token, the login, the repositories
/// to list and the directory tree found in the work directory.
pub struct StartupData {
    pub github_token: String,
    pub github_login: String,
    pub repos: Vec<Repo>,
    pub startup_tree_lines: Vec<String>,
}

/// What polling the background start-up gave.
pub enum StartupPoll {
    Ready(StartupData),
    Failed(String),
    /// Nothing yet.
    Empty,
    /// The start-up went away without reporting.
    Disconnected,
}

/// What the caller does after a poll of the start-up.
pub enum StartupStep {
    /// The data is in: start the README prefetch and load the README pane.
    Applied,
    /// Keep polling.
    Waiting,
    /// The start-up failed; write this line to the log.
    Failed(String),
}

/// The log line a failed start-up step carries.
pub open spec fn step_line(step: StartupStep) -> Option<Seq<char>> {
    match step {
        StartupStep::Failed(line) => Some(line@),
        _ => None,
    }
}

impl AppView {
    /// The state once the start-up data is in: the repositories listed with the
    /// cursor on the first one, and the directory tree it found.
    pub open spec fn startup_applied(
        self,
        token: Seq<char>,
        login: Seq<char>,
        repos: Seq<Repo>,
        tree: Seq<Seq<char>>,
    ) -> AppView {
        let tree_len: nat = match self.preview {
            Some(p) => p.file_list.len(),
            None => tree.len(),
        };
        AppView {
            github_token: token,
            github_login: login,
            repos,
            repo_state: RepoListState { selected: 0, list: first_row(repos.len() > 0) },
            filter_state: RepoListState { selected: 0, list: first_row(repos.len() > 0) },
            startup_tree_lines: tree,
            tree_state: TreeListState { selected: 0, list: first_row(tree.len() > 0) }.synced(
                tree_len as usize,
            ),
            startup_loading: false,
            ..self
        }
    }

    /// The state after the start-up failed with `error`.
    pub open spec fn startup_failed(self, error: Seq<char>) -> AppView {
        AppView {
            startup_loading: false,
            startup_error: Some(error),
            readme_preview_title: "startup error"@,
            readme_preview_markdown: "起動処理に失敗しました。log を確認してください"@,
            ..self
        }
    }
}

proof fn lemma_string_views_skip(s: Seq<String>, k: int)
    requires
        0 <= k <= s.len(),
    ensures
        string_views(s.skip(k)) == string_views(s).skip(k),
{
    assert(string_views(s.skip(k)) =~= string_views(s).skip(k));
}

proof fn lemma_appended_log_view(lines: Seq<String>, line: String)
    ensures
        string_views(appended_log(lines, line)) == log_kept(string_views(lines).push(line@)),
{
    lemma_string_views_push(lines, line);
    let all = lines.push(line);
    if all.len() > MAX_LOG_LINES {
        lemma_string_views_skip(all, all.len() - MAX_LOG_LINES);
    }
}

/// Keeping the newest lines after each append keeps the newest lines of the whole.
proof fn lemma_log_kept_push(s: Seq<Seq<char>>, x: Seq<char>)
    ensures
        log_kept(log_kept(s).push(x)) == log_kept(s.push(x)),
{
    if s.len() > MAX_LOG_LINES {
        assert(log_kept(log_kept(s).push(x)) =~= log_kept(s.push(x)));
    }
}

impl App {
    /// The application as it starts, with the log lines read from the log file and
    /// the number of lines that file had; `startup_loading` tells whether the
    /// background start-up is still to report.
    #[verifier::rlimit(30)]
    pub fn new(log_lines: Vec<String>, log_file_line_count: usize, startup_loading: bool) -> (app: App)
        ensures
            app@ == initial_view(string_views(log_lines@), log_file_line_count, startup_loading),
            app@.wf(),
    {
        let app = App {
            repo_state: RepoListState::new(false),
            repos: Vec::new(),
            new_repo_name: string_of("my-new-repo"),
            edit_buffer: string_of("my-new-repo"),
            name_confirmed: false,
            preview: None,
            status_items: default_status_items(),
            dry_run_lines: Vec::new(),
            mode: Mode::Normal,
            should_quit: false,
            committed: false,
            pushed: false,
            last_commit_message: None,
            log_state: LogState::new(log_lines),
            show_help: false,
            github_token: String::new(),
            github_login: String::new(),
            repo_name_available: None,
            remote_safety_lines: vec![string_of("origin の安全性は未評価です")],
            active_pane: ActivePane::Repos,
            tree_state: TreeListState::new(false),
            startup_tree_lines: Vec::new(),
            busy_message: None,
            is_focused: true,
            frame_area: Rect::new(0, 0, 0, 0),
            repo_filter: String::new(),
            filter_state: RepoListState::new(false),
            readme_preview_title: string_of("README.ja.md"),
            readme_preview_markdown: if startup_loading {
                string_of("起動処理を読み込んでいます...")
            } else {
                string_of("README.ja.md preview を読み込みます")
            },
            filter_restore_state: None,
            pending_action: None,
            log_file_line_count,
            startup_loading,
            startup_error: None,
        };
        proof {
            let v = initial_view(string_views(app.log_state.lines@), log_file_line_count, startup_loading);
            assert(app@.status_items =~= v.status_items);
            assert(app@.remote_safety_lines =~= v.remote_safety_lines);
            assert(app@.dry_run_lines =~= v.dry_run_lines);
            assert(app@.startup_tree_lines =~= v.startup_tree_lines);
            assert(app@.repos =~= v.repos);
            assert(app@ =~= v);
        }
        app
    }

    /// Whether the background start-up is still to report.
    pub fn is_startup_loading(&self) -> (b: bool)
        ensures
            b == self@.startup_loading,
    {
        self.startup_loading
    }

    /// Takes in what the background start-up found.
    #[verifier::rlimit(30)]
    pub fn apply_startup_data(&mut self, data: StartupData)
        ensures
            final(self)@ == old(self)@.startup_applied(
                data.github_token@,
                data.github_login@,
                data.repos@,
                string_views(data.startup_tree_lines@),
            ),
    {
        let ghost d = (data.github_token@, data.github_login@, data.repos@, string_views(data.startup_tree_lines@));
        let has_repos = data.repos.len() > 0;
        let has_tree = data.startup_tree_lines.len() > 0;
        self.github_token = data.github_token;
        self.github_login = data.github_login;
        self.repos = data.repos;
        self.repo_state = RepoListState::new(has_repos);
        self.filter_state = RepoListState::new(has_repos);
        self.startup_tree_lines = data.startup_tree_lines;
        self.tree_state = TreeListState::new(has_tree);
        let n = self.current_tree_lines().len();
        self.tree_state.sync_len(n);
        self.startup_loading = false;
        assert(self@ =~= old(self)@.startup_applied(d.0, d.1, d.2, d.3));
    }

    /// Records that the background start-up failed with `error`.
    pub fn set_startup_error(&mut self, error: String)
        ensures
            final(self)@ == old(self)@.startup_failed(error@),
    {
        let ghost e = error@;
        self.startup_loading = false;
        self.startup_error = Some(error);
        self.readme_preview_title = string_of("startup error");
        self.readme_preview_markdown = string_of("起動処理に失敗しました。log を確認してください");
        assert(self@ =~= old(self)@.startup_failed(e));
    }

    /// Answers one poll of the background start-up.
    #[verifier::rlimit(30)]
    pub fn drain_startup_updates(&mut self, poll: StartupPoll) -> (step: StartupStep)
        ensures
            poll is Ready ==> (step is Applied),
            poll matches StartupPoll::Ready(d) ==> final(self)@ == old(self)@.startup_applied(
                d.github_token@,
                d.github_login@,
                d.repos@,
                string_views(d.startup_tree_lines@),
            ),
            poll matches StartupPoll::Failed(e) ==> step_line(step) == Some(
                "error: 起動処理に失敗しました: "@ + e@,
            ),
            poll matches StartupPoll::Failed(e) ==> final(self)@ == old(self)@.startup_failed(e@),
            poll is Empty ==> (step is Waiting),
            poll is Empty ==> final(self)@ == old(self)@,
            poll is Disconnected ==> step_line(step) == Some("error: 起動処理チャネルが切断されました"@),
            poll is Disconnected ==> final(self)@ == old(self)@.startup_failed(
                "起動処理チャネルが切断されました"@,
            ),
    {
        match poll {
            StartupPoll::Ready(data) => {
                self.apply_startup_data(data);
                StartupStep::Applied
            },
            StartupPoll::Failed(error) => {
                let line = joined("error: 起動処理に失敗しました: ", error.as_str());
                self.set_startup_error(error);
                StartupStep::Failed(line)
            },
            StartupPoll::Empty => StartupStep::Waiting,
            StartupPoll::Disconnected => {
                self.set_startup_error(string_of("起動処理チャネルが切断されました"));
                StartupStep::Failed(string_of("error: 起動処理チャネルが切断されました"))
            },
        }
    }

    /// Marks the TODO entries that are done.
    #[verifier::rlimit(30)]
    pub fn refresh_status_items(&mut self)
        ensures
            final(self)@ == old(self)@.status_refreshed(),
    {
        if self.status_items.len() != 5 {
            self.status_items = default_status_items();
        }
        let ghost labels = self@.status_items.map_values(|p: (bool, Seq<char>)| p.1);
        let flags: [bool; 5] = [
            false,
            self.preview.is_some(),
            self.name_confirmed && self.repo_name_available == Some(true),
            self.committed,
            self.pushed,
        ];
        let mut items: Vec<StatusItem> = Vec::new();
        let mut i: usize = 0;
        while i < 5
            invariant
                0 <= i <= 5,
                self.status_items@.len() == 5,
                labels == self@.status_items.map_values(|p: (bool, Seq<char>)| p.1),
                items@.len() == i,
                forall|k: int| 0 <= k < i ==> #[trigger] items@[k].label@ == labels[k],
                forall|k: int| 0 <= k < i ==> #[trigger] items@[k].done == flags@[k],
            decreases 5 - i,
        {
            let label = self.status_items[i].label.clone();
            assert(labels[i as int] == self.status_items@[i as int].label@) by {
                assert(self@.status_items[i as int] == (
                    self.status_items@[i as int].done,
                    self.status_items@[i as int].label@,
                ));
            }
            let ghost before = items@;
            let item = StatusItem::new(flags[i], label);
            assert(item.label@ == labels[i as int]);
            items.push(item);
            assert(items@[i as int].label@ == labels[i as int]);
            assert forall|k: int| 0 <= k < i + 1 implies #[trigger] items@[k].label@ == labels[k] by {
                if k < i {
                    assert(before[k].label@ == labels[k]);
                    assert(items@[k] == before[k]);
                }
            }
            i = i + 1;
        }
        self.status_items = items;
        proof {
            let want = old(self)@.status_refreshed();
            assert(labels =~= (if old(self)@.status_items.len() != 5 {
                status_labels()
            } else {
                old(self)@.status_items.map_values(|p: (bool, Seq<char>)| p.1)
            }));
            assert(self@.status_items =~= want.status_items);
            assert(self@ =~= want);
        }
    }

    /// Catches the log pane up with the text of the log file (which other writers may
    /// have grown, or which may have been cut back).
    #[verifier::rlimit(30)]
    pub fn sync_log_view_from_file(&mut self, text: &str)
        ensures
            final(self)@ == old(self)@.log_synced(lines(text@)),
    {
        let chars = to_chars(text);
        let all = split_lines(chars.as_slice());
        let ghost file_lines = lines(text@);
        assert(all@.len() == file_lines.len()) by {
            assert(all@.map_values(|l: Vec<char>| l@).len() == all@.len());
        }
        assert(forall|k: int| 0 <= k < all@.len() ==> #[trigger] all@[k]@ == file_lines[k]) by {
            assert forall|k: int| 0 <= k < all@.len() implies #[trigger] all@[k]@ == file_lines[k] by {
                assert(all@.map_values(|l: Vec<char>| l@)[k] == all@[k]@);
            }
        }
        let total = all.len();
        let known = self.log_file_line_count;
        if total < known {
            let start = if total > MAX_LOG_LINES {
                total - MAX_LOG_LINES
            } else {
                0
            };
            let mut kept: Vec<String> = Vec::new();
            let mut j = start;
            while j < total
                invariant
                    start <= j <= total,
                    total == all@.len(),
                    total == file_lines.len(),
                    forall|k: int| 0 <= k < all@.len() ==> #[trigger] all@[k]@ == file_lines[k],
                    string_views(kept@) == file_lines.subrange(start as int, j as int),
                decreases total - j,
            {
                let ghost before = kept@;
                let line = from_chars(all[j].as_slice());
                let ghost written: String = line;
                kept.push(line);
                proof {
                    lemma_string_views_push(before, written);
                    assert(string_views(kept@) =~= file_lines.subrange(start as int, j + 1));
                }
                j = j + 1;
            }
            proof {
                assert(log_kept(file_lines) =~= file_lines.subrange(start as int, total as int));
            }
            let n = kept.len();
            self.log_state.lines = kept;
            self.log_state.scroll = if n == 0 {
                0
            } else if n - 1 > 65535 {
                u16::MAX
            } else {
                (n - 1) as u16
            };
            self.log_file_line_count = total;
            assert(self@ =~= old(self)@.log_synced(file_lines));
            return;
        }
        if total == known {
            return;
        }
        let mut log = LogState::new(Vec::new());
        std::mem::swap(&mut log, &mut self.log_state);
        let ghost start_lines = string_views(log.lines@);
        let mut j = known;
        proof {
            assert(file_lines.subrange(known as int, known as int) =~= Seq::<Seq<char>>::empty());
            assert(start_lines + Seq::<Seq<char>>::empty() =~= start_lines);
        }
        while j < total
            invariant
                known <= j <= total,
                known < total,
                total == all@.len(),
                total == file_lines.len(),
                forall|k: int| 0 <= k < all@.len() ==> #[trigger] all@[k]@ == file_lines[k],
                j == known ==> string_views(log.lines@) == start_lines,
                j > known ==> string_views(log.lines@) == log_kept(
                    start_lines + file_lines.subrange(known as int, j as int),
                ),
                j > known ==> log.scroll == bottom_scroll(log.lines@.len()),
            decreases total - j,
        {
            let ghost before = log.lines@;
            let line = from_chars(all[j].as_slice());
            let ghost written: String = line;
            log.on_new_line(line);
            proof {
                lemma_appended_log_view(before, written);
                let whole = start_lines + file_lines.subrange(known as int, j + 1);
                assert(whole =~= (start_lines + file_lines.subrange(known as int, j as int)).push(
                    file_lines[j as int],
                ));
                if j > known {
                    lemma_log_kept_push(
                        start_lines + file_lines.subrange(known as int, j as int),
                        file_lines[j as int],
                    );
                }
            }
            j = j + 1;
        }
        std::mem::swap(&mut log, &mut self.log_state);
        self.log_file_line_count = total;
        proof {
            assert(file_lines.subrange(known as int, total as int) =~= file_lines.skip(known as int));
        }
        assert(self@ =~= old(self)@.log_synced(file_lines));
    }

    /// Writes `line` to the log pane; `appended` tells whether it also reached the log
    /// file, whose line count then grows by one.
    pub fn record_log_line(&mut self, line: String, appended: bool)
        ensures
            final(self)@ == old(self)@.logged(line@, appended),
    {
        if appended {
            self.log_file_line_count = self.log_file_line_count.saturating_add(1);
        }
        let ghost before = self.log_state.lines@;
        let ghost written: String = line;
        self.log_state.on_new_line(line);
        proof {
            lemma_appended_log_view(before, written);
        }
        assert(self@ =~= old(self)@.logged(written@, appended));
    }
}

// ---------------------------------------------------------------------------
// The README pane
// ---------------------------------------------------------------------------

/// Where the README pane takes its text from.
#[derive(Debug, Clone, Copy, PartialEq, Eq, Structural)]
pub enum ReadmeSource {
    /// The working copy that was cloned.
    WorkingCopy,
    /// The listed repository at this position.
    Listed(usize),
    /// Nothing is cloned and no repository is selected.
    Nothing,
}

/// `Ok` or the error's text, as values.
pub open spec fn outcome(r: Result<(), String>) -> Result<(), Seq<char>> {
    match r {
        Ok(()) => Ok(()),
        Err(e) => Err(e@),
    }
}

impl AppView {
    pub open spec fn readme_source(self) -> ReadmeSource {
        if self.preview is Some {
            ReadmeSource::WorkingCopy
        } else if self.repo_state.selected < self.repos.len() {
            ReadmeSource::Listed(self.repo_state.selected)
        } else {
            ReadmeSource::Nothing
        }
    }

    /// The README pane showing `markdown` under `title`; a blank README says so.
    pub open spec fn readme_shown(self, title: Seq<char>, markdown: Seq<char>) -> AppView {
        AppView {
            readme_preview_title: title,
            readme_preview_markdown: if trim(markdown).len() == 0 {
                title + " は空です"@
            } else {
                markdown
            },
            ..self
        }
    }

    /// The state right after `repo` was cloned into `dir`: the working copy starts
    /// under the provisional name, with nothing confirmed, committed or pushed.
    pub open spec fn cloned(self, repo: Repo, dir: Seq<char>) -> AppView {
        AppView {
            preview: Some(
                PreviewView {
                    source_repo: repo,
                    preview_dir: dir,
                    file_list: Seq::empty(),
                    readme_delta_ansi: Seq::empty(),
                    readme_delta: Seq::empty(),
                    origin_url: None,
                },
            ),
            new_repo_name: "my-new-repo"@,
            edit_buffer: "my-new-repo"@,
            name_confirmed: false,
            committed: false,
            pushed: false,
            last_commit_message: None,
            ..self
        }
    }

    /// What was read from the working copy (its files, the README diff, its remotes)
    /// stored, with the remote safety report made against the expected addresses.
    pub open spec fn metadata_applied(
        self,
        files: Seq<Seq<char>>,
        delta_ansi: Seq<char>,
        delta_plain: Seq<Seq<char>>,
        origin: Option<Seq<char>>,
        origin_push: Option<Seq<char>>,
        upstream: Option<Seq<char>>,
    ) -> AppView {
        match self.preview {
            Some(p) => AppView {
                preview: Some(
                    PreviewView {
                        file_list: files,
                        readme_delta_ansi: delta_ansi,
                        readme_delta: delta_plain,
                        origin_url: origin,
                        ..p
                    },
                ),
                remote_safety_lines: remote_safety_report(
                    p.source_repo.clone_url@,
                    origin,
                    origin_push,
                    upstream,
                    target_origin_url(self.github_login, self.new_repo_name),
                    target_push_url(self.github_login, self.new_repo_name),
                ),
                tree_state: self.tree_state.synced(files.len() as usize),
                ..self
            },
            None => AppView {
                tree_state: self.tree_state.synced(self.startup_tree_lines.len() as usize),
                ..self
            },
        }
    }

    /// The new name confirmed and the working copy moved to `dir`; a name other than
    /// the provisional one counts as decided.
    pub open spec fn name_applied(self, name: Seq<char>, dir: Seq<char>) -> AppView {
        AppView {
            preview: match self.preview {
                Some(p) => Some(PreviewView { preview_dir: dir, ..p }),
                None => None,
            },
            new_repo_name: name,
            name_confirmed: name != "my-new-repo"@,
            committed: false,
            pushed: false,
            last_commit_message: None,
            ..self
        }
    }

    /// What must hold before the remotes are even looked at for a push.
    pub open spec fn push_precondition(self) -> Result<(), Seq<char>> {
        if self.preview is None {
            Err("Enter で repo を clone してください"@)
        } else if !self.name_confirmed {
            Err("新しい repo 名が未決定です"@)
        } else if !self.committed {
            Err("commit がまだです"@)
        } else if self.repo_name_available != Some(true) {
            Err("repo 名が衝突しています"@)
        } else {
            Ok(())
        }
    }

    /// The check before a push, given the remotes git reports: `origin` must point at
    /// the new repository (never at the source), its push address must be the SSH one,
    /// and no `upstream` may be left.
    pub open spec fn push_verdict(
        self,
        origin: Option<Seq<char>>,
        origin_push: Option<Seq<char>>,
        upstream: Option<Seq<char>>,
    ) -> Result<(), Seq<char>> {
        let expected_origin = target_origin_url(self.github_login, self.new_repo_name);
        let expected_push = target_push_url(self.github_login, self.new_repo_name);
        if self.push_precondition() is Err {
            self.push_precondition()
        } else if origin matches Some(url) && url == self.preview->0.source_repo.clone_url@ {
            Err("ハードガードです。origin が暖簾分け元を向いているため push できません"@)
        } else if origin matches Some(url) && url != expected_origin {
            Err("origin が想定 push 先を向いていません"@)
        } else if origin is None {
            Err("origin が存在しません"@)
        } else if origin_push matches Some(url) && url != expected_push {
            Err("push URL が想定の SSH 宛先を向いていません"@)
        } else if origin_push is None {
            Err("push URL が存在しません"@)
        } else if upstream is Some {
            Err("upstream が残っています。origin のみで運用してください"@)
        } else {
            Ok(())
        }
    }

    /// The lines of the push confirmation.
    pub open spec fn confirm_lines(
        self,
        origin: Option<Seq<char>>,
        origin_push: Option<Seq<char>>,
        upstream: Option<Seq<char>>,
    ) -> Seq<Seq<char>> {
        let p = self.preview->0;
        let delta = p.readme_delta;
        let shown_delta = if delta.len() > 20 {
            delta.take(20)
        } else {
            delta
        };
        seq![
            "検証に合格しました"@,
            "source repo: "@ + p.source_repo.full_name@,
            "new repo:    "@ + self.new_repo_name,
            "visibility:  public"@,
            "branch:      "@ + p.source_repo.default_branch@,
            "workdir:     "@ + p.preview_dir,
            "repo name validation: "@ + (if self.repo_name_available == Some(true) {
                "OK: repo 名は未使用です"@
            } else {
                "NG: repo 名がすでに存在します"@
            }),
            "origin target: "@ + target_origin_url(self.github_login, self.new_repo_name),
            "push target:   "@ + target_push_url(self.github_login, self.new_repo_name),
            "origin current: "@ + shown(origin),
            "push current:   "@ + shown(origin_push),
            "upstream current: "@ + shown(upstream),
            "hard guard: origin が暖簾分け元を向いている場合と upstream が残っている場合は push を拒否します"@,
            Seq::empty(),
            "README.ja.md diff preview:"@,
        ] + shown_delta + seq![Seq::empty(), "y で push し、N で中止します"@]
    }
}

/// The commit message of the spin-off.
pub open spec fn spin_off_message(name: Seq<char>) -> Seq<char> {
    "docs: initialize norenwake split as "@ + name
}

fn opt_str(o: &Option<String>) -> (r: Option<&str>)
    ensures
        opt_view(r) == opt_string_view(*o),
{
    match o {
        Some(s) => Some(s.as_str()),
        None => None,
    }
}

fn joined(a: &str, b: &str) -> (r: String)
    ensures
        r@ == a@ + b@,
{
    let mut r = string_of(a);
    r.append(b);
    r
}

fn joined_or_none(label: &str, v: Option<&str>) -> (r: String)
    ensures
        r@ == label@ + shown(opt_view(v)),
{
    match v {
        Some(s) => joined(label, s),
        None => joined(label, "(none)"),
    }
}

/// The commit message of the spin-off into `name`.
pub fn commit_message(name: &str) -> (m: String)
    ensures
        m@ == spin_off_message(name@),
{
    joined("docs: initialize norenwake split as ", name)
}

/// `git diff --cached --quiet` succeeding means there is nothing staged to commit.
pub fn staged_changes_check(nothing_staged: bool) -> (r: Result<(), String>)
    ensures
        outcome(r) == (if nothing_staged {
            Err("commit 対象の staged change がありません"@)
        } else {
            Ok(())
        }),
{
    if nothing_staged {
        Err(string_of("commit 対象の staged change がありません"))
    } else {
        Ok(())
    }
}

/// The log line written when a name turns out to be taken.
pub fn name_conflict_message(repo_name: &str) -> (m: String)
    ensures
        m@ == "repo 名が衝突しています。別の名前にしてください: "@ + repo_name@,
{
    joined("repo 名が衝突しています。別の名前にしてください: ", repo_name)
}

impl App {
    /// Where the README pane takes its text from.
    pub fn readme_source(&self) -> (r: ReadmeSource)
        ensures
            r == self@.readme_source(),
    {
        if self.preview.is_some() {
            ReadmeSource::WorkingCopy
        } else if self.repo_state.selected < self.repos.len() {
            ReadmeSource::Listed(self.repo_state.selected)
        } else {
            ReadmeSource::Nothing
        }
    }

    /// Shows `markdown` under `title` in the README pane.
    pub fn show_readme(&mut self, title: String, markdown: String)
        ensures
            final(self)@ == old(self)@.readme_shown(title@, markdown@),
    {
        let blank = trim_str(markdown.as_str()).len() == 0;
        if blank {
            self.readme_preview_markdown = joined(title.as_str(), " は空です");
        } else {
            self.readme_preview_markdown = markdown;
        }
        self.readme_preview_title = title;
        assert(self@ =~= old(self)@.readme_shown(self@.readme_preview_title, markdown@));
    }

    /// The README pane when there is nothing to show.
    pub fn show_no_readme(&mut self)
        ensures
            final(self)@ == (AppView {
                readme_preview_title: "README.ja.md"@,
                readme_preview_markdown: "README.ja.md preview はありません"@,
                ..old(self)@
            }),
    {
        self.readme_preview_title = string_of("README.ja.md");
        self.readme_preview_markdown = string_of("README.ja.md preview はありません");
        assert(self@ =~= AppView {
            readme_preview_title: "README.ja.md"@,
            readme_preview_markdown: "README.ja.md preview はありません"@,
            ..old(self)@
        });
    }

    /// Whether the repository under the cursor is the one called `name`.
    pub fn selected_repo_is(&self, name: &str) -> (b: bool)
        ensures
            b == (self.repo_state.selected < self.repos@.len()
                && self.repos@[self.repo_state.selected as int].name@ == name@),
    {
        match self.selected_repo() {
            Some(repo) => str_eq(repo.name.as_str(), name),
            None => false,
        }
    }

    // -----------------------------------------------------------------------
    // Clone
    // -----------------------------------------------------------------------

    /// The repository to clone: the one under the cursor.
    pub fn clone_source(&self) -> (r: Result<Repo, String>)
        ensures
            self.repo_state.selected < self.repos@.len() ==> r == Ok::<Repo, String>(
                self.repos@[self.repo_state.selected as int],
            ),
            self.repo_state.selected >= self.repos@.len() ==> r is Err && r->Err_0@
                == "repo がありません"@,
    {
        match self.selected_repo() {
            Some(repo) => Ok(repo.duplicate()),
            None => Err(string_of("repo がありません")),
        }
    }

    /// Records that `repo` was cloned into `preview_dir` (with its remotes made safe
    /// and its README rewritten under the provisional name).
    #[verifier::rlimit(30)]
    pub fn apply_clone(&mut self, repo: Repo, preview_dir: String)
        ensures
            final(self)@ == old(self)@.cloned(repo, preview_dir@),
    {
        let ghost r0 = repo;
        self.preview = Some(
            PreviewState {
                source_repo: repo,
                preview_dir,
                file_list: Vec::new(),
                readme_delta_ansi: String::new(),
                readme_delta: Vec::new(),
                origin_url: None,
            },
        );
        self.new_repo_name = string_of("my-new-repo");
        self.edit_buffer = string_of("my-new-repo");
        self.name_confirmed = false;
        self.committed = false;
        self.pushed = false;
        self.last_commit_message = None;
        proof {
            let p = self.preview->0;
            assert(p@.file_list =~= Seq::<Seq<char>>::empty());
            assert(p@.readme_delta =~= Seq::<Seq<char>>::empty());
        }
        assert(self@ =~= old(self)@.cloned(r0, self@.preview->0.preview_dir));
    }

    /// Records whether the name under which the working copy would be pushed is free.
    pub fn record_name_availability(&mut self, available: bool)
        ensures
            final(self)@ == (AppView { repo_name_available: Some(available), ..old(self)@ }),
    {
        self.repo_name_available = Some(available);
        assert(self@ =~= AppView { repo_name_available: Some(available), ..old(self)@ });
    }

    /// Stores what was read from the working copy and reports on its remotes.
    #[verifier::rlimit(30)]
    pub fn apply_preview_metadata(
        &mut self,
        file_list: Vec<String>,
        readme_delta_ansi: String,
        readme_delta: Vec<String>,
        origin_url: Option<String>,
        origin_push_url: Option<String>,
        upstream_url: Option<String>,
    )
        ensures
            final(self)@ == old(self)@.metadata_applied(
                string_views(file_list@),
                readme_delta_ansi@,
                string_views(readme_delta@),
                opt_string_view(origin_url),
                opt_string_view(origin_push_url),
                opt_string_view(upstream_url),
            ),
    {
        let ghost files = string_views(file_list@);
        let ghost ansi = readme_delta_ansi@;
        let ghost plain = string_views(readme_delta@);
        let ghost o = opt_string_view(origin_url);
        let ghost op = opt_string_view(origin_push_url);
        let ghost u = opt_string_view(upstream_url);
        match self.preview.take() {
            Some(mut p) => {
                let expected_origin = build_target_origin_url(
                    self.github_login.as_str(),
                    self.new_repo_name.as_str(),
                );
                let expected_push = build_target_origin_push_url(
                    self.github_login.as_str(),
                    self.new_repo_name.as_str(),
                );
                self.remote_safety_lines = build_remote_safety_lines(
                    p.source_repo.clone_url.as_str(),
                    opt_str(&origin_url),
                    opt_str(&origin_push_url),
                    opt_str(&upstream_url),
                    expected_origin.as_str(),
                    expected_push.as_str(),
                );
                let n = file_list.len();
                p.file_list = file_list;
                p.readme_delta_ansi = readme_delta_ansi;
                p.readme_delta = readme_delta;
                p.origin_url = origin_url;
                self.preview = Some(p);
                self.tree_state.sync_len(n);
            },
            None => {
                let n = self.startup_tree_lines.len();
                self.tree_state.sync_len(n);
            },
        }
        assert(self@ =~= old(self)@.metadata_applied(files, ansi, plain, o, op, u));
    }

    // -----------------------------------------------------------------------
    // New name
    // -----------------------------------------------------------------------

    /// The edited name, trimmed; an empty one is refused.
    pub fn name_candidate(&self) -> (r: Result<String, String>)
        ensures
            trim(self.edit_buffer@).len() > 0 ==> r is Ok && r->Ok_0@ == trim(self.edit_buffer@),
            trim(self.edit_buffer@).len() == 0 ==> r is Err && r->Err_0@
                == "新しい repo 名が空です"@,
    {
        let t = trim_str(self.edit_buffer.as_str());
        if t.len() == 0 {
            Err(string_of("新しい repo 名が空です"))
        } else {
            Ok(from_chars(t.as_slice()))
        }
    }

    /// Records whether `repo_name` is free on GitHub; a taken name is refused and
    /// leaves the name unconfirmed.
    pub fn check_name_availability(&mut self, available: bool) -> (r: Result<(), String>)
        ensures
            available ==> final(self)@ == (AppView { repo_name_available: Some(true), ..old(self)@ }),
            available ==> (r is Ok),
            !available ==> final(self)@ == (AppView {
                repo_name_available: Some(false),
                name_confirmed: false,
                ..old(self)@
            }),
            !available ==> (r is Err) && r->Err_0@ == "repo 名がすでに存在します。別の名前に変更してください"@,
    {
        self.repo_name_available = Some(available);
        if !available {
            self.name_confirmed = false;
            assert(self@ =~= AppView {
                repo_name_available: Some(false),
                name_confirmed: false,
                ..old(self)@
            });
            return Err(string_of("repo 名がすでに存在します。別の名前に変更してください"));
        }
        assert(self@ =~= AppView { repo_name_available: Some(true), ..old(self)@ });
        Ok(())
    }

    /// What the rename needs from the working copy: its directory, and the source
    /// repository's name and clone address.
    pub fn rename_inputs(&self) -> (r: Result<(String, String, String), String>)
        ensures
            self@.preview matches Some(p) ==> r is Ok && r->Ok_0.0@ == p.preview_dir
                && r->Ok_0.1@ == p.source_repo.name@ && r->Ok_0.2@ == p.source_repo.clone_url@,
            self@.preview is None ==> r is Err && r->Err_0@ == "先に clone が必要です"@,
    {
        match &self.preview {
            Some(p) => Ok(
                (p.preview_dir.clone(), p.source_repo.name.clone(), p.source_repo.clone_url.clone()),
            ),
            None => Err(string_of("先に clone が必要です")),
        }
    }

    /// Records the confirmed name and the directory the working copy was moved to.
    pub fn apply_confirmed_name(&mut self, repo_name: String, renamed_dir: String)
        ensures
            final(self)@ == old(self)@.name_applied(repo_name@, renamed_dir@),
    {
        let ghost n = repo_name@;
        let ghost d = renamed_dir@;
        match self.preview.take() {
            Some(mut p) => {
                p.preview_dir = renamed_dir;
                self.preview = Some(p);
            },
            None => {},
        }
        self.name_confirmed = !str_eq(repo_name.as_str(), "my-new-repo");
        self.new_repo_name = repo_name;
        self.committed = false;
        self.pushed = false;
        self.last_commit_message = None;
        assert(self@ =~= old(self)@.name_applied(n, d));
    }

    // -----------------------------------------------------------------------
    // Commit
    // -----------------------------------------------------------------------

    /// A commit needs a decided name and a working copy.
    pub fn commit_precheck(&self) -> (r: Result<(), String>)
        ensures
            outcome(r) == (if !self.name_confirmed {
                Err("新しい repo 名が未決定です。仮名のまま commit しないでください"@)
            } else if self.preview is None {
                Err("先に clone が必要です"@)
            } else {
                Ok(())
            }),
    {
        if !self.name_confirmed {
            return Err(string_of("新しい repo 名が未決定です。仮名のまま commit しないでください"));
        }
        if self.preview.is_none() {
            return Err(string_of("先に clone が必要です"));
        }
        Ok(())
    }

    /// Records the commit made with `message`; nothing is pushed of it yet.
    pub fn apply_commit(&mut self, message: String)
        ensures
            final(self)@ == (AppView {
                committed: true,
                pushed: false,
                last_commit_message: Some(message@),
                ..old(self)@
            }),
    {
        let ghost m = message@;
        self.committed = true;
        self.pushed = false;
        self.last_commit_message = Some(message);
        assert(self@ =~= AppView {
            committed: true,
            pushed: false,
            last_commit_message: Some(m),
            ..old(self)@
        });
    }

    // -----------------------------------------------------------------------
    // Push
    // -----------------------------------------------------------------------

    /// The checks that come before the remotes are read.
    pub fn push_precheck(&self) -> (r: Result<(), String>)
        ensures
            outcome(r) == self@.push_precondition(),
    {
        if self.preview.is_none() {
            return Err(string_of("Enter で repo を clone してください"));
        }
        if !self.name_confirmed {
            return Err(string_of("新しい repo 名が未決定です"));
        }
        if !self.committed {
            return Err(string_of("commit がまだです"));
        }
        if self.repo_name_available != Some(true) {
            return Err(string_of("repo 名が衝突しています"));
        }
        Ok(())
    }

    /// The hard guard before a push, given what `git remote get-url` reports for
    /// `origin` (fetch and push) and `upstream`.
    #[verifier::rlimit(30)]
    pub fn validate_before_push(
        &self,
        origin: Option<&str>,
        origin_push: Option<&str>,
        upstream: Option<&str>,
    ) -> (r: Result<(), String>)
        ensures
            outcome(r) == self@.push_verdict(opt_view(origin), opt_view(origin_push), opt_view(upstream)),
    {
        self.push_precheck()?;
        let expected_origin = build_target_origin_url(
            self.github_login.as_str(),
            self.new_repo_name.as_str(),
        );
        let expected_push = build_target_origin_push_url(
            self.github_login.as_str(),
            self.new_repo_name.as_str(),
        );
        let source = match &self.preview {
            Some(p) => p.source_repo.clone_url.as_str(),
            None => "",
        };
        match origin {
            Some(url) => {
                if str_eq(url, source) {
                    return Err(string_of("ハードガードです。origin が暖簾分け元を向いているため push できません"));
                }
                if !str_eq(url, expected_origin.as_str()) {
                    return Err(string_of("origin が想定 push 先を向いていません"));
                }
            },
            None => {
                return Err(string_of("origin が存在しません"));
            },
        }
        match origin_push {
            Some(url) => {
                if !str_eq(url, expected_push.as_str()) {
                    return Err(string_of("push URL が想定の SSH 宛先を向いていません"));
                }
            },
            None => {
                return Err(string_of("push URL が存在しません"));
            },
        }
        if upstream.is_some() {
            return Err(string_of("upstream が残っています。origin のみで運用してください"));
        }
        Ok(())
    }

    /// Validates the working copy and, when it passes, opens the push confirmation
    /// with the dry-run report; a refusal leaves everything as it was.
    #[verifier::rlimit(30)]
    pub fn prepare_push_confirm(
        &mut self,
        origin: Option<&str>,
        origin_push: Option<&str>,
        upstream: Option<&str>,
    ) -> (r: Result<(), String>)
        ensures
            outcome(r) == old(self)@.push_verdict(opt_view(origin), opt_view(origin_push), opt_view(upstream)),
            r is Err ==> final(self)@ == old(self)@,
            r is Ok ==> final(self)@ == (AppView {
                dry_run_lines: old(self)@.confirm_lines(opt_view(origin), opt_view(origin_push), opt_view(upstream)),
                mode: Mode::ConfirmPush,
                ..old(self)@
            }),
    {
        self.validate_before_push(origin, origin_push, upstream)?;
        let ghost want = self@.confirm_lines(opt_view(origin), opt_view(origin_push), opt_view(upstream));
        let mut lines: Vec<String> = Vec::new();
        match &self.preview {
            Some(p) => {
                let expected_origin = build_target_origin_url(
                    self.github_login.as_str(),
                    self.new_repo_name.as_str(),
                );
                let expected_push = build_target_origin_push_url(
                    self.github_login.as_str(),
                    self.new_repo_name.as_str(),
                );
                lines.push(string_of("検証に合格しました"));
                lines.push(joined("source repo: ", p.source_repo.full_name.as_str()));
                lines.push(joined("new repo:    ", self.new_repo_name.as_str()));
                lines.push(string_of("visibility:  public"));
                lines.push(joined("branch:      ", p.source_repo.default_branch.as_str()));
                lines.push(joined("workdir:     ", p.preview_dir.as_str()));
                if self.repo_name_available == Some(true) {
                    lines.push(joined("repo name validation: ", "OK: repo 名は未使用です"));
                } else {
                    lines.push(joined("repo name validation: ", "NG: repo 名がすでに存在します"));
                }
                lines.push(joined("origin target: ", expected_origin.as_str()));
                lines.push(joined("push target:   ", expected_push.as_str()));
                lines.push(joined_or_none("origin current: ", origin));
                lines.push(joined_or_none("push current:   ", origin_push));
                lines.push(joined_or_none("upstream current: ", upstream));
                lines.push(string_of("hard guard: origin が暖簾分け元を向いている場合と upstream が残っている場合は push を拒否します"));
                lines.push(String::new());
                lines.push(string_of("README.ja.md diff preview:"));
                let ghost pre = string_views(lines@);
                proof {
                    let pv = self@.preview->0;
                    assert(pre =~= seq![
                        "検証に合格しました"@,
                        "source repo: "@ + pv.source_repo.full_name@,
                        "new repo:    "@ + self@.new_repo_name,
                        "visibility:  public"@,
                        "branch:      "@ + pv.source_repo.default_branch@,
                        "workdir:     "@ + pv.preview_dir,
                        "repo name validation: "@ + (if self@.repo_name_available == Some(true) {
                            "OK: repo 名は未使用です"@
                        } else {
                            "NG: repo 名がすでに存在します"@
                        }),
                        "origin target: "@ + target_origin_url(self@.github_login, self@.new_repo_name),
                        "push target:   "@ + target_push_url(self@.github_login, self@.new_repo_name),
                        "origin current: "@ + shown(opt_view(origin)),
                        "push current:   "@ + shown(opt_view(origin_push)),
                        "upstream current: "@ + shown(opt_view(upstream)),
                        "hard guard: origin が暖簾分け元を向いている場合と upstream が残っている場合は push を拒否します"@,
                        Seq::<char>::empty(),
                        "README.ja.md diff preview:"@,
                    ]);
                }
                let ghost delta = string_views(p.readme_delta@);
                let limit = if p.readme_delta.len() > 20 {
                    20
                } else {
                    p.readme_delta.len()
                };
                let mut k: usize = 0;
                assert(delta.take(0) =~= Seq::<Seq<char>>::empty());
                assert(pre + delta.take(0) =~= pre);
                while k < limit
                    invariant
                        k <= limit <= p.readme_delta@.len(),
                        delta == string_views(p.readme_delta@),
                        string_views(lines@) == pre + delta.take(k as int),
                    decreases limit - k,
                {
                    let ghost b = lines@;
                    let x = p.readme_delta[k].clone();
                    lines.push(x);
                    proof {
                        lemma_string_views_push(b, x);
                        assert(delta.take(k + 1) =~= delta.take(k as int).push(p.readme_delta@[k as int]@));
                        assert(pre + delta.take(k + 1) =~= (pre + delta.take(k as int)).push(
                            p.readme_delta@[k as int]@,
                        ));
                    }
                    k = k + 1;
                }
                proof {
                    assert(delta.take(limit as int) =~= (if delta.len() > 20 {
                        delta.take(20)
                    } else {
                        delta
                    }));
                }
                let ghost mid = lines@;
                let blank = String::new();
                let ghost blank_v: String = blank;
                lines.push(blank);
                let last = string_of("y で push し、N で中止します");
                let ghost last_v: String = last;
                lines.push(last);
                proof {
                    lemma_string_views_push(mid, blank_v);
                    lemma_string_views_push(mid.push(blank_v), last_v);
                }
            },
            None => {},
        }
        assert(string_views(lines@) =~= want);
        self.dry_run_lines = lines;
        self.mode = Mode::ConfirmPush;
        assert(self@ =~= AppView {
            dry_run_lines: want,
            mode: Mode::ConfirmPush,
            ..old(self)@
        });
        Ok(())
    }
}


/// A log line stamped with the time it was written: `[now] message`.
pub fn stamped_line(now: &str, message: &str) -> (line: String)
    ensures
        line@ == "["@ + now@ + "] "@ + message@,
{
    let mut line = string_of("[");
    line.append(now);
    line.append("] ");
    line.append(message);
    line
}

impl App {
    /// The work the busy popup announced, taken for the main loop to run.
    pub fn take_pending_action(&mut self) -> (a: Option<PendingAction>)
        ensures
            a == old(self)@.pending_action,
            final(self)@ == (AppView { pending_action: None, ..old(self)@ }),
    {
        let a = self.pending_action.take();
        assert(self@ =~= AppView { pending_action: None, ..old(self)@ });
        a
    }

    /// Closes the busy popup.
    pub fn clear_busy(&mut self)
        ensures
            final(self)@ == (AppView { busy_message: None, ..old(self)@ }),
    {
        self.busy_message = None;
        assert(self@ =~= AppView { busy_message: None, ..old(self)@ });
    }

    /// Records a finished push and closes the confirmation.
    pub fn finish_push(&mut self)
        ensures
            final(self)@ == (AppView { pushed: true, mode: Mode::Normal, ..old(self)@ }),
    {
        self.pushed = true;
        self.mode = Mode::Normal;
        assert(self@ =~= AppView { pushed: true, mode: Mode::Normal, ..old(self)@ });
    }
}

/// The hard guard: a push is let through only from a cloned working copy with a
/// decided, free name and a commit, whose `origin` fetches from and pushes to the new
/// repository's addresses (so never from the source repository) and which has no
/// `upstream` left.
pub proof fn law_push_hard_guard(
    v: AppView,
    origin: Option<Seq<char>>,
    origin_push: Option<Seq<char>>,
    upstream: Option<Seq<char>>,
)
    requires
        v.push_verdict(origin, origin_push, upstream) is Ok,
    ensures
        v.preview is Some,
        v.name_confirmed,
        v.committed,
        v.repo_name_available == Some(true),
        origin == Some(target_origin_url(v.github_login, v.new_repo_name)),
        origin != Some(v.preview->0.source_repo.clone_url@),
        origin_push == Some(target_push_url(v.github_login, v.new_repo_name)),
        upstream is None,
{
}

/// The hard guard lets through every push it should: from a cloned working copy with a
/// decided, free name and a commit, whose `origin` fetches from and pushes to the new
/// repository's addresses (and not the source's own address), with no `upstream` left,
/// the verdict is a pass and the push's steps are planned, whatever else the addresses
/// have in common with the source.
pub proof fn law_push_guard_passes_the_new_repository(
    v: AppView,
    origin: Option<Seq<char>>,
    origin_push: Option<Seq<char>>,
    upstream: Option<Seq<char>>,
)
    requires
        v.preview is Some,
        v.name_confirmed,
        v.committed,
        v.repo_name_available == Some(true),
        origin == Some(target_origin_url(v.github_login, v.new_repo_name)),
        origin != Some(v.preview->0.source_repo.clone_url@),
        origin_push == Some(target_push_url(v.github_login, v.new_repo_name)),
        upstream is None,
    ensures
        v.push_verdict(origin, origin_push, upstream) == Ok::<(), Seq<char>>(()),
        v.push_plan(origin, origin_push, upstream) == Ok::<Seq<PushStep>, Seq<char>>(v.push_steps()),
{
}

/// A source repository's own address is never accepted as `origin`, whatever else holds.
pub proof fn law_push_refused_toward_source(
    v: AppView,
    origin_push: Option<Seq<char>>,
    upstream: Option<Seq<char>>,
)
    requires
        v.preview is Some,
    ensures
        v.push_verdict(Some(v.preview->0.source_repo.clone_url@), origin_push, upstream) is Err,
{
}


// ---------------------------------------------------------------------------
// The push, step by step
// ---------------------------------------------------------------------------

/// One step of a push, run in the working copy.
pub enum PushAction {
    /// Point `origin` at these fetch and push addresses and drop `upstream`; a command
    /// that fails there is only logged.
    SafeRemotes { origin_url: String, push_url: String },
    /// `gh` with these arguments, creating the repository; a failure that says the
    /// repository already exists is skipped.
    CreateRepo { args: Vec<String> },
    /// `git` with these arguments; a failure stops the push.
    Git { args: Vec<String> },
}

/// A push step as plain values.
pub enum PushStep {
    SafeRemotes(Seq<char>, Seq<char>),
    CreateRepo(Seq<Seq<char>>),
    Git(Seq<Seq<char>>),
}

impl View for PushAction {
    type V = PushStep;

    open spec fn view(&self) -> PushStep {
        match self {
            PushAction::SafeRemotes { origin_url, push_url } => PushStep::SafeRemotes(
                origin_url@,
                push_url@,
            ),
            PushAction::CreateRepo { args } => PushStep::CreateRepo(string_views(args@)),
            PushAction::Git { args } => PushStep::Git(string_views(args@)),
        }
    }
}

impl AppView {
    /// The steps of a push: make the remotes safe, create the public repository, push
    /// every branch with `origin` as upstream, then the tags.
    pub open spec fn push_steps(self) -> Seq<PushStep> {
        seq![
            PushStep::SafeRemotes(
                target_origin_url(self.github_login, self.new_repo_name),
                target_push_url(self.github_login, self.new_repo_name),
            ),
            PushStep::CreateRepo(seq!["repo"@, "create"@, self.new_repo_name, "--public"@]),
            PushStep::Git(seq!["push"@, "-u"@, "origin"@, "--all"@]),
            PushStep::Git(seq!["push"@, "origin"@, "--tags"@]),
        ]
    }

    /// The push's steps when the hard guard lets it through, else the guard's refusal.
    pub open spec fn push_plan(
        self,
        origin: Option<Seq<char>>,
        origin_push: Option<Seq<char>>,
        upstream: Option<Seq<char>>,
    ) -> Result<Seq<PushStep>, Seq<char>> {
        match self.push_verdict(origin, origin_push, upstream) {
            Ok(_) => Ok(self.push_steps()),
            Err(e) => Err(e),
        }
    }
}

pub open spec fn plan_view(r: Result<Vec<PushAction>, String>) -> Result<Seq<PushStep>, Seq<char>> {
    match r {
        Ok(p) => Ok(p@.map_values(|a: PushAction| a@)),
        Err(e) => Err(e@),
    }
}

fn strings_of4(a: &str, b: &str, c: &str, d: &str) -> (r: Vec<String>)
    ensures
        string_views(r@) == seq![a@, b@, c@, d@],
{
    let mut r: Vec<String> = Vec::new();
    r.push(string_of(a));
    r.push(string_of(b));
    r.push(string_of(c));
    r.push(string_of(d));
    assert(string_views(r@) =~= seq![a@, b@, c@, d@]);
    r
}

impl App {
    /// The hard guard, then the steps of the push: none at all when the guard refuses.
    pub fn push_plan(
        &self,
        origin: Option<&str>,
        origin_push: Option<&str>,
        upstream: Option<&str>,
    ) -> (r: Result<Vec<PushAction>, String>)
        ensures
            plan_view(r) == self@.push_plan(opt_view(origin), opt_view(origin_push), opt_view(upstream)),
    {
        if let Err(e) = self.validate_before_push(origin, origin_push, upstream) {
            return Err(e);
        }
        let origin_url = build_target_origin_url(self.github_login.as_str(), self.new_repo_name.as_str());
        let push_url = build_target_origin_push_url(
            self.github_login.as_str(),
            self.new_repo_name.as_str(),
        );
        let create = strings_of4("repo", "create", self.new_repo_name.as_str(), "--public");
        let mut push_all: Vec<String> = Vec::new();
        push_all.push(string_of("push"));
        push_all.push(string_of("-u"));
        push_all.push(string_of("origin"));
        push_all.push(string_of("--all"));
        assert(string_views(push_all@) =~= seq!["push"@, "-u"@, "origin"@, "--all"@]);
        let mut push_tags: Vec<String> = Vec::new();
        push_tags.push(string_of("push"));
        push_tags.push(string_of("origin"));
        push_tags.push(string_of("--tags"));
        assert(string_views(push_tags@) =~= seq!["push"@, "origin"@, "--tags"@]);
        let mut plan: Vec<PushAction> = Vec::new();
        plan.push(PushAction::SafeRemotes { origin_url, push_url });
        plan.push(PushAction::CreateRepo { args: create });
        plan.push(PushAction::Git { args: push_all });
        plan.push(PushAction::Git { args: push_tags });
        assert(plan@.map_values(|a: PushAction| a@) =~= self@.push_steps());
        Ok(plan)
    }
}

/// No step of a push is planned after a refused check: the plan is then the guard's
/// refusal itself.
pub proof fn law_no_push_after_refused_check(
    v: AppView,
    origin: Option<Seq<char>>,
    origin_push: Option<Seq<char>>,
    upstream: Option<Seq<char>>,
)
    requires
        v.push_verdict(origin, origin_push, upstream) is Err,
    ensures
        v.push_plan(origin, origin_push, upstream) == Err::<Seq<PushStep>, Seq<char>>(
            v.push_verdict(origin, origin_push, upstream)->Err_0,
        ),
{
}

/// A planned push only comes from a working copy that passes the hard guard: `origin`
/// fetches from and pushes to the new repository, never the source, and no `upstream`
/// is left; the steps make the remotes safe before any `gh` or `git push` runs.
pub proof fn law_push_plan_only_after_guard(
    v: AppView,
    origin: Option<Seq<char>>,
    origin_push: Option<Seq<char>>,
    upstream: Option<Seq<char>>,
)
    requires
        v.push_plan(origin, origin_push, upstream) is Ok,
    ensures
        v.push_verdict(origin, origin_push, upstream) is Ok,
        origin == Some(target_origin_url(v.github_login, v.new_repo_name)),
        origin != Some(v.preview->0.source_repo.clone_url@),
        origin_push == Some(target_push_url(v.github_login, v.new_repo_name)),
        upstream is None,
        v.push_plan(origin, origin_push, upstream)->Ok_0[0] is SafeRemotes,
{
    law_push_hard_guard(v, origin, origin_push, upstream);
}

// ---------------------------------------------------------------------------
// Setting up the working copy: the clone and the rename, step by step
// ---------------------------------------------------------------------------

/// One step of setting up the working copy.
pub enum CopyStep {
    /// `git` with these arguments, in the work directory.
    Git { args: Vec<String> },
    /// Move the working copy to the directory of this name beside it.
    MoveTo { name: String },
    /// Point `origin` at these fetch and push addresses and drop `upstream`; a command
    /// that fails there is only logged.
    SafeRemotes { origin_url: String, push_url: String },
    /// Write the introduction at the top of `README.ja.md` for the repository of this name.
    WriteReadme { name: String },
}

/// A working-copy step as plain values.
pub enum CopyStepView {
    Git(Seq<Seq<char>>),
    MoveTo(Seq<char>),
    SafeRemotes(Seq<char>, Seq<char>),
    WriteReadme(Seq<char>),
}

impl View for CopyStep {
    type V = CopyStepView;

    open spec fn view(&self) -> CopyStepView {
        match self {
            CopyStep::Git { args } => CopyStepView::Git(string_views(args@)),
            CopyStep::MoveTo { name } => CopyStepView::MoveTo(name@),
            CopyStep::SafeRemotes { origin_url, push_url } => CopyStepView::SafeRemotes(
                origin_url@,
                push_url@,
            ),
            CopyStep::WriteReadme { name } => CopyStepView::WriteReadme(name@),
        }
    }
}

impl AppView {
    /// The remote step that points `origin` at the new repository named `name`.
    pub open spec fn remotes_for(self, name: Seq<char>) -> CopyStepView {
        CopyStepView::SafeRemotes(
            target_origin_url(self.github_login, name),
            target_push_url(self.github_login, name),
        )
    }

    /// The clone of `source`: clone it under the provisional name, make its remotes
    /// safe at once, then write the README introduction for that name.
    pub open spec fn clone_steps(self, source: Repo) -> Seq<CopyStepView> {
        seq![
            CopyStepView::Git(seq!["clone"@, source.clone_url@, DEFAULT_NEW_REPO@]),
            self.remotes_for(DEFAULT_NEW_REPO@),
            CopyStepView::WriteReadme(DEFAULT_NEW_REPO@),
        ]
    }

    /// The rename to `name`: the directory, the remotes and the README introduction,
    /// all under that one name.
    pub open spec fn rename_steps(self, name: Seq<char>) -> Seq<CopyStepView> {
        seq![
            CopyStepView::MoveTo(name),
            self.remotes_for(name),
            CopyStepView::WriteReadme(name),
        ]
    }
}

pub open spec fn copy_steps_view(steps: Seq<CopyStep>) -> Seq<CopyStepView> {
    steps.map_values(|c: CopyStep| c@)
}

fn strings_of3(a: &str, b: &str, c: &str) -> (r: Vec<String>)
    ensures
        string_views(r@) == seq![a@, b@, c@],
{
    let mut r: Vec<String> = Vec::new();
    r.push(string_of(a));
    r.push(string_of(b));
    r.push(string_of(c));
    assert(string_views(r@) =~= seq![a@, b@, c@]);
    r
}

impl App {
    fn remotes_step(&self, name: &str) -> (r: CopyStep)
        ensures
            r@ == self@.remotes_for(name@),
    {
        CopyStep::SafeRemotes {
            origin_url: build_target_origin_url(self.github_login.as_str(), name),
            push_url: build_target_origin_push_url(self.github_login.as_str(), name),
        }
    }

    /// The steps that clone `source` into the working copy.
    pub fn clone_plan(&self, source: &Repo) -> (r: Vec<CopyStep>)
        ensures
            copy_steps_view(r@) == self@.clone_steps(*source),
    {
        let mut plan: Vec<CopyStep> = Vec::new();
        plan.push(CopyStep::Git { args: strings_of3("clone", source.clone_url.as_str(), DEFAULT_NEW_REPO) });
        plan.push(self.remotes_step(DEFAULT_NEW_REPO));
        plan.push(CopyStep::WriteReadme { name: string_of(DEFAULT_NEW_REPO) });
        assert(copy_steps_view(plan@) =~= self@.clone_steps(*source));
        plan
    }

    /// The steps that rename the working copy to `name`.
    pub fn rename_plan(&self, name: &str) -> (r: Vec<CopyStep>)
        ensures
            copy_steps_view(r@) == self@.rename_steps(name@),
    {
        let mut plan: Vec<CopyStep> = Vec::new();
        plan.push(CopyStep::MoveTo { name: string_of(name) });
        plan.push(self.remotes_step(name));
        plan.push(CopyStep::WriteReadme { name: string_of(name) });
        assert(copy_steps_view(plan@) =~= self@.rename_steps(name@));
        plan
    }
}

/// The remotes a rename sets up are the ones the push later checks and sets again: a
/// rename to the name the push goes under points `origin` at the same addresses.
pub proof fn law_rename_and_push_agree_on_remotes(v: AppView)
    ensures
        v.rename_steps(v.new_repo_name)[1] == match v.push_steps()[0] {
            PushStep::SafeRemotes(o, p) => CopyStepView::SafeRemotes(o, p),
            PushStep::CreateRepo(a) => CopyStepView::Git(a),
            PushStep::Git(a) => CopyStepView::Git(a),
        },
{
}

impl App {
    /// The whole log pane as one text, a line per log line.
    pub fn log_text(&self) -> (t: String)
        ensures
            t@ == crate::text::join(self@.log_lines, "\n"@),
    {
        crate::git_ops::join_strings(&self.log_state.lines, "\n")
    }
}

/// Orders optional modification times: an unknown time comes before every known one.
pub open spec fn time_le(a: Option<u128>, b: Option<u128>) -> bool {
    match (a, b) {
        (None, _) => true,
        (Some(_), None) => false,
        (Some(x), Some(y)) => x <= y,
    }
}

/// Of the working copies found at start (given by their modification times), the one
/// whose tree is shown: the most recently modified, the last found among equals.
pub fn newest_candidate(modified: &Vec<Option<u128>>) -> (r: Option<usize>)
    ensures
        modified@.len() == 0 ==> r is None,
        modified@.len() > 0 ==> r is Some && r->0 < modified@.len()
            && (forall|j: int| 0 <= j < modified@.len() ==> time_le(#[trigger] modified@[j], modified@[r->0 as int]))
            && (forall|j: int| r->0 < j < modified@.len() ==> !time_le(modified@[r->0 as int], #[trigger] modified@[j])),
{
    if modified.len() == 0 {
        return None;
    }
    let mut best: usize = 0;
    let mut i: usize = 1;
    while i < modified.len()
        invariant
            1 <= i <= modified@.len(),
            best < i,
            forall|j: int| 0 <= j < i ==> time_le(#[trigger] modified@[j], modified@[best as int]),
            forall|j: int| best < j < i ==> !time_le(modified@[best as int], #[trigger] modified@[j]),
        decreases modified@.len() - i,
    {
        let later = match (modified[best], modified[i]) {
            (None, _) => true,
            (Some(_), None) => false,
            (Some(x), Some(y)) => x <= y,
        };
        if later {
            best = i;
        }
        i = i + 1;
    }
    Some(best)
}


/// A line written to the log pane becomes its last line; the pane keeps at most
/// `MAX_LOG_LINES` lines once it has that many, and below that keeps every line.
pub proof fn law_log_keeps_newest_lines(v: AppView, line: Seq<char>, appended: bool)
    requires
        v.log_lines.len() <= MAX_LOG_LINES,
    ensures
        v.logged(line, appended).log_lines.last() == line,
        v.logged(line, appended).log_lines.len() <= MAX_LOG_LINES,
        v.log_lines.len() < MAX_LOG_LINES ==> v.logged(line, appended).log_lines == v.log_lines.push(line),
        v.logged(line, appended).log_scroll == bottom_scroll(v.logged(line, appended).log_lines.len()),
{
}

} // verus!
