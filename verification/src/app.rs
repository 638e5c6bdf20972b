//! The state of the application and how it answers the keyboard and the mouse.
//! Whatever needs the outside world (the network, git, the clipboard, the clock) is
//! handed back to the caller as an effect or taken in as an argument.
use vstd::prelude::*;

use crate::layout::{
    contains, cut_from, holds_cell, in_range, rect_within, split, Constraint, Direction, Rect,
};
use crate::models::{
    clamped_move, ActivePane, ListState, LogState, Mode, PreviewState, PreviewView, Repo,
    RepoListState, StatusItem, TreeListState,
};
use crate::text::{
    contains_chars, contains_seq, lowercase, opt_string_view, push_char, str_to_lowercase,
    string_of, string_views, to_chars, trim, trim_str, words, split_words,
};

verus! {

broadcast use vstd::string::group_string_axioms;

/// Work that the main loop runs on its next turn, after the busy popup is drawn.
#[derive(Debug, Clone, Copy, PartialEq, Eq, Structural)]
pub enum PendingAction {
    CloneSelectedRepo,
    PushToOrigin,
    ConfirmNewRepoName,
    CommitChanges,
}

#[derive(Debug, Clone, Copy, PartialEq, Eq, Structural)]
pub enum KeyCode {
    Char(char),
    Esc,
    Enter,
    Backspace,
    Left,
    Right,
    Up,
    Down,
    PageUp,
    PageDown,
    Other,
}

#[derive(Debug, Clone, Copy, PartialEq, Eq, Structural)]
pub enum KeyKind {
    Press,
    Repeat,
    Release,
}

/// A key event: the key, whether it went down, repeated or came up, and the modifiers.
#[derive(Debug, Clone, Copy, PartialEq, Eq, Structural)]
pub struct KeyInput {
    pub code: KeyCode,
    pub kind: KeyKind,
    pub shift: bool,
    pub control: bool,
}

/// What the caller has to do after a key was handled.
#[derive(Debug)]
pub enum KeyEffect {
    /// Reload the README preview of the selected repository; a failure is ignored.
    RefreshReadmePreview,
    /// Reload the README preview of the selected repository; a failure is an error.
    RefreshReadmePreviewChecked,
    /// Copy the whole log to the clipboard.
    CopyLogs,
    /// Validate the working copy and open the push confirmation.
    PreparePushConfirm,
    /// Start the clock of the busy popup.
    StartBusyTimer,
    /// Write a line to the log.
    Log(String),
}

/// `KeyEffect` as a value.
pub enum Effect {
    RefreshReadmePreview,
    RefreshReadmePreviewChecked,
    CopyLogs,
    PreparePushConfirm,
    StartBusyTimer,
    Log(Seq<char>),
}

pub open spec fn effect_view(e: KeyEffect) -> Effect {
    match e {
        KeyEffect::RefreshReadmePreview => Effect::RefreshReadmePreview,
        KeyEffect::RefreshReadmePreviewChecked => Effect::RefreshReadmePreviewChecked,
        KeyEffect::CopyLogs => Effect::CopyLogs,
        KeyEffect::PreparePushConfirm => Effect::PreparePushConfirm,
        KeyEffect::StartBusyTimer => Effect::StartBusyTimer,
        KeyEffect::Log(s) => Effect::Log(s@),
    }
}

pub open spec fn effects_view(v: Seq<KeyEffect>) -> Seq<Effect> {
    v.map_values(|e: KeyEffect| effect_view(e))
}

pub open spec fn outcome_view(r: Result<Vec<KeyEffect>, String>) -> Result<Seq<Effect>, Seq<char>> {
    match r {
        Ok(v) => Ok(effects_view(v@)),
        Err(e) => Err(e@),
    }
}

/// Where the repository list, the directory tree and the log pane are on the screen.
#[derive(Debug, Clone, Copy, PartialEq, Eq, Structural)]
pub struct LayoutRects {
    pub repos: Rect,
    pub dir_tree: Option<Rect>,
    pub log: Rect,
}

pub open spec fn root_constraints() -> Seq<Constraint> {
    seq![
        Constraint::Length(1),
        Constraint::Percentage(48),
        Constraint::Percentage(47),
        Constraint::Length(3),
    ]
}

/// The columns of the upper half: TODO, repos, README when nothing is cloned; TODO,
/// repos, tree, (validation once the name is confirmed), README after a clone.
pub open spec fn top_constraints(show_tree: bool, show_validation: bool) -> Seq<Constraint> {
    if !show_tree {
        seq![Constraint::Percentage(18), Constraint::Percentage(30), Constraint::Percentage(52)]
    } else if show_validation {
        seq![
            Constraint::Percentage(14),
            Constraint::Percentage(19),
            Constraint::Percentage(20),
            Constraint::Percentage(20),
            Constraint::Percentage(27),
        ]
    } else {
        seq![
            Constraint::Percentage(16),
            Constraint::Percentage(22),
            Constraint::Percentage(24),
            Constraint::Percentage(38),
        ]
    }
}

/// The panes, given the rows of the screen (`root`, one per `root_constraints`) and
/// the columns of its upper half (`top`, one per `top_constraints`) that the layout
/// solver handed back.
pub open spec fn rects_from_parts(root: Seq<Rect>, top: Seq<Rect>, show_tree: bool) -> LayoutRects {
    LayoutRects {
        repos: top[1],
        dir_tree: if show_tree {
            Some(top[2])
        } else {
            None
        },
        log: root[2],
    }
}

/// The panes lie inside the screen `area`, and the log pane spans its whole width.
pub open spec fn panes_within(l: LayoutRects, area: Rect) -> bool {
    &&& rect_within(l.repos, area)
    &&& rect_within(l.log, area)
    &&& l.log.x == area.x
    &&& l.log.width == area.width
    &&& (l.dir_tree matches Some(t) ==> rect_within(t, area))
}

/// The far edges of every pane fit in `u16`.
pub open spec fn rects_in_range(rects: LayoutRects) -> bool {
    &&& in_range(rects.repos)
    &&& in_range(rects.log)
    &&& (rects.dir_tree matches Some(r) ==> in_range(r))
}

/// The pane a click at `(x, y)` lands on, tried in the order repos, tree, log;
/// `current` when it lands on none of them.
pub open spec fn clicked_pane(rects: LayoutRects, x: u16, y: u16, current: ActivePane) -> ActivePane {
    if holds_cell(rects.repos, x, y) {
        ActivePane::Repos
    } else if rects.dir_tree matches Some(t) && holds_cell(t, x, y) {
        ActivePane::DirTree
    } else if holds_cell(rects.log, x, y) {
        ActivePane::Log
    } else {
        current
    }
}

/// The application state as values.
#[verifier::ext_equal]
pub struct AppView {
    pub repos: Seq<Repo>,
    pub repo_state: RepoListState,
    pub new_repo_name: Seq<char>,
    pub edit_buffer: Seq<char>,
    pub name_confirmed: bool,
    pub preview: Option<PreviewView>,
    pub status_items: Seq<(bool, Seq<char>)>,
    pub dry_run_lines: Seq<Seq<char>>,
    pub mode: Mode,
    pub should_quit: bool,
    pub committed: bool,
    pub pushed: bool,
    pub last_commit_message: Option<Seq<char>>,
    pub log_lines: Seq<Seq<char>>,
    pub log_scroll: u16,
    pub show_help: bool,
    pub github_token: Seq<char>,
    pub github_login: Seq<char>,
    pub repo_name_available: Option<bool>,
    pub remote_safety_lines: Seq<Seq<char>>,
    pub active_pane: ActivePane,
    pub tree_state: TreeListState,
    pub startup_tree_lines: Seq<Seq<char>>,
    pub busy_message: Option<Seq<char>>,
    pub is_focused: bool,
    pub frame_area: Rect,
    pub repo_filter: Seq<char>,
    pub filter_state: RepoListState,
    pub readme_preview_title: Seq<char>,
    pub readme_preview_markdown: Seq<char>,
    pub filter_restore_state: Option<RepoListState>,
    pub pending_action: Option<PendingAction>,
    pub log_file_line_count: usize,
    pub startup_loading: bool,
    pub startup_error: Option<Seq<char>>,
}

/// A repository matches when its full name, lower-cased, contains every term.
pub open spec fn repo_matches(r: Repo, terms: Seq<Seq<char>>) -> bool {
    forall|t: int| 0 <= t < terms.len() ==> contains_seq(lowercase(r.full_name@), #[trigger] terms[t])
}

/// The filter's words, lower-cased.
pub open spec fn filter_terms(filter: Seq<char>) -> Seq<Seq<char>> {
    words(filter).map_values(|w: Seq<char>| lowercase(w))
}

/// The positions of the repositories the filter lets through: all of them for a blank
/// filter, else those whose full name contains every space-separated word (ignoring case).
pub open spec fn matching_indices(repos: Seq<Repo>, filter: Seq<char>) -> Seq<usize> {
    let all = Seq::new(repos.len(), |i: int| i as usize);
    if trim(filter).len() == 0 {
        all
    } else {
        all.filter(|i: usize| repo_matches(repos[i as int], filter_terms(filter)))
    }
}

/// Every position the filter lets through is a position of the list.
pub proof fn lemma_matching_indices_in_range(repos: Seq<Repo>, filter: Seq<char>)
    requires
        repos.len() <= usize::MAX,
    ensures
        forall|k: int|
            0 <= k < matching_indices(repos, filter).len() ==> #[trigger] matching_indices(
                repos,
                filter,
            )[k] < repos.len(),
{
    let all = Seq::new(repos.len(), |i: int| i as usize);
    if trim(filter).len() != 0 {
        let pred = |i: usize| repo_matches(repos[i as int], filter_terms(filter));
        assert forall|k: int| 0 <= k < all.filter(pred).len() implies #[trigger] all.filter(pred)[k]
            < repos.len() by {
            let x = all.filter(pred)[k];
            assert(all.filter(pred).contains(x));
            all.lemma_filter_contains_rev(pred, x);
            let j = choose|j: int| 0 <= j < all.len() && all[j] == x;
            assert(all[j] == j as usize);
        }
    }
}

/// Bound on list positions: keeps the cursor arithmetic within `isize`.
pub open spec fn cursor_limit() -> int {
    isize::MAX - 16
}

pub open spec fn saturating_sub_u16(a: u16, b: u16) -> u16 {
    if a >= b {
        (a - b) as u16
    } else {
        0
    }
}

pub open spec fn saturating_add_u16(a: u16, b: u16) -> u16 {
    if a + b > u16::MAX {
        u16::MAX
    } else {
        (a + b) as u16
    }
}

impl AppView {
    pub open spec fn tree_len(self) -> nat {
        match self.preview {
            Some(p) => p.file_list.len(),
            None => self.startup_tree_lines.len(),
        }
    }

    pub open spec fn filtered(self) -> Seq<usize> {
        matching_indices(self.repos, self.repo_filter)
    }

    /// Rows of log text the log pane shows (inside its border, at least one), with the
    /// panes at `l`.
    pub open spec fn log_view_height(self, l: LayoutRects) -> u16 {
        let h = saturating_sub_u16(l.log.height, 2);
        if h < 1 {
            1
        } else {
            h
        }
    }

    /// The scroll position that shows the last page of the log, with the panes at `l`.
    pub open spec fn bottom_log_scroll(self, l: LayoutRects) -> u16 {
        let total = self.log_lines.len();
        let h = self.log_view_height(l) as nat;
        let rest: nat = if total >= h {
            (total - h) as nat
        } else {
            0
        };
        if rest > u16::MAX {
            u16::MAX
        } else {
            rest as u16
        }
    }

    pub open spec fn scrolled_up(self, n: u16) -> AppView {
        AppView { log_scroll: saturating_sub_u16(self.log_scroll, n), ..self }
    }

    pub open spec fn scrolled_down(self, n: u16, l: LayoutRects) -> AppView {
        let bottom = self.bottom_log_scroll(l);
        let s = saturating_add_u16(self.log_scroll, n);
        AppView {
            log_scroll: if s >= bottom {
                bottom
            } else {
                s
            },
            ..self
        }
    }

    /// The pane to the right; without a directory tree the panes are repos and log only.
    pub open spec fn pane_after(self) -> ActivePane {
        if self.preview is Some {
            self.active_pane.spec_next()
        } else {
            match self.active_pane {
                ActivePane::Repos => ActivePane::Log,
                ActivePane::DirTree => ActivePane::Repos,
                ActivePane::Log => ActivePane::Repos,
            }
        }
    }

    /// The pane to the left; without a directory tree the panes are repos and log only.
    pub open spec fn pane_before(self) -> ActivePane {
        if self.preview is Some {
            self.active_pane.spec_previous()
        } else {
            match self.active_pane {
                ActivePane::Repos => ActivePane::Log,
                ActivePane::DirTree => ActivePane::Repos,
                ActivePane::Log => ActivePane::Repos,
            }
        }
    }

    pub open spec fn with_pane(self, pane: ActivePane) -> AppView {
        AppView { active_pane: pane, ..self }
    }

    /// Without a directory tree the tree pane cannot be the active one.
    pub open spec fn normalized(self) -> AppView {
        if self.preview is None && self.active_pane == ActivePane::DirTree {
            self.with_pane(ActivePane::Repos)
        } else {
            self
        }
    }

    /// The list cursors and list lengths stay far below `isize::MAX`.
    pub open spec fn wf(self) -> bool {
        &&& self.repo_state.selected < cursor_limit()
        &&& self.filter_state.selected < cursor_limit()
        &&& self.tree_state.selected < cursor_limit()
        &&& (self.filter_restore_state matches Some(s) ==> s.selected < cursor_limit())
        &&& self.repos.len() < cursor_limit()
        &&& self.startup_tree_lines.len() < cursor_limit()
        &&& (self.preview matches Some(p) ==> p.file_list.len() < cursor_limit())
    }

    /// A cursor move inside the active pane: the repository list (which also reloads
    /// the README preview), the directory tree, or the log (with the panes at `l`).
    pub open spec fn moved_in_pane(self, delta: isize, log_rows: u16, down: bool, l: LayoutRects) -> (
        AppView,
        Seq<Effect>,
    ) {
        match self.active_pane {
            ActivePane::Repos => {
                let len = self.filtered().len();
                let rs = if len == 0 {
                    self.repo_state
                } else {
                    let sel = clamped_move(self.repo_state.selected, delta, len as usize);
                    RepoListState {
                        selected: sel,
                        list: ListState { selected: Some(sel), ..self.repo_state.list },
                    }
                };
                (AppView { repo_state: rs, ..self }, seq![Effect::RefreshReadmePreview])
            },
            ActivePane::DirTree => {
                let len = self.tree_len();
                let ts = if len == 0 {
                    TreeListState { selected: 0, list: ListState { selected: None, offset: 0 } }
                } else {
                    let sel = clamped_move(self.tree_state.selected, delta, len as usize);
                    TreeListState {
                        selected: sel,
                        list: ListState { selected: Some(sel), ..self.tree_state.list },
                    }
                };
                (AppView { tree_state: ts, ..self }, Seq::empty())
            },
            ActivePane::Log => (
                if down {
                    self.scrolled_down(log_rows, l)
                } else {
                    self.scrolled_up(log_rows)
                },
                Seq::empty(),
            ),
        }
    }

    /// The filter popup's cursor kept inside the filtered list.
    pub open spec fn filter_synced(self) -> AppView {
        let len = self.filtered().len();
        if len == 0 {
            AppView {
                filter_state: RepoListState {
                    selected: 0,
                    list: ListState { selected: None, offset: 0 },
                },
                ..self
            }
        } else {
            let sel = if self.filter_state.selected >= len {
                (len - 1) as usize
            } else {
                self.filter_state.selected
            };
            AppView {
                filter_state: RepoListState {
                    selected: sel,
                    list: ListState { selected: Some(sel), ..self.filter_state.list },
                },
                ..self
            }
        }
    }

    pub open spec fn filter_moved(self, delta: isize) -> AppView {
        let len = self.filtered().len();
        if len == 0 {
            self
        } else {
            let sel = clamped_move(self.filter_state.selected, delta, len as usize);
            AppView {
                filter_state: RepoListState {
                    selected: sel,
                    list: ListState { selected: Some(sel), ..self.filter_state.list },
                },
                ..self
            }
        }
    }

    /// Scrolls the repository list so that the selected row sits in the middle of the
    /// repository pane at `l.repos`.
    pub open spec fn centered(self, l: LayoutRects) -> AppView {
        let visible = saturating_sub_u16(l.repos.height, 2);
        if visible == 0 {
            self
        } else {
            let half = visible / 2;
            let offset: usize = if self.repo_state.selected >= half {
                (self.repo_state.selected - half) as usize
            } else {
                0
            };
            AppView {
                repo_state: RepoListState {
                    list: ListState { offset, ..self.repo_state.list },
                    ..self.repo_state
                },
                ..self
            }
        }
    }

    /// Esc in the filter popup: the filter is dropped and the cursor goes back to
    /// where it was when the popup opened.
    pub open spec fn filter_cancelled(self) -> AppView {
        AppView {
            mode: Mode::Normal,
            repo_filter: Seq::empty(),
            repo_state: match self.filter_restore_state {
                Some(s) => s,
                None => self.repo_state,
            },
            filter_restore_state: None,
            ..self
        }
    }

    /// Enter in the filter popup: the list cursor goes to the chosen repository (the
    /// last match when the popup's cursor is past it), the filter is dropped and the
    /// list is scrolled to show the cursor in the middle.
    pub open spec fn filter_chosen(self, l: LayoutRects) -> AppView {
        self.filter_chosen_in_place().centered(l)
    }

    pub open spec fn filter_chosen_in_place(self) -> AppView {
        let indices = self.filtered();
        let rs = if indices.len() == 0 {
            self.repo_state
        } else {
            let visible = if self.filter_state.selected < indices.len() - 1 {
                self.filter_state.selected as int
            } else {
                indices.len() - 1
            };
            let sel = indices[visible];
            RepoListState { selected: sel, list: ListState { selected: Some(sel), ..self.repo_state.list } }
        };
        AppView {
            repo_state: rs,
            repo_filter: Seq::empty(),
            mode: Mode::Normal,
            filter_restore_state: None,
            ..self
        }
    }

    /// Keys while the repository filter popup is open.
    pub open spec fn filter_key(self, key: KeyInput, l: LayoutRects) -> (AppView, Seq<Effect>) {
        if key.kind != KeyKind::Press {
            (self, Seq::empty())
        } else {
            match key.code {
                KeyCode::Esc => (self.filter_cancelled(), seq![Effect::RefreshReadmePreviewChecked]),
                KeyCode::Enter => (self.filter_chosen(l), seq![Effect::RefreshReadmePreviewChecked]),
                KeyCode::Backspace => (
                    AppView {
                        repo_filter: if self.repo_filter.len() > 0 {
                            self.repo_filter.drop_last()
                        } else {
                            self.repo_filter
                        },
                        ..self
                    }.filter_synced(),
                    Seq::empty(),
                ),
                KeyCode::Down => (self.filter_moved(1), Seq::empty()),
                KeyCode::Up => (self.filter_moved(-1 as isize), Seq::empty()),
                KeyCode::PageUp => (self.filter_moved(-10 as isize), Seq::empty()),
                KeyCode::PageDown => (self.filter_moved(10), Seq::empty()),
                KeyCode::Char(c) => if c == 'j' {
                    (self.filter_moved(1), Seq::empty())
                } else if c == 'k' {
                    (self.filter_moved(-1 as isize), Seq::empty())
                } else {
                    (AppView { repo_filter: self.repo_filter.push(c), ..self }.filter_synced(), Seq::empty())
                },
                _ => (self, Seq::empty()),
            }
        }
    }

    /// Keys while the new repository name is edited.
    pub open spec fn name_key(self, key: KeyInput) -> (AppView, Seq<Effect>) {
        if key.kind != KeyKind::Press {
            (self, Seq::empty())
        } else {
            match key.code {
                KeyCode::Esc => (
                    AppView { mode: Mode::Normal, ..self },
                    seq![Effect::Log("repo 名の変更を中止しました"@)],
                ),
                KeyCode::Enter => (
                    AppView {
                        mode: Mode::Normal,
                        busy_message: Some("new repo name を確定しています..."@),
                        pending_action: Some(PendingAction::ConfirmNewRepoName),
                        ..self
                    },
                    seq![Effect::StartBusyTimer],
                ),
                KeyCode::Backspace => (
                    AppView {
                        edit_buffer: if self.edit_buffer.len() > 0 {
                            self.edit_buffer.drop_last()
                        } else {
                            self.edit_buffer
                        },
                        ..self
                    },
                    Seq::empty(),
                ),
                KeyCode::Char(c) => (AppView { edit_buffer: self.edit_buffer.push(c), ..self }, Seq::empty()),
                _ => (self, Seq::empty()),
            }
        }
    }

    /// Keys while the push confirmation is open: `y` pushes, `N`, `n` or Esc cancel.
    pub open spec fn confirm_key(self, key: KeyInput) -> (AppView, Seq<Effect>) {
        if key.kind != KeyKind::Press {
            (self, Seq::empty())
        } else {
            match key.code {
                KeyCode::Char(c) => if c == 'y' {
                    (
                        AppView {
                            busy_message: Some("pushしています..."@),
                            pending_action: Some(PendingAction::PushToOrigin),
                            ..self
                        },
                        seq![Effect::StartBusyTimer],
                    )
                } else if c == 'N' || c == 'n' {
                    (AppView { mode: Mode::Normal, ..self }, seq![Effect::Log("push を中止しました"@)])
                } else {
                    (self, Seq::empty())
                },
                KeyCode::Esc => (AppView { mode: Mode::Normal, ..self }, seq![Effect::Log("push を中止しました"@)]),
                _ => (self, Seq::empty()),
            }
        }
    }

    /// `n`: start editing the new name, which needs a clone first.
    pub open spec fn begin_edit(self) -> (AppView, Result<Seq<Effect>, Seq<char>>) {
        if self.preview is None {
            (self, Err("先に Enter で repo を clone してください"@))
        } else {
            (
                AppView { edit_buffer: self.new_repo_name, mode: Mode::EditingName, ..self },
                Ok(seq![Effect::Log("新しい repo 名の編集を開始します: "@ + self.new_repo_name)]),
            )
        }
    }

    /// Keys in the main view.
    pub open spec fn normal_key(self, key: KeyInput, l: LayoutRects) -> (AppView, Result<Seq<Effect>, Seq<char>>) {
        let press = key.kind == KeyKind::Press;
        let repeat = key.kind == KeyKind::Repeat;
        let nothing = (self, Ok(Seq::<Effect>::empty()));
        match key.code {
            KeyCode::Char(c) => if c == 'q' && press {
                (AppView { should_quit: true, ..self }, Ok(Seq::empty()))
            } else if c == '?' && press {
                (AppView { show_help: true, ..self }, Ok(Seq::empty()))
            } else if c == '/' && press {
                (
                    AppView {
                        active_pane: ActivePane::Repos,
                        mode: Mode::FilteringRepos,
                        filter_restore_state: Some(self.repo_state),
                        filter_state: RepoListState {
                            selected: 0,
                            list: ListState {
                                offset: 0,
                                selected: if self.filtered().len() > 0 {
                                    Some(0usize)
                                } else {
                                    None
                                },
                            },
                        },
                        ..self
                    },
                    Ok(Seq::empty()),
                )
            } else if c == 'h' && press {
                (AppView { active_pane: self.pane_before(), ..self }, Ok(Seq::empty()))
            } else if c == 'l' && press {
                (AppView { active_pane: self.pane_after(), ..self }, Ok(Seq::empty()))
            } else if c == 'j' && (press || repeat) {
                let (v, e) = self.moved_in_pane(1, 1, true, l);
                (v, Ok(e))
            } else if c == 'k' && (press || repeat) {
                let (v, e) = self.moved_in_pane(-1 as isize, 1, false, l);
                (v, Ok(e))
            } else if c == 'n' && press {
                AppView { active_pane: ActivePane::Repos, ..self }.begin_edit()
            } else if c == 'c' && press {
                (
                    AppView {
                        active_pane: ActivePane::Repos,
                        busy_message: Some("commit を実行しています..."@),
                        pending_action: Some(PendingAction::CommitChanges),
                        ..self
                    },
                    Ok(seq![Effect::StartBusyTimer]),
                )
            } else if c == 'L' && key.shift && press {
                (AppView { active_pane: ActivePane::Log, ..self }, Ok(seq![Effect::CopyLogs]))
            } else if c == 'u' && key.control && (press || repeat) {
                (AppView { active_pane: ActivePane::Log, ..self }.scrolled_up(10), Ok(Seq::empty()))
            } else if c == 'd' && key.control && (press || repeat) {
                (AppView { active_pane: ActivePane::Log, ..self }.scrolled_down(10, l), Ok(Seq::empty()))
            } else if c == 'P' && key.shift && press {
                (AppView { active_pane: ActivePane::Repos, ..self }, Ok(seq![Effect::PreparePushConfirm]))
            } else {
                nothing
            },
            KeyCode::Left => if press {
                (AppView { active_pane: self.pane_before(), ..self }, Ok(Seq::empty()))
            } else {
                nothing
            },
            KeyCode::Right => if press {
                (AppView { active_pane: self.pane_after(), ..self }, Ok(Seq::empty()))
            } else {
                nothing
            },
            KeyCode::Down => if press || repeat {
                let (v, e) = self.moved_in_pane(1, 1, true, l);
                (v, Ok(e))
            } else {
                nothing
            },
            KeyCode::Up => if press || repeat {
                let (v, e) = self.moved_in_pane(-1 as isize, 1, false, l);
                (v, Ok(e))
            } else {
                nothing
            },
            KeyCode::Enter => if press && self.active_pane == ActivePane::Repos {
                (
                    AppView {
                        active_pane: ActivePane::Repos,
                        busy_message: Some("Cloning repository..."@),
                        pending_action: Some(PendingAction::CloneSelectedRepo),
                        ..self
                    },
                    Ok(seq![Effect::StartBusyTimer]),
                )
            } else {
                nothing
            },
            KeyCode::PageUp => if press || repeat {
                let (v, e) = self.moved_in_pane(-10 as isize, 10, false, l);
                (v, Ok(e))
            } else {
                nothing
            },
            KeyCode::PageDown => if press || repeat {
                let (v, e) = self.moved_in_pane(10, 10, true, l);
                (v, Ok(e))
            } else {
                nothing
            },
            _ => nothing,
        }
    }

    /// The answer to one key: the help overlay swallows keys until it is closed, the
    /// popups take keys while they are open, and the main view takes the rest. The panes
    /// are at `l`, as the layout solver cut the screen for this key.
    pub open spec fn key_step(self, key: KeyInput, l: LayoutRects) -> (AppView, Result<Seq<Effect>, Seq<char>>) {
        if key.kind == KeyKind::Release {
            (self, Ok(Seq::empty()))
        } else if self.show_help {
            if key.kind != KeyKind::Press {
                (self, Ok(Seq::empty()))
            } else if key.code == KeyCode::Char('?') || key.code == KeyCode::Esc || key.code
                == KeyCode::Enter {
                (AppView { show_help: false, ..self }, Ok(Seq::empty()))
            } else {
                (self, Ok(Seq::empty()))
            }
        } else {
            match self.mode {
                Mode::EditingName => {
                    let (v, e) = self.name_key(key);
                    (v, Ok(e))
                },
                Mode::ConfirmPush => {
                    let (v, e) = self.confirm_key(key);
                    (v, Ok(e))
                },
                Mode::FilteringRepos => {
                    let (v, e) = self.filter_key(key, l);
                    (v, Ok(e))
                },
                Mode::Normal => self.normal_key(key, l),
            }
        }
    }
}

proof fn lemma_filter_take_step(s: Seq<usize>, i: int, pred: spec_fn(usize) -> bool)
    requires
        0 <= i < s.len(),
    ensures
        s.take(i + 1).filter(pred) == (if pred(s[i]) {
            s.take(i).filter(pred).push(s[i])
        } else {
            s.take(i).filter(pred)
        }),
{
    reveal(Seq::filter);
    assert(s.take(i + 1).drop_last() =~= s.take(i));
}

/// The application state.
pub struct App {
    pub repos: Vec<Repo>,
    pub repo_state: RepoListState,
    pub new_repo_name: String,
    pub edit_buffer: String,
    pub name_confirmed: bool,
    pub preview: Option<PreviewState>,
    pub status_items: Vec<StatusItem>,
    pub dry_run_lines: Vec<String>,
    pub mode: Mode,
    pub should_quit: bool,
    pub committed: bool,
    pub pushed: bool,
    pub last_commit_message: Option<String>,
    pub log_state: LogState,
    pub show_help: bool,
    pub github_token: String,
    pub github_login: String,
    pub repo_name_available: Option<bool>,
    pub remote_safety_lines: Vec<String>,
    pub active_pane: ActivePane,
    pub tree_state: TreeListState,
    pub startup_tree_lines: Vec<String>,
    pub busy_message: Option<String>,
    pub is_focused: bool,
    pub frame_area: Rect,
    pub repo_filter: String,
    pub filter_state: RepoListState,
    pub readme_preview_title: String,
    pub readme_preview_markdown: String,
    pub filter_restore_state: Option<RepoListState>,
    pub pending_action: Option<PendingAction>,
    pub log_file_line_count: usize,
    /// The background start-up (token, login, repositories) has not reported yet.
    pub startup_loading: bool,
    /// Why the background start-up failed.
    pub startup_error: Option<String>,
}

impl View for App {
    type V = AppView;

    open spec fn view(&self) -> AppView {
        AppView {
            repos: self.repos@,
            repo_state: self.repo_state,
            new_repo_name: self.new_repo_name@,
            edit_buffer: self.edit_buffer@,
            name_confirmed: self.name_confirmed,
            preview: match self.preview {
                Some(p) => Some(p@),
                None => None,
            },
            status_items: self.status_items@.map_values(|s: StatusItem| (s.done, s.label@)),
            dry_run_lines: string_views(self.dry_run_lines@),
            mode: self.mode,
            should_quit: self.should_quit,
            committed: self.committed,
            pushed: self.pushed,
            last_commit_message: opt_string_view(self.last_commit_message),
            log_lines: string_views(self.log_state.lines@),
            log_scroll: self.log_state.scroll,
            show_help: self.show_help,
            github_token: self.github_token@,
            github_login: self.github_login@,
            repo_name_available: self.repo_name_available,
            remote_safety_lines: string_views(self.remote_safety_lines@),
            active_pane: self.active_pane,
            tree_state: self.tree_state,
            startup_tree_lines: string_views(self.startup_tree_lines@),
            busy_message: opt_string_view(self.busy_message),
            is_focused: self.is_focused,
            frame_area: self.frame_area,
            repo_filter: self.repo_filter@,
            filter_state: self.filter_state,
            readme_preview_title: self.readme_preview_title@,
            readme_preview_markdown: self.readme_preview_markdown@,
            filter_restore_state: self.filter_restore_state,
            pending_action: self.pending_action,
            log_file_line_count: self.log_file_line_count,
            startup_loading: self.startup_loading,
            startup_error: opt_string_view(self.startup_error),
        }
    }
}

/// `String::pop`: takes the last character off and returns it; an empty string stays
/// empty and gives `None`, as its documentation says.
#[verifier::external_body]
fn pop_char(s: &mut String) -> (c: Option<char>)
    ensures
        old(s)@.len() == 0 ==> c is None && final(s)@ == old(s)@,
        old(s)@.len() > 0 ==> c == Some(old(s)@.last()) && final(s)@ == old(s)@.drop_last(),
{
    s.pop()
}

/// `String::clear`.
fn clear_string(s: &mut String)
    ensures
        final(s)@ == Seq::<char>::empty(),
{
    *s = String::new();
}

impl App {
    /// The repository the cursor of the list is on.
    pub fn selected_repo(&self) -> (r: Option<&Repo>)
        ensures
            self.repo_state.selected < self.repos@.len() ==> r == Some(&self.repos@[self.repo_state.selected as int]),
            self.repo_state.selected >= self.repos@.len() ==> r is None,
    {
        if self.repo_state.selected < self.repos.len() {
            Some(&self.repos[self.repo_state.selected])
        } else {
            None
        }
    }

    /// The positions of the repositories the filter lets through.
    #[verifier::rlimit(30)]
    pub fn filtered_repo_indices(&self) -> (r: Vec<usize>)
        ensures
            r@ == matching_indices(self.repos@, self.repo_filter@),
    {
        let n = self.repos.len();
        let ghost all = Seq::new(n as nat, |i: int| i as usize);
        let mut r: Vec<usize> = Vec::new();
        if trim_str(self.repo_filter.as_str()).len() == 0 {
            let mut i: usize = 0;
            while i < n
                invariant
                    i <= n,
                    n == self.repos@.len(),
                    all == Seq::new(n as nat, |i: int| i as usize),
                    r@ == all.take(i as int),
                decreases n - i,
            {
                r.push(i);
                assert(r@ =~= all.take(i + 1));
                i = i + 1;
            }
            assert(all.take(n as int) =~= all);
            return r;
        }
        let filter_chars = to_chars(self.repo_filter.as_str());
        let ws = split_words(filter_chars.as_slice());
        let mut terms: Vec<Vec<char>> = Vec::new();
        let mut t: usize = 0;
        let ghost tv = filter_terms(self.repo_filter@);
        while t < ws.len()
            invariant
                t <= ws@.len(),
                ws@.map_values(|w: Vec<char>| w@) == words(self.repo_filter@),
                tv == filter_terms(self.repo_filter@),
                terms@.len() == t,
                forall|k: int| 0 <= k < t ==> #[trigger] terms@[k]@ == tv[k],
            decreases ws@.len() - t,
        {
            let w = crate::text::from_chars(ws[t].as_slice());
            let lower = str_to_lowercase(w.as_str());
            terms.push(to_chars(lower.as_str()));
            proof {
                assert(ws@.map_values(|w: Vec<char>| w@)[t as int] == ws@[t as int]@);
            }
            t = t + 1;
        }
        let ghost pred = |i: usize| repo_matches(self.repos@[i as int], filter_terms(self.repo_filter@));
        let mut i: usize = 0;
        proof {
            reveal(Seq::filter);
            assert(all.take(0).filter(pred) =~= Seq::<usize>::empty());
        }
        while i < n
            invariant
                i <= n,
                n == self.repos@.len(),
                all == Seq::new(n as nat, |i: int| i as usize),
                tv == filter_terms(self.repo_filter@),
                terms@.len() == tv.len(),
                forall|k: int| 0 <= k < tv.len() ==> #[trigger] terms@[k]@ == tv[k],
                forall|j: usize| #[trigger] pred(j) == repo_matches(self.repos@[j as int], tv),
                r@ == all.take(i as int).filter(pred),
            decreases n - i,
        {
            let hay_s = str_to_lowercase(self.repos[i].full_name.as_str());
            let hay = to_chars(hay_s.as_str());
            let mut ok = true;
            let mut k: usize = 0;
            while k < terms.len()
                invariant
                    i < n,
                    n == self.repos@.len(),
                    k <= terms@.len(),
                    terms@.len() == tv.len(),
                    forall|m: int| 0 <= m < tv.len() ==> #[trigger] terms@[m]@ == tv[m],
                    hay@ == lowercase(self.repos@[i as int].full_name@),
                    ok == (forall|m: int| 0 <= m < k ==> contains_seq(hay@, #[trigger] tv[m])),
                decreases terms@.len() - k,
            {
                if !contains_chars(hay.as_slice(), terms[k].as_slice()) {
                    ok = false;
                }
                k = k + 1;
            }
            proof {
                lemma_filter_take_step(all, i as int, pred);
                assert(ok == pred(i));
            }
            if ok {
                r.push(i);
            }
            i = i + 1;
        }
        assert(all.take(n as int) =~= all);
        r
    }

    /// Whether the list cursors and list lengths are within the bounds the key handling
    /// needs (far below `isize::MAX`).
    pub fn cursors_in_bounds(&self) -> (b: bool)
        ensures
            b == self@.wf(),
    {
        let limit: usize = (isize::MAX as usize) - 16;
        let restore_ok = match self.filter_restore_state {
            Some(s) => s.selected < limit,
            None => true,
        };
        let preview_ok = match &self.preview {
            Some(p) => p.file_list.len() < limit,
            None => true,
        };
        self.repo_state.selected < limit && self.filter_state.selected < limit
            && self.tree_state.selected < limit && restore_ok && self.repos.len() < limit
            && self.startup_tree_lines.len() < limit && preview_ok
    }

    /// The directory tree lines: the clone's files once there is one, else what was
    /// found in the work directory at start.
    pub fn current_tree_lines(&self) -> (r: &Vec<String>)
        ensures
            string_views(r@) == match self@.preview {
                Some(p) => p.file_list,
                None => self@.startup_tree_lines,
            },
    {
        match &self.preview {
            Some(p) => &p.file_list,
            None => &self.startup_tree_lines,
        }
    }

    pub fn has_dir_tree_pane(&self) -> (b: bool)
        ensures
            b == self.preview is Some,
    {
        self.preview.is_some()
    }

    /// The rows of the screen, one per `root_constraints`.
    pub fn root_layout_constraints() -> (r: Vec<Constraint>)
        ensures
            r@ == root_constraints(),
    {
        let r = vec![
            Constraint::Length(1),
            Constraint::Percentage(48),
            Constraint::Percentage(47),
            Constraint::Length(3),
        ];
        assert(r@ =~= root_constraints());
        r
    }

    /// The columns of the upper half for the panes on show now.
    pub fn top_layout_constraints(&self) -> (r: Vec<Constraint>)
        ensures
            r@ == top_constraints(self@.preview is Some, self@.preview is Some && self@.name_confirmed),
    {
        let show_dir_tree = self.has_dir_tree_pane();
        let show_validation = show_dir_tree && self.name_confirmed;
        let r = if !show_dir_tree {
            vec![Constraint::Percentage(18), Constraint::Percentage(30), Constraint::Percentage(52)]
        } else if show_validation {
            vec![
                Constraint::Percentage(14),
                Constraint::Percentage(19),
                Constraint::Percentage(20),
                Constraint::Percentage(20),
                Constraint::Percentage(27),
            ]
        } else {
            vec![
                Constraint::Percentage(16),
                Constraint::Percentage(22),
                Constraint::Percentage(24),
                Constraint::Percentage(38),
            ]
        };
        assert(r@ =~= top_constraints(show_dir_tree, show_validation));
        r
    }

    /// The panes, from the rows of the screen and the columns of its upper half as the
    /// layout solver cut them.
    pub fn layout_from_parts(&self, root: &Vec<Rect>, top: &Vec<Rect>) -> (r: LayoutRects)
        requires
            root@.len() == root_constraints().len(),
            top@.len() == top_constraints(
                self@.preview is Some,
                self@.preview is Some && self@.name_confirmed,
            ).len(),
        ensures
            r == rects_from_parts(root@, top@, self@.preview is Some),
    {
        if !self.has_dir_tree_pane() {
            LayoutRects { repos: top[1], dir_tree: None, log: root[2] }
        } else {
            LayoutRects { repos: top[1], dir_tree: Some(top[2]), log: root[2] }
        }
    }

    /// The rows of a screen of size `area` (title, upper panes, log, keys) and the
    /// columns of its upper half, one per pane of `top_panes`: the rows are cut from
    /// `area` top to bottom at its full width, the columns from the second row at its
    /// full height. Where along the cut the layout solver puts the edges is its own, and
    /// each call may put them differently.
    pub fn screen_areas(&self, area: Rect) -> (r: (Vec<Rect>, Vec<Rect>))
        ensures
            r.0@.len() == root_constraints().len(),
            r.1@.len() == top_constraints(
                self@.preview is Some,
                self@.preview is Some && self@.name_confirmed,
            ).len(),
            forall|i: int| 0 <= i < r.0@.len() ==> cut_from(#[trigger] r.0@[i], area, Direction::Vertical),
            forall|j: int| 0 <= j < r.1@.len() ==> cut_from(#[trigger] r.1@[j], r.0@[1], Direction::Horizontal),
    {
        let root_c = App::root_layout_constraints();
        let root = split(area, Direction::Vertical, &root_c);
        let top_c = self.top_layout_constraints();
        let top = split(root[1], Direction::Horizontal, &top_c);
        (root, top)
    }

    /// Where the panes are when the screen is `area`: the panes `layout_from_parts`
    /// makes of some cut of the screen, with a tree pane exactly when a working copy is
    /// shown, every pane inside `area` and the log pane across its whole width.
    pub fn layout_rects(&self, area: Rect) -> (r: LayoutRects)
        ensures
            exists|root: Seq<Rect>, top: Seq<Rect>|
                {
                    &&& root.len() == root_constraints().len()
                    &&& top.len() == top_constraints(
                        self@.preview is Some,
                        self@.preview is Some && self@.name_confirmed,
                    ).len()
                    &&& r == #[trigger] rects_from_parts(root, top, self@.preview is Some)
                },
            r.dir_tree is Some <==> self@.preview is Some,
            panes_within(r, area),
    {
        let (root, top) = self.screen_areas(area);
        proof {
            assert(cut_from(root@[1], area, Direction::Vertical));
            assert(cut_from(root@[2], area, Direction::Vertical));
            assert(cut_from(top@[1], root@[1], Direction::Horizontal));
            if self@.preview is Some {
                assert(cut_from(top@[2], root@[1], Direction::Horizontal));
            }
        }
        self.layout_from_parts(&root, &top)
    }

    /// Rows of log text the log pane shows with the panes at `l`.
    pub fn log_view_height(&self, l: LayoutRects) -> (h: u16)
        ensures
            h == self@.log_view_height(l),
    {
        let h = l.log.height.saturating_sub(2);
        if h < 1 {
            1
        } else {
            h
        }
    }

    pub fn bottom_log_scroll(&self, l: LayoutRects) -> (s: u16)
        ensures
            s == self@.bottom_log_scroll(l),
    {
        let total_lines = self.log_state.lines.len();
        let view_height = self.log_view_height(l) as usize;
        let rest = total_lines.saturating_sub(view_height);
        if rest > 65535 {
            u16::MAX
        } else {
            rest as u16
        }
    }

    pub fn scroll_log_up(&mut self, n: u16)
        ensures
            final(self)@ == old(self)@.scrolled_up(n),
    {
        self.log_state.scroll = self.log_state.scroll.saturating_sub(n);
        assert(self@ =~= old(self)@.scrolled_up(n));
    }

    pub fn scroll_log_down(&mut self, n: u16, l: LayoutRects)
        ensures
            final(self)@ == old(self)@.scrolled_down(n, l),
    {
        let bottom_scroll = self.bottom_log_scroll(l);
        self.log_state.scroll = self.log_state.scroll.saturating_add(n);
        if self.log_state.scroll >= bottom_scroll {
            self.log_state.scroll = bottom_scroll;
        }
        assert(self@ =~= old(self)@.scrolled_down(n, l));
    }

    /// Leaves the directory tree pane when there is no tree to show.
    pub fn normalize_active_pane(&mut self)
        ensures
            final(self)@ == old(self)@.normalized(),
    {
        if !self.has_dir_tree_pane() && self.active_pane == ActivePane::DirTree {
            self.active_pane = ActivePane::Repos;
        }
        assert(self@ =~= old(self)@.normalized());
    }

    pub fn move_active_pane_next(&mut self)
        ensures
            final(self)@ == old(self)@.with_pane(old(self)@.pane_after()),
    {
        self.active_pane = if self.has_dir_tree_pane() {
            self.active_pane.next()
        } else {
            match self.active_pane {
                ActivePane::Repos => ActivePane::Log,
                ActivePane::DirTree => ActivePane::Repos,
                ActivePane::Log => ActivePane::Repos,
            }
        };
        assert(self@ =~= old(self)@.with_pane(old(self)@.pane_after()));
    }

    pub fn move_active_pane_previous(&mut self)
        ensures
            final(self)@ == old(self)@.with_pane(old(self)@.pane_before()),
    {
        self.active_pane = if self.has_dir_tree_pane() {
            self.active_pane.previous()
        } else {
            match self.active_pane {
                ActivePane::Repos => ActivePane::Log,
                ActivePane::DirTree => ActivePane::Repos,
                ActivePane::Log => ActivePane::Repos,
            }
        };
        assert(self@ =~= old(self)@.with_pane(old(self)@.pane_before()));
    }

    /// Scrolls the repository list so that the selected row sits in the middle.
    pub fn center_repo_selection(&mut self, l: LayoutRects)
        ensures
            final(self)@ == old(self)@.centered(l),
    {
        let repos_rect = l.repos;
        let visible_rows = repos_rect.height.saturating_sub(2) as usize;
        if visible_rows == 0 {
            return;
        }
        let half = visible_rows / 2;
        let offset = self.repo_state.selected.saturating_sub(half);
        self.repo_state.list.set_offset(offset);
        assert(self@ =~= old(self)@.centered(l));
    }

    /// Keeps the filter popup's cursor inside the filtered list.
    #[verifier::rlimit(30)]
    pub fn sync_filter_state(&mut self)
        ensures
            final(self)@ == old(self)@.filter_synced(),
    {
        let len = self.filtered_repo_indices().len();
        if len == 0 {
            self.filter_state = RepoListState::new(false);
            assert(self@ =~= old(self)@.filter_synced());
            return;
        }
        if self.filter_state.selected >= len {
            self.filter_state.selected = len - 1;
        }
        self.filter_state.list.select(Some(self.filter_state.selected));
        assert(self@ =~= old(self)@.filter_synced());
    }

    #[verifier::rlimit(30)]
    fn move_in_pane(&mut self, delta: isize, log_rows: u16, down: bool, l: LayoutRects) -> (effects: Vec<KeyEffect>)
        requires
            old(self)@.wf(),
            -10 <= delta <= 10,
        ensures
            final(self)@ == old(self)@.moved_in_pane(delta, log_rows, down, l).0,
            effects_view(effects@) == old(self)@.moved_in_pane(delta, log_rows, down, l).1,
            final(self)@.wf(),
    {
        let mut effects: Vec<KeyEffect> = Vec::new();
        match self.active_pane {
            ActivePane::Repos => {
                let len = self.filtered_repo_indices().len();
                self.repo_state.move_selection(delta, len);
                effects.push(KeyEffect::RefreshReadmePreview);
            },
            ActivePane::DirTree => {
                let len = self.current_tree_lines().len();
                self.tree_state.move_selection(delta, len);
            },
            ActivePane::Log => {
                if down {
                    self.scroll_log_down(log_rows, l);
                } else {
                    self.scroll_log_up(log_rows);
                }
            },
        }
        assert(self@ =~= old(self)@.moved_in_pane(delta, log_rows, down, l).0);
        assert(effects_view(effects@) =~= old(self)@.moved_in_pane(delta, log_rows, down, l).1);
        effects
    }

    fn move_filter(&mut self, delta: isize)
        requires
            old(self)@.wf(),
            -10 <= delta <= 10,
        ensures
            final(self)@ == old(self)@.filter_moved(delta),
            final(self)@.wf(),
    {
        let len = self.filtered_repo_indices().len();
        self.filter_state.move_selection(delta, len);
        assert(self@ =~= old(self)@.filter_moved(delta));
    }

    fn cancel_filter(&mut self)
        ensures
            final(self)@ == old(self)@.filter_cancelled(),
    {
        self.mode = Mode::Normal;
        clear_string(&mut self.repo_filter);
        if let Some(state) = self.filter_restore_state.take() {
            self.repo_state = state;
        }
        assert(self@ =~= old(self)@.filter_cancelled());
    }

    #[verifier::rlimit(30)]
    fn choose_filtered(&mut self, l: LayoutRects)
        requires
            old(self)@.wf(),
        ensures
            final(self)@ == old(self)@.filter_chosen(l),
            final(self)@.wf(),
    {
        let indices = self.filtered_repo_indices();
        if indices.len() > 0 {
            let visible_index = if self.filter_state.selected < indices.len() - 1 {
                self.filter_state.selected
            } else {
                indices.len() - 1
            };
            let repo_index = indices[visible_index];
            proof {
                lemma_matching_indices_in_range(self.repos@, self.repo_filter@);
                assert(repo_index < self.repos@.len());
            }
            self.repo_state.selected = repo_index;
            self.repo_state.list.select(Some(self.repo_state.selected));
        }
        clear_string(&mut self.repo_filter);
        self.mode = Mode::Normal;
        self.filter_restore_state = None;
        assert(self@ =~= old(self)@.filter_chosen_in_place());
        self.center_repo_selection(l);
    }

    /// Keys while the repository filter popup is open.
    #[verifier::rlimit(60)]
    pub fn handle_filtering_repos(&mut self, key: KeyInput, l: LayoutRects) -> (effects: Vec<KeyEffect>)
        requires
            old(self)@.wf(),
        ensures
            final(self)@ == old(self)@.filter_key(key, l).0,
            effects_view(effects@) == old(self)@.filter_key(key, l).1,
            final(self)@.wf(),
    {
        let mut effects: Vec<KeyEffect> = Vec::new();
        if key.kind != KeyKind::Press {
            assert(effects_view(effects@) =~= Seq::<Effect>::empty());
            return effects;
        }
        match key.code {
            KeyCode::Esc => {
                self.cancel_filter();
                effects.push(KeyEffect::RefreshReadmePreviewChecked);
            },
            KeyCode::Enter => {
                self.choose_filtered(l);
                effects.push(KeyEffect::RefreshReadmePreviewChecked);
            },
            KeyCode::Backspace => {
                pop_char(&mut self.repo_filter);
                self.sync_filter_state();
            },
            KeyCode::Down => self.move_filter(1),
            KeyCode::Up => self.move_filter(-1),
            KeyCode::PageUp => self.move_filter(-10),
            KeyCode::PageDown => self.move_filter(10),
            KeyCode::Char(ch) => {
                if ch == 'j' {
                    self.move_filter(1);
                } else if ch == 'k' {
                    self.move_filter(-1);
                } else {
                    push_char(&mut self.repo_filter, ch);
                    self.sync_filter_state();
                }
            },
            _ => {},
        }
        assert(self@ =~= old(self)@.filter_key(key, l).0);
        assert(effects_view(effects@) =~= old(self)@.filter_key(key, l).1);
        effects
    }

    /// Keys while the new repository name is edited.
    #[verifier::rlimit(30)]
    pub fn handle_editing_name(&mut self, key: KeyInput) -> (effects: Vec<KeyEffect>)
        ensures
            final(self)@ == old(self)@.name_key(key).0,
            effects_view(effects@) == old(self)@.name_key(key).1,
    {
        let mut effects: Vec<KeyEffect> = Vec::new();
        if key.kind != KeyKind::Press {
            assert(effects_view(effects@) =~= Seq::<Effect>::empty());
            return effects;
        }
        match key.code {
            KeyCode::Esc => {
                self.mode = Mode::Normal;
                effects.push(KeyEffect::Log(string_of("repo 名の変更を中止しました")));
            },
            KeyCode::Enter => {
                self.mode = Mode::Normal;
                self.busy_message = Some(string_of("new repo name を確定しています..."));
                self.pending_action = Some(PendingAction::ConfirmNewRepoName);
                effects.push(KeyEffect::StartBusyTimer);
            },
            KeyCode::Backspace => {
                pop_char(&mut self.edit_buffer);
            },
            KeyCode::Char(ch) => {
                push_char(&mut self.edit_buffer, ch);
            },
            _ => {},
        }
        assert(self@ =~= old(self)@.name_key(key).0);
        assert(effects_view(effects@) =~= old(self)@.name_key(key).1);
        effects
    }

    /// Keys while the push confirmation is open.
    #[verifier::rlimit(30)]
    pub fn handle_confirm_push(&mut self, key: KeyInput) -> (effects: Vec<KeyEffect>)
        ensures
            final(self)@ == old(self)@.confirm_key(key).0,
            effects_view(effects@) == old(self)@.confirm_key(key).1,
    {
        let mut effects: Vec<KeyEffect> = Vec::new();
        if key.kind != KeyKind::Press {
            assert(effects_view(effects@) =~= Seq::<Effect>::empty());
            return effects;
        }
        match key.code {
            KeyCode::Char(ch) => {
                if ch == 'y' {
                    self.busy_message = Some(string_of("pushしています..."));
                    self.pending_action = Some(PendingAction::PushToOrigin);
                    effects.push(KeyEffect::StartBusyTimer);
                } else if ch == 'N' || ch == 'n' {
                    self.mode = Mode::Normal;
                    effects.push(KeyEffect::Log(string_of("push を中止しました")));
                }
            },
            KeyCode::Esc => {
                self.mode = Mode::Normal;
                effects.push(KeyEffect::Log(string_of("push を中止しました")));
            },
            _ => {},
        }
        assert(self@ =~= old(self)@.confirm_key(key).0);
        assert(effects_view(effects@) =~= old(self)@.confirm_key(key).1);
        effects
    }

    /// `n`: starts editing the new repository name; that needs a clone first.
    #[verifier::rlimit(30)]
    pub fn begin_edit_name(&mut self) -> (r: Result<Vec<KeyEffect>, String>)
        ensures
            final(self)@ == old(self)@.begin_edit().0,
            outcome_view(r) == old(self)@.begin_edit().1,
    {
        if self.preview.is_none() {
            return Err(string_of("先に Enter で repo を clone してください"));
        }
        self.edit_buffer = self.new_repo_name.clone();
        self.mode = Mode::EditingName;
        let mut msg = string_of("新しい repo 名の編集を開始します: ");
        msg.append(self.edit_buffer.as_str());
        let mut effects: Vec<KeyEffect> = Vec::new();
        effects.push(KeyEffect::Log(msg));
        assert(self@ =~= old(self)@.begin_edit().0);
        assert(effects_view(effects@) =~= seq![Effect::Log("新しい repo 名の編集を開始します: "@ + old(self)@.new_repo_name)]);
        Ok(effects)
    }

    fn handle_normal_char(&mut self, key: KeyInput, c: char, l: LayoutRects) -> (r: Result<Vec<KeyEffect>, String>)
        requires
            old(self)@.wf(),
            key.code == KeyCode::Char(c),
        ensures
            final(self)@ == old(self)@.normal_key(key, l).0,
            outcome_view(r) == old(self)@.normal_key(key, l).1,
            final(self)@.wf(),
    {
        if c == 'c' || c == 'L' || c == 'u' || c == 'd' || c == 'P' {
            self.normal_char_action(key, c, l)
        } else {
            self.normal_char_view(key, c, l)
        }
    }

    #[verifier::rlimit(40)]
    #[verifier::spinoff_prover]
    fn normal_char_view(&mut self, key: KeyInput, c: char, l: LayoutRects) -> (r: Result<Vec<KeyEffect>, String>)
        requires
            old(self)@.wf(),
            key.code == KeyCode::Char(c),
            c != 'c' && c != 'L' && c != 'u' && c != 'd' && c != 'P',
        ensures
            final(self)@ == old(self)@.normal_key(key, l).0,
            outcome_view(r) == old(self)@.normal_key(key, l).1,
            final(self)@.wf(),
    {
        let is_press = key.kind == KeyKind::Press;
        let is_repeat = key.kind == KeyKind::Repeat;
        let mut effects: Vec<KeyEffect> = Vec::new();
        if c == 'q' && is_press {
            self.should_quit = true;
        } else if c == '?' && is_press {
            self.show_help = true;
        } else if c == '/' && is_press {
            self.active_pane = ActivePane::Repos;
            self.mode = Mode::FilteringRepos;
            self.filter_restore_state = Some(self.repo_state);
            let has = self.filtered_repo_indices().len() > 0;
            self.filter_state = RepoListState::new(has);
        } else if c == 'h' && is_press {
            self.move_active_pane_previous();
        } else if c == 'l' && is_press {
            self.move_active_pane_next();
        } else if c == 'j' && (is_press || is_repeat) {
            effects = self.move_in_pane(1, 1, true, l);
        } else if c == 'k' && (is_press || is_repeat) {
            effects = self.move_in_pane(-1, 1, false, l);
        } else if c == 'n' && is_press {
            self.active_pane = ActivePane::Repos;
            return self.begin_edit_name();
        }
        assert(self@ =~= old(self)@.normal_key(key, l).0);
        assert(effects_view(effects@) =~= old(self)@.normal_key(key, l).1->Ok_0);
        Ok(effects)
    }

    #[verifier::rlimit(40)]
    #[verifier::spinoff_prover]
    fn normal_char_action(&mut self, key: KeyInput, c: char, l: LayoutRects) -> (r: Result<Vec<KeyEffect>, String>)
        requires
            old(self)@.wf(),
            key.code == KeyCode::Char(c),
            c == 'c' || c == 'L' || c == 'u' || c == 'd' || c == 'P',
        ensures
            final(self)@ == old(self)@.normal_key(key, l).0,
            outcome_view(r) == old(self)@.normal_key(key, l).1,
            final(self)@.wf(),
    {
        let is_press = key.kind == KeyKind::Press;
        let is_repeat = key.kind == KeyKind::Repeat;
        let mut effects: Vec<KeyEffect> = Vec::new();
        if c == 'c' && is_press {
            self.active_pane = ActivePane::Repos;
            self.busy_message = Some(string_of("commit を実行しています..."));
            self.pending_action = Some(PendingAction::CommitChanges);
            effects.push(KeyEffect::StartBusyTimer);
        } else if c == 'L' && key.shift && is_press {
            self.active_pane = ActivePane::Log;
            effects.push(KeyEffect::CopyLogs);
        } else if c == 'u' && key.control && (is_press || is_repeat) {
            self.active_pane = ActivePane::Log;
            self.scroll_log_up(10);
        } else if c == 'd' && key.control && (is_press || is_repeat) {
            self.active_pane = ActivePane::Log;
            self.scroll_log_down(10, l);
        } else if c == 'P' && key.shift && is_press {
            self.active_pane = ActivePane::Repos;
            effects.push(KeyEffect::PreparePushConfirm);
        }
        assert(self@ =~= old(self)@.normal_key(key, l).0);
        assert(effects_view(effects@) =~= old(self)@.normal_key(key, l).1->Ok_0);
        Ok(effects)
    }

    #[verifier::rlimit(60)]
    fn handle_normal_key(&mut self, key: KeyInput, l: LayoutRects) -> (r: Result<Vec<KeyEffect>, String>)
        requires
            old(self)@.wf(),
        ensures
            final(self)@ == old(self)@.normal_key(key, l).0,
            outcome_view(r) == old(self)@.normal_key(key, l).1,
            final(self)@.wf(),
    {
        let is_press = key.kind == KeyKind::Press;
        let is_repeat = key.kind == KeyKind::Repeat;
        let mut effects: Vec<KeyEffect> = Vec::new();
        match key.code {
            KeyCode::Char(c) => {
                return self.handle_normal_char(key, c, l);
            },
            KeyCode::Left => {
                if is_press {
                    self.move_active_pane_previous();
                }
            },
            KeyCode::Right => {
                if is_press {
                    self.move_active_pane_next();
                }
            },
            KeyCode::Down => {
                if is_press || is_repeat {
                    effects = self.move_in_pane(1, 1, true, l);
                }
            },
            KeyCode::Up => {
                if is_press || is_repeat {
                    effects = self.move_in_pane(-1, 1, false, l);
                }
            },
            KeyCode::Enter => {
                if is_press && self.active_pane == ActivePane::Repos {
                    self.active_pane = ActivePane::Repos;
                    self.busy_message = Some(string_of("Cloning repository..."));
                    self.pending_action = Some(PendingAction::CloneSelectedRepo);
                    effects.push(KeyEffect::StartBusyTimer);
                }
            },
            KeyCode::PageUp => {
                if is_press || is_repeat {
                    effects = self.move_in_pane(-10, 10, false, l);
                }
            },
            KeyCode::PageDown => {
                if is_press || is_repeat {
                    effects = self.move_in_pane(10, 10, true, l);
                }
            },
            _ => {},
        }
        assert(self@ =~= old(self)@.normal_key(key, l).0);
        assert(effects_view(effects@) =~= old(self)@.normal_key(key, l).1->Ok_0);
        Ok(effects)
    }

    /// Answers one key event on the current screen: the panes are cut by the layout
    /// solver for `frame_area`, and whatever cut it hands back, the answer is
    /// `handle_key_in`'s on those panes.
    pub fn handle_key(&mut self, key: KeyInput) -> (r: Result<Vec<KeyEffect>, String>)
        requires
            old(self)@.wf(),
        ensures
            exists|l: LayoutRects|
                {
                    &&& final(self)@ == (#[trigger] old(self)@.key_step(key, l)).0
                    &&& outcome_view(r) == old(self)@.key_step(key, l).1
                    &&& (l.dir_tree is Some <==> old(self)@.preview is Some)
                    &&& panes_within(l, old(self)@.frame_area)
                },
            final(self)@.wf(),
    {
        let l = self.layout_rects(self.frame_area);
        self.handle_key_in(key, l)
    }

    /// Answers one key event with the panes at `l`.
    #[verifier::rlimit(30)]
    pub fn handle_key_in(&mut self, key: KeyInput, l: LayoutRects) -> (r: Result<Vec<KeyEffect>, String>)
        requires
            old(self)@.wf(),
        ensures
            final(self)@ == old(self)@.key_step(key, l).0,
            outcome_view(r) == old(self)@.key_step(key, l).1,
            final(self)@.wf(),
    {
        if key.kind == KeyKind::Release {
            let effects: Vec<KeyEffect> = Vec::new();
            assert(effects_view(effects@) =~= Seq::<Effect>::empty());
            return Ok(effects);
        }
        if self.show_help {
            let effects: Vec<KeyEffect> = Vec::new();
            assert(effects_view(effects@) =~= Seq::<Effect>::empty());
            if key.kind != KeyKind::Press {
                return Ok(effects);
            }
            match key.code {
                KeyCode::Char(c) => {
                    if c == '?' {
                        self.show_help = false;
                    }
                },
                KeyCode::Esc | KeyCode::Enter => {
                    self.show_help = false;
                },
                _ => {},
            }
            assert(self@ =~= old(self)@.key_step(key, l).0);
            return Ok(effects);
        }
        match self.mode {
            Mode::EditingName => Ok(self.handle_editing_name(key)),
            Mode::ConfirmPush => Ok(self.handle_confirm_push(key)),
            Mode::FilteringRepos => Ok(self.handle_filtering_repos(key, l)),
            Mode::Normal => self.handle_normal_key(key, l),
        }
    }

    /// A left click on the repository list, the directory tree or the log pane makes
    /// that pane the active one; `rects` must fit in `u16`.
    #[verifier::rlimit(30)]
    pub fn handle_click_in(&mut self, rects: LayoutRects, x: u16, y: u16)
        requires
            rects_in_range(rects),
        ensures
            final(self)@ == old(self)@.with_pane(clicked_pane(rects, x, y, old(self)@.active_pane)),
    {
        let in_tree = match rects.dir_tree {
            Some(rect) => contains(rect, x, y),
            None => false,
        };
        if contains(rects.repos, x, y) {
            self.active_pane = ActivePane::Repos;
        } else if in_tree {
            self.active_pane = ActivePane::DirTree;
        } else if contains(rects.log, x, y) {
            self.active_pane = ActivePane::Log;
        }
        assert(self@ =~= old(self)@.with_pane(clicked_pane(rects, x, y, old(self)@.active_pane)));
    }

    /// A mouse press: only the left button counts, tested against the panes at `rects`.
    /// Returns whether the press was tested (panes whose far edge would not fit in `u16`
    /// are left alone).
    pub fn handle_mouse_in(&mut self, left_down: bool, x: u16, y: u16, rects: LayoutRects) -> (tested: bool)
        ensures
            tested == (left_down && rects_in_range(rects)),
            !tested ==> final(self)@ == old(self)@,
            tested ==> final(self)@ == old(self)@.with_pane(
                clicked_pane(rects, x, y, old(self)@.active_pane),
            ),
    {
        if !left_down {
            return false;
        }
        let tree_ok = match rects.dir_tree {
            Some(r) => (r.x as u32) + (r.width as u32) <= 65535 && (r.y as u32) + (r.height as u32) <= 65535,
            None => true,
        };
        let fits = (rects.repos.x as u32) + (rects.repos.width as u32) <= 65535
            && (rects.repos.y as u32) + (rects.repos.height as u32) <= 65535
            && (rects.log.x as u32) + (rects.log.width as u32) <= 65535
            && (rects.log.y as u32) + (rects.log.height as u32) <= 65535 && tree_ok;
        if !fits {
            return false;
        }
        self.handle_click_in(rects, x, y);
        true
    }

    /// A mouse press on a screen of size `area`: `handle_mouse_in` on the panes the
    /// layout solver cuts for it, whatever cut it hands back. The panes lie inside
    /// `area`, so on a screen whose far edges fit in `u16` every left press is tested.
    pub fn handle_mouse(&mut self, left_down: bool, x: u16, y: u16, area: Rect) -> (tested: bool)
        ensures
            in_range(area) ==> tested == left_down,
            exists|rects: LayoutRects|
                {
                    &&& panes_within(rects, area)
                    &&& (rects.dir_tree is Some <==> old(self)@.preview is Some)
                    &&& tested == (left_down && rects_in_range(rects))
                    &&& (!tested ==> final(self)@ == old(self)@)
                    &&& (tested ==> final(self)@ == old(self)@.with_pane(
                        #[trigger] clicked_pane(rects, x, y, old(self)@.active_pane),
                    ))
                },
    {
        let rects = self.layout_rects(area);
        let tested = self.handle_mouse_in(left_down, x, y, rects);
        assert(tested ==> final(self)@ == old(self)@.with_pane(clicked_pane(rects, x, y, old(self)@.active_pane)));
        tested
    }
}


proof fn lemma_moves_keep_pending(v: AppView, delta: isize, rows: u16, down: bool, l: LayoutRects)
    ensures
        v.moved_in_pane(delta, rows, down, l).0.pending_action == v.pending_action,
        v.scrolled_up(rows).pending_action == v.pending_action,
        v.scrolled_down(rows, l).pending_action == v.pending_action,
        v.filter_moved(delta).pending_action == v.pending_action,
        v.filter_synced().pending_action == v.pending_action,
        v.filter_chosen(l).pending_action == v.pending_action,
{
}

#[verifier::spinoff_prover]
proof fn lemma_normal_move_char_keeps_pending(v: AppView, key: KeyInput, c: char, l: LayoutRects)
    requires
        key.code == KeyCode::Char(c),
        c == 'j' || c == 'k',
    ensures
        v.normal_key(key, l).0.pending_action == v.pending_action,
{
    lemma_moves_keep_pending(v, 1, 1, true, l);
    lemma_moves_keep_pending(v, -1 as isize, 1, false, l);
}

#[verifier::spinoff_prover]
proof fn lemma_normal_scroll_char_keeps_pending(v: AppView, key: KeyInput, c: char, l: LayoutRects)
    requires
        key.code == KeyCode::Char(c),
        c == 'u' || c == 'd',
    ensures
        v.normal_key(key, l).0.pending_action == v.pending_action,
{
    lemma_moves_keep_pending(v.with_pane(ActivePane::Log), 0, 10, true, l);
}

#[verifier::spinoff_prover]
proof fn lemma_normal_other_char_never_pushes(v: AppView, key: KeyInput, c: char, l: LayoutRects)
    requires
        key.code == KeyCode::Char(c),
        c != 'j' && c != 'k' && c != 'u' && c != 'd',
    ensures
        v.normal_key(key, l).0.pending_action == v.pending_action
            || v.normal_key(key, l).0.pending_action == Some(PendingAction::CommitChanges),
{
    assert(v.with_pane(ActivePane::Repos).begin_edit().0.pending_action == v.pending_action);
}

#[verifier::spinoff_prover]
proof fn lemma_normal_char_never_pushes(v: AppView, key: KeyInput, c: char, l: LayoutRects)
    requires
        key.code == KeyCode::Char(c),
    ensures
        v.normal_key(key, l).0.pending_action == v.pending_action
            || v.normal_key(key, l).0.pending_action == Some(PendingAction::CommitChanges),
{
    if c == 'j' || c == 'k' {
        lemma_normal_move_char_keeps_pending(v, key, c, l);
    } else if c == 'u' || c == 'd' {
        lemma_normal_scroll_char_keeps_pending(v, key, c, l);
    } else {
        lemma_normal_other_char_never_pushes(v, key, c, l);
    }
}

proof fn lemma_normal_key_never_pushes(v: AppView, key: KeyInput, l: LayoutRects)
    ensures
        v.normal_key(key, l).0.pending_action == v.pending_action
            || v.normal_key(key, l).0.pending_action == Some(PendingAction::CommitChanges)
            || v.normal_key(key, l).0.pending_action == Some(PendingAction::CloneSelectedRepo),
{
    match key.code {
        KeyCode::Char(c) => lemma_normal_char_never_pushes(v, key, c, l),
        KeyCode::Down => lemma_moves_keep_pending(v, 1, 1, true, l),
        KeyCode::Up => lemma_moves_keep_pending(v, -1 as isize, 1, false, l),
        KeyCode::PageDown => lemma_moves_keep_pending(v, 10, 10, true, l),
        KeyCode::PageUp => lemma_moves_keep_pending(v, -10 as isize, 10, false, l),
        _ => {},
    }
}

/// A push is only ever scheduled by pressing `y` in the open push confirmation (with
/// no help overlay over it).
pub proof fn law_push_needs_confirmation(v: AppView, key: KeyInput, l: LayoutRects)
    requires
        v.pending_action != Some(PendingAction::PushToOrigin),
        v.key_step(key, l).0.pending_action == Some(PendingAction::PushToOrigin),
    ensures
        v.mode == Mode::ConfirmPush,
        !v.show_help,
        key.kind == KeyKind::Press,
        key.code == KeyCode::Char('y'),
{
    lemma_normal_key_never_pushes(v, key, l);
    lemma_moves_keep_pending(v, 1, 1, true, l);
    lemma_moves_keep_pending(v, -1 as isize, 1, false, l);
    lemma_moves_keep_pending(v, 10, 10, true, l);
    lemma_moves_keep_pending(v, -10 as isize, 10, false, l);
    if key.kind == KeyKind::Press && !v.show_help && v.mode == Mode::FilteringRepos {
        match key.code {
            KeyCode::Backspace => {
                lemma_moves_keep_pending(AppView { repo_filter: v.repo_filter.drop_last(), ..v }, 0, 0, true, l);
                lemma_moves_keep_pending(v, 0, 0, true, l);
            },
            KeyCode::Char(c) => {
                lemma_moves_keep_pending(AppView { repo_filter: v.repo_filter.push(c), ..v }, 0, 0, true, l);
            },
            _ => {},
        }
    }
}

/// Releasing a key changes nothing.
pub proof fn law_key_release_ignored(v: AppView, key: KeyInput, l: LayoutRects)
    requires
        key.kind == KeyKind::Release,
    ensures
        v.key_step(key, l) == (v, Ok::<Seq<Effect>, Seq<char>>(Seq::empty())),
{
}

/// While the help overlay is open, every key but `?`, Esc and Enter is swallowed, and
/// those three only close it.
pub proof fn law_help_overlay_swallows_keys(v: AppView, key: KeyInput, l: LayoutRects)
    requires
        v.show_help,
    ensures
        v.key_step(key, l).1 == Ok::<Seq<Effect>, Seq<char>>(Seq::empty()),
        v.key_step(key, l).0 == v || v.key_step(key, l).0 == (AppView { show_help: false, ..v }),
{
}

/// Esc in the repository filter drops the filter and puts the list cursor back where
/// it was when the filter was opened.
pub proof fn law_filter_cancel_restores_cursor(v: AppView, saved: RepoListState, l: LayoutRects)
    requires
        v.filter_restore_state == Some(saved),
    ensures
        v.filter_key(KeyInput { code: KeyCode::Esc, kind: KeyKind::Press, shift: false, control: false }, l).0.repo_state
            == saved,
        v.filter_key(KeyInput { code: KeyCode::Esc, kind: KeyKind::Press, shift: false, control: false }, l).0.repo_filter
            == Seq::<char>::empty(),
        v.filter_key(KeyInput { code: KeyCode::Esc, kind: KeyKind::Press, shift: false, control: false }, l).0.mode
            == Mode::Normal,
{
}

/// With a directory tree on screen, moving one pane right and then one pane left (or
/// the other way round) comes back to the pane one started from.
pub proof fn law_pane_moves_round_trip(v: AppView)
    requires
        v.preview is Some,
    ensures
        v.with_pane(v.pane_after()).pane_before() == v.active_pane,
        v.with_pane(v.pane_before()).pane_after() == v.active_pane,
{
}


proof fn lemma_moves_keep_busy(v: AppView, delta: isize, rows: u16, down: bool, l: LayoutRects)
    ensures
        v.moved_in_pane(delta, rows, down, l).0.busy_message == v.busy_message,
        v.moved_in_pane(delta, rows, down, l).0.pending_action == v.pending_action,
        v.scrolled_up(rows).busy_message == v.busy_message,
        v.scrolled_down(rows, l).busy_message == v.busy_message,
        v.filter_moved(delta).busy_message == v.busy_message,
        v.filter_synced().busy_message == v.busy_message,
        v.filter_chosen(l).busy_message == v.busy_message,
        v.filter_chosen(l).pending_action == v.pending_action,
{
}

pub open spec fn announced(before: AppView, after: AppView) -> bool {
    ||| (after.pending_action == before.pending_action && after.busy_message == before.busy_message)
    ||| (after.pending_action is Some && after.busy_message is Some)
}

#[verifier::spinoff_prover]
proof fn lemma_normal_move_char_announced(v: AppView, key: KeyInput, c: char, l: LayoutRects)
    requires
        key.code == KeyCode::Char(c),
        c == 'j' || c == 'k',
    ensures
        announced(v, v.normal_key(key, l).0),
{
    lemma_moves_keep_busy(v, 1, 1, true, l);
    lemma_moves_keep_busy(v, -1 as isize, 1, false, l);
}

#[verifier::spinoff_prover]
proof fn lemma_normal_scroll_char_announced(v: AppView, key: KeyInput, c: char, l: LayoutRects)
    requires
        key.code == KeyCode::Char(c),
        c == 'u' || c == 'd',
    ensures
        announced(v, v.normal_key(key, l).0),
{
    lemma_moves_keep_busy(v.with_pane(ActivePane::Log), 0, 10, true, l);
}

#[verifier::spinoff_prover]
proof fn lemma_normal_other_char_announced(v: AppView, key: KeyInput, c: char, l: LayoutRects)
    requires
        key.code == KeyCode::Char(c),
        c != 'j' && c != 'k' && c != 'u' && c != 'd',
    ensures
        announced(v, v.normal_key(key, l).0),
{
    assert(v.with_pane(ActivePane::Repos).begin_edit().0.busy_message == v.busy_message);
}

#[verifier::spinoff_prover]
proof fn lemma_normal_char_announced(v: AppView, key: KeyInput, c: char, l: LayoutRects)
    requires
        key.code == KeyCode::Char(c),
    ensures
        announced(v, v.normal_key(key, l).0),
{
    if c == 'j' || c == 'k' {
        lemma_normal_move_char_announced(v, key, c, l);
    } else if c == 'u' || c == 'd' {
        lemma_normal_scroll_char_announced(v, key, c, l);
    } else {
        lemma_normal_other_char_announced(v, key, c, l);
    }
}

proof fn lemma_normal_key_announced(v: AppView, key: KeyInput, l: LayoutRects)
    ensures
        announced(v, v.normal_key(key, l).0),
{
    match key.code {
        KeyCode::Char(c) => lemma_normal_char_announced(v, key, c, l),
        KeyCode::Down => lemma_moves_keep_busy(v, 1, 1, true, l),
        KeyCode::Up => lemma_moves_keep_busy(v, -1 as isize, 1, false, l),
        KeyCode::PageDown => lemma_moves_keep_busy(v, 10, 10, true, l),
        KeyCode::PageUp => lemma_moves_keep_busy(v, -10 as isize, 10, false, l),
        _ => {},
    }
}

proof fn lemma_filter_key_announced(v: AppView, key: KeyInput, l: LayoutRects)
    ensures
        announced(v, v.filter_key(key, l).0),
{
    lemma_moves_keep_busy(v, 1, 1, true, l);
    lemma_moves_keep_busy(v, -1 as isize, 1, false, l);
    lemma_moves_keep_busy(v, 10, 10, true, l);
    lemma_moves_keep_busy(v, -10 as isize, 10, false, l);
    match key.code {
        KeyCode::Backspace => {
            lemma_moves_keep_busy(AppView { repo_filter: v.repo_filter.drop_last(), ..v }, 0, 0, true, l);
        },
        KeyCode::Char(c) => {
            lemma_moves_keep_busy(AppView { repo_filter: v.repo_filter.push(c), ..v }, 0, 0, true, l);
        },
        _ => {},
    }
}

/// Work is only ever scheduled with the busy popup announcing it: when every scheduled
/// action comes with a busy message before a key, it still does after it.
pub proof fn law_scheduled_work_is_announced(v: AppView, key: KeyInput, l: LayoutRects)
    requires
        v.pending_action is Some ==> v.busy_message is Some,
    ensures
        v.key_step(key, l).0.pending_action is Some ==> v.key_step(key, l).0.busy_message is Some,
{
    if key.kind != KeyKind::Release && !v.show_help {
        match v.mode {
            Mode::Normal => lemma_normal_key_announced(v, key, l),
            Mode::FilteringRepos => lemma_filter_key_announced(v, key, l),
            _ => {},
        }
    }
}

/// Opening the repository filter with `/` and closing it with Esc leaves the list
/// cursor where it was, with no filter and back in the main view.
pub proof fn law_filter_open_then_cancel(v: AppView, slash: KeyInput, esc: KeyInput, l: LayoutRects)
    requires
        v.mode == Mode::Normal,
        !v.show_help,
        slash == (KeyInput { code: KeyCode::Char('/'), kind: KeyKind::Press, shift: false, control: false }),
        esc == (KeyInput { code: KeyCode::Esc, kind: KeyKind::Press, shift: false, control: false }),
    ensures
        v.key_step(slash, l).0.key_step(esc, l).0.repo_state == v.repo_state,
        v.key_step(slash, l).0.key_step(esc, l).0.mode == Mode::Normal,
        v.key_step(slash, l).0.key_step(esc, l).0.repo_filter == Seq::<char>::empty(),
{
    let w = v.key_step(slash, l).0;
    assert(w.mode == Mode::FilteringRepos);
    assert(w.filter_restore_state == Some(v.repo_state));
}


/// The view after each key of `steps` in turn, each answered with the panes it is
/// paired with (the layout solver may cut the screen anew for every key).
pub open spec fn after_keys(v: AppView, steps: Seq<(KeyInput, LayoutRects)>) -> AppView
    decreases steps.len(),
{
    if steps.len() == 0 {
        v
    } else {
        after_keys(v.key_step(steps[0].0, steps[0].1).0, steps.drop_first())
    }
}

/// A key that closes the filter popup: a press of Esc or Enter.
pub open spec fn closes_filter(key: KeyInput) -> bool {
    key.kind == KeyKind::Press && (key.code == KeyCode::Esc || key.code == KeyCode::Enter)
}

proof fn lemma_after_keys_push(
    v: AppView,
    steps: Seq<(KeyInput, LayoutRects)>,
    step: (KeyInput, LayoutRects),
)
    ensures
        after_keys(v, steps.push(step)) == after_keys(v, steps).key_step(step.0, step.1).0,
    decreases steps.len(),
{
    assert(steps.push(step)[0] == if steps.len() > 0 {
        steps[0]
    } else {
        step
    });
    if steps.len() > 0 {
        assert(steps.push(step).drop_first() =~= steps.drop_first().push(step));
        lemma_after_keys_push(v.key_step(steps[0].0, steps[0].1).0, steps.drop_first(), step);
    } else {
        assert(steps.push(step).drop_first() =~= Seq::<(KeyInput, LayoutRects)>::empty());
        assert(after_keys(v.key_step(step.0, step.1).0, Seq::<(KeyInput, LayoutRects)>::empty())
            == v.key_step(step.0, step.1).0);
    }
}

proof fn lemma_filter_keys_stay_open(v: AppView, steps: Seq<(KeyInput, LayoutRects)>)
    requires
        v.mode == Mode::FilteringRepos,
        !v.show_help,
        forall|i: int| 0 <= i < steps.len() ==> !closes_filter((#[trigger] steps[i]).0),
    ensures
        after_keys(v, steps).mode == Mode::FilteringRepos,
        !after_keys(v, steps).show_help,
        after_keys(v, steps).filter_restore_state == v.filter_restore_state,
    decreases steps.len(),
{
    if steps.len() > 0 {
        let w = v.key_step(steps[0].0, steps[0].1).0;
        assert(!closes_filter(steps[0].0));
        assert(w.mode == Mode::FilteringRepos && !w.show_help && w.filter_restore_state
            == v.filter_restore_state);
        assert forall|i: int| 0 <= i < steps.drop_first().len() implies !closes_filter(
            (#[trigger] steps.drop_first()[i]).0,
        ) by {
            assert(steps.drop_first()[i] == steps[i + 1]);
        }
        lemma_filter_keys_stay_open(w, steps.drop_first());
    }
}

/// While the filter popup is open, Esc after any run of keys that do not close it puts
/// the list cursor back to the one saved when the popup opened, drops the filter and
/// returns to the main view, however the screen is cut for each key.
pub proof fn law_filter_cancel_after_any_keys(
    v: AppView,
    saved: RepoListState,
    steps: Seq<(KeyInput, LayoutRects)>,
    esc: KeyInput,
    l: LayoutRects,
)
    requires
        v.mode == Mode::FilteringRepos,
        !v.show_help,
        v.filter_restore_state == Some(saved),
        forall|i: int| 0 <= i < steps.len() ==> !closes_filter((#[trigger] steps[i]).0),
        esc.code == KeyCode::Esc,
        esc.kind == KeyKind::Press,
    ensures
        after_keys(v, steps.push((esc, l))).repo_state == saved,
        after_keys(v, steps.push((esc, l))).repo_filter == Seq::<char>::empty(),
        after_keys(v, steps.push((esc, l))).mode == Mode::Normal,
        after_keys(v, steps.push((esc, l))).filter_restore_state is None,
{
    lemma_filter_keys_stay_open(v, steps);
    lemma_after_keys_push(v, steps, (esc, l));
}

/// Opening the repository filter with `/`, pressing any keys that do not close it
/// (characters, Backspace, arrows, `j`/`k`, page keys, repeats, releases), and closing
/// it with Esc leaves the list cursor where it was before `/`, with no filter, no saved
/// cursor and back in the main view, however the screen is cut for each key. Each call
/// of `App::handle_key` is one step here: it answers `key_step` on the panes it cut, and
/// in the popup `key_step` is `App::handle_filtering_repos`'s `filter_key`.
pub proof fn law_filter_open_keys_cancel(
    v: AppView,
    slash: KeyInput,
    l0: LayoutRects,
    steps: Seq<(KeyInput, LayoutRects)>,
    esc: KeyInput,
    l: LayoutRects,
)
    requires
        v.mode == Mode::Normal,
        !v.show_help,
        slash.code == KeyCode::Char('/'),
        slash.kind == KeyKind::Press,
        forall|i: int| 0 <= i < steps.len() ==> !closes_filter((#[trigger] steps[i]).0),
        esc.code == KeyCode::Esc,
        esc.kind == KeyKind::Press,
    ensures
        after_keys(v, seq![(slash, l0)] + steps.push((esc, l))).repo_state == v.repo_state,
        after_keys(v, seq![(slash, l0)] + steps.push((esc, l))).repo_filter == Seq::<char>::empty(),
        after_keys(v, seq![(slash, l0)] + steps.push((esc, l))).mode == Mode::Normal,
        after_keys(v, seq![(slash, l0)] + steps.push((esc, l))).filter_restore_state is None,
{
    let all = seq![(slash, l0)] + steps.push((esc, l));
    let w = v.key_step(slash, l0).0;
    assert(w.mode == Mode::FilteringRepos);
    assert(w.filter_restore_state == Some(v.repo_state));
    assert(all[0] == (slash, l0));
    assert(all.drop_first() =~= steps.push((esc, l)));
    law_filter_cancel_after_any_keys(w, v.repo_state, steps, esc, l);
}

/// Enter in the filter popup selects, in the repository list, the match under the
/// popup's cursor (the last match when the cursor is past the end), drops the filter and
/// returns to the main view; with no match the list cursor stays where it is.
pub proof fn law_filter_enter_picks_the_match_under_the_cursor(v: AppView, key: KeyInput, l: LayoutRects)
    requires
        v.mode == Mode::FilteringRepos,
        !v.show_help,
        key.kind == KeyKind::Press,
        key.code == KeyCode::Enter,
    ensures
        matching_indices(v.repos, v.repo_filter).len() > 0 ==> v.key_step(key, l).0.repo_state.selected
            == matching_indices(v.repos, v.repo_filter)[if v.filter_state.selected
            < matching_indices(v.repos, v.repo_filter).len() {
            v.filter_state.selected as int
        } else {
            matching_indices(v.repos, v.repo_filter).len() - 1
        }],
        matching_indices(v.repos, v.repo_filter).len() == 0 ==> v.key_step(key, l).0.repo_state.selected
            == v.repo_state.selected,
        v.key_step(key, l).0.mode == Mode::Normal,
        v.key_step(key, l).0.repo_filter == Seq::<char>::empty(),
        v.key_step(key, l).0.filter_restore_state is None,
{
}

/// A key that moves one pane to the right: `l` or →.
pub open spec fn is_right_key(key: KeyInput) -> bool {
    key.code == KeyCode::Char('l') || key.code == KeyCode::Right
}

/// A key that moves one pane to the left: `h` or ←.
pub open spec fn is_left_key(key: KeyInput) -> bool {
    key.code == KeyCode::Char('h') || key.code == KeyCode::Left
}

/// With a working copy shown the panes stand left to right as repository list,
/// directory tree, log: `l` or → moves one pane to the right and `h` or ← one to the
/// left, wrapping round at the ends.
pub proof fn law_pane_keys_follow_the_screen(v: AppView, key: KeyInput, l: LayoutRects)
    requires
        v.mode == Mode::Normal,
        !v.show_help,
        v.preview is Some,
        key.kind == KeyKind::Press,
    ensures
        is_right_key(key) && v.active_pane == ActivePane::Repos ==> v.key_step(key, l).0.active_pane
            == ActivePane::DirTree,
        is_right_key(key) && v.active_pane == ActivePane::DirTree ==> v.key_step(key, l).0.active_pane
            == ActivePane::Log,
        is_right_key(key) && v.active_pane == ActivePane::Log ==> v.key_step(key, l).0.active_pane
            == ActivePane::Repos,
        is_left_key(key) && v.active_pane == ActivePane::Repos ==> v.key_step(key, l).0.active_pane
            == ActivePane::Log,
        is_left_key(key) && v.active_pane == ActivePane::DirTree ==> v.key_step(key, l).0.active_pane
            == ActivePane::Repos,
        is_left_key(key) && v.active_pane == ActivePane::Log ==> v.key_step(key, l).0.active_pane
            == ActivePane::DirTree,
{
}

/// Without a working copy there is no tree pane: `l`, →, `h` and ← switch between the
/// repository list and the log (and leave a tree pane for the list).
pub proof fn law_pane_keys_without_a_tree(v: AppView, key: KeyInput, l: LayoutRects)
    requires
        v.mode == Mode::Normal,
        !v.show_help,
        v.preview is None,
        key.kind == KeyKind::Press,
        is_right_key(key) || is_left_key(key),
    ensures
        v.active_pane == ActivePane::Repos ==> v.key_step(key, l).0.active_pane == ActivePane::Log,
        v.active_pane != ActivePane::Repos ==> v.key_step(key, l).0.active_pane == ActivePane::Repos,
{
}

/// Starting to edit the new name with `n` and leaving with Esc changes neither the name
/// nor anything decided about it, and returns to the main view.
pub proof fn law_name_edit_cancel_keeps_name(v: AppView, n: KeyInput, esc: KeyInput, l: LayoutRects)
    requires
        v.mode == Mode::Normal,
        !v.show_help,
        v.preview is Some,
        n == (KeyInput { code: KeyCode::Char('n'), kind: KeyKind::Press, shift: false, control: false }),
        esc == (KeyInput { code: KeyCode::Esc, kind: KeyKind::Press, shift: false, control: false }),
    ensures
        v.key_step(n, l).0.mode == Mode::EditingName,
        v.key_step(n, l).0.key_step(esc, l).0.mode == Mode::Normal,
        v.key_step(n, l).0.key_step(esc, l).0.new_repo_name == v.new_repo_name,
        v.key_step(n, l).0.key_step(esc, l).0.name_confirmed == v.name_confirmed,
        v.key_step(n, l).0.key_step(esc, l).0.pending_action == v.pending_action,
{
}


/// While the filter popup is open its cursor is on a matching repository, or at the
/// top when nothing matches.
pub open spec fn filter_cursor_ok(v: AppView) -> bool {
    v.mode == Mode::FilteringRepos ==> if v.filtered().len() == 0 {
        v.filter_state.selected == 0
    } else {
        v.filter_state.selected < v.filtered().len()
    }
}

proof fn lemma_filter_key_cursor(v: AppView, key: KeyInput, l: LayoutRects)
    requires
        v.mode == Mode::FilteringRepos,
        filter_cursor_ok(v),
    ensures
        filter_cursor_ok(v.filter_key(key, l).0),
{
    if key.kind == KeyKind::Press {
        match key.code {
            KeyCode::Backspace => {
                let w = AppView { repo_filter: if v.repo_filter.len() > 0 {
                    v.repo_filter.drop_last()
                } else {
                    v.repo_filter
                }, ..v };
                assert(w.filter_synced().filtered() == w.filtered());
            },
            KeyCode::Char(c) => {
                if c != 'j' && c != 'k' {
                    let w = AppView { repo_filter: v.repo_filter.push(c), ..v };
                    assert(w.filter_synced().filtered() == w.filtered());
                }
            },
            _ => {},
        }
    }
}

/// Keys keep the filter popup's cursor on a matching repository (or at the top when
/// nothing matches).
pub proof fn law_filter_cursor_stays_on_a_match(v: AppView, key: KeyInput, l: LayoutRects)
    requires
        filter_cursor_ok(v),
    ensures
        filter_cursor_ok(v.key_step(key, l).0),
{
    if key.kind != KeyKind::Release && !v.show_help {
        match v.mode {
            Mode::FilteringRepos => lemma_filter_key_cursor(v, key, l),
            Mode::Normal => {
                lemma_moves_keep_filter(v, 1, 1, true, l);
                lemma_moves_keep_filter(v, -1 as isize, 1, false, l);
                lemma_moves_keep_filter(v, 10, 10, true, l);
                lemma_moves_keep_filter(v, -10 as isize, 10, false, l);
                lemma_normal_key_filter_mode(v, key, l);
            },
            _ => {},
        }
    }
}

proof fn lemma_moves_keep_filter(v: AppView, delta: isize, rows: u16, down: bool, l: LayoutRects)
    ensures
        v.moved_in_pane(delta, rows, down, l).0.mode == v.mode,
        v.moved_in_pane(delta, rows, down, l).0.repo_filter == v.repo_filter,
        v.moved_in_pane(delta, rows, down, l).0.repos == v.repos,
        v.moved_in_pane(delta, rows, down, l).0.filter_state == v.filter_state,
{
}

proof fn lemma_normal_key_filter_mode(v: AppView, key: KeyInput, l: LayoutRects)
    requires
        v.mode == Mode::Normal,
    ensures
        v.normal_key(key, l).0.mode == Mode::FilteringRepos ==> v.normal_key(key, l).0.filter_state.selected == 0
            && v.normal_key(key, l).0.repos == v.repos && v.normal_key(key, l).0.repo_filter
            == v.repo_filter,
{
    match key.code {
        KeyCode::Char(c) => {
            lemma_moves_keep_filter(v, 1, 1, true, l);
            lemma_moves_keep_filter(v, -1 as isize, 1, false, l);
            assert(v.with_pane(ActivePane::Log).scrolled_up(10).mode == Mode::Normal);
            assert(v.with_pane(ActivePane::Log).scrolled_down(10, l).mode == Mode::Normal);
        },
        KeyCode::Down => lemma_moves_keep_filter(v, 1, 1, true, l),
        KeyCode::Up => lemma_moves_keep_filter(v, -1 as isize, 1, false, l),
        KeyCode::PageDown => lemma_moves_keep_filter(v, 10, 10, true, l),
        KeyCode::PageUp => lemma_moves_keep_filter(v, -10 as isize, 10, false, l),
        _ => {},
    }
}

} // verus!
