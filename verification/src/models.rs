//! The data the application works on: repositories, preview state, modes,
//! panes, the log view and the list cursors.
use vstd::prelude::*;

use crate::text::{opt_string_view, string_views};

verus! {

pub const APP_NAME: &'static str = "norenwake";

pub const DEFAULT_NEW_REPO: &'static str = "my-new-repo";

pub const README_MESSAGE: &'static str = "元repoからcloneして暖簾分けしました。暖簾分け断面までの履歴を持っています。";

pub const MAX_LOG_LINES: usize = 5000;

/// A repository as the GitHub API lists it.
#[derive(Debug, Clone)]
pub struct Repo {
    pub name: String,
    pub full_name: String,
    pub clone_url: String,
    pub default_branch: String,
    pub private: bool,
    pub fork: bool,
    pub archived: bool,
    pub updated_at: String,
    pub description: Option<String>,
}

pub fn clone_opt_string(s: &Option<String>) -> (r: Option<String>)
    ensures
        r == *s,
{
    match s {
        Some(v) => Some(v.clone()),
        None => None,
    }
}

impl Repo {
    /// A field-by-field copy.
    pub fn duplicate(&self) -> (r: Repo)
        ensures
            r == *self,
    {
        Repo {
            name: self.name.clone(),
            full_name: self.full_name.clone(),
            clone_url: self.clone_url.clone(),
            default_branch: self.default_branch.clone(),
            private: self.private,
            fork: self.fork,
            archived: self.archived,
            updated_at: self.updated_at.clone(),
            description: clone_opt_string(&self.description),
        }
    }
}

/// The working copy that was cloned for the spin-off.
#[derive(Debug, Clone)]
pub struct PreviewState {
    pub source_repo: Repo,
    pub preview_dir: String,
    pub file_list: Vec<String>,
    pub readme_delta_ansi: String,
    pub readme_delta: Vec<String>,
    pub origin_url: Option<String>,
}

/// The preview state as values.
#[verifier::ext_equal]
pub struct PreviewView {
    pub source_repo: Repo,
    pub preview_dir: Seq<char>,
    pub file_list: Seq<Seq<char>>,
    pub readme_delta_ansi: Seq<char>,
    pub readme_delta: Seq<Seq<char>>,
    pub origin_url: Option<Seq<char>>,
}

impl View for PreviewState {
    type V = PreviewView;

    open spec fn view(&self) -> PreviewView {
        PreviewView {
            source_repo: self.source_repo,
            preview_dir: self.preview_dir@,
            file_list: string_views(self.file_list@),
            readme_delta_ansi: self.readme_delta_ansi@,
            readme_delta: string_views(self.readme_delta@),
            origin_url: opt_string_view(self.origin_url),
        }
    }
}

#[derive(Debug, Clone, Copy, PartialEq, Eq, Structural)]
pub enum Mode {
    Normal,
    EditingName,
    ConfirmPush,
    FilteringRepos,
}

#[derive(Debug, Clone, Copy, PartialEq, Eq, Structural)]
pub enum ActivePane {
    Repos,
    DirTree,
    Log,
}

impl ActivePane {
    pub open spec fn spec_next(self) -> ActivePane {
        match self {
            ActivePane::Repos => ActivePane::DirTree,
            ActivePane::DirTree => ActivePane::Log,
            ActivePane::Log => ActivePane::Repos,
        }
    }

    pub open spec fn spec_previous(self) -> ActivePane {
        match self {
            ActivePane::Repos => ActivePane::Log,
            ActivePane::DirTree => ActivePane::Repos,
            ActivePane::Log => ActivePane::DirTree,
        }
    }

    /// The pane to the right, wrapping around.
    pub fn next(self) -> (r: Self)
        ensures
            r == self.spec_next(),
    {
        match self {
            ActivePane::Repos => ActivePane::DirTree,
            ActivePane::DirTree => ActivePane::Log,
            ActivePane::Log => ActivePane::Repos,
        }
    }

    /// The pane to the left, wrapping around.
    pub fn previous(self) -> (r: Self)
        ensures
            r == self.spec_previous(),
    {
        match self {
            ActivePane::Repos => ActivePane::Log,
            ActivePane::DirTree => ActivePane::Repos,
            ActivePane::Log => ActivePane::DirTree,
        }
    }
}

/// Moving one pane to the right and then one to the left returns to the pane one
/// started from, and so does the other order; three moves in one direction go round.
pub proof fn lemma_pane_moves_cycle(p: ActivePane)
    ensures
        p.spec_next().spec_previous() == p,
        p.spec_previous().spec_next() == p,
        p.spec_next().spec_next().spec_next() == p,
        p.spec_previous().spec_previous().spec_previous() == p,
{
}

/// One entry of the TODO pane.
#[derive(Debug, Clone)]
pub struct StatusItem {
    pub done: bool,
    pub label: String,
}

impl StatusItem {
    pub fn new(done: bool, label: String) -> (r: Self)
        ensures
            r.done == done,
            r.label == label,
    {
        StatusItem { done, label }
    }
}

/// The last line index of a log of `len` lines, as a `u16` scroll offset.
pub open spec fn bottom_scroll(len: nat) -> u16 {
    if len == 0 {
        0
    } else if len - 1 > u16::MAX {
        u16::MAX
    } else {
        (len - 1) as u16
    }
}

/// The lines a log keeps after `line` is appended: at most `MAX_LOG_LINES`, the newest ones.
pub open spec fn appended_log(lines: Seq<String>, line: String) -> Seq<String> {
    let all = lines.push(line);
    if all.len() > MAX_LOG_LINES {
        all.skip(all.len() - MAX_LOG_LINES)
    } else {
        all
    }
}

/// The log pane: the lines shown and the scroll position.
#[derive(Debug)]
pub struct LogState {
    pub lines: Vec<String>,
    pub scroll: u16,
}

impl LogState {
    pub fn new(lines: Vec<String>) -> (r: Self)
        ensures
            r.lines == lines,
            r.scroll == 0,
    {
        LogState { lines, scroll: 0 }
    }

    /// Appends a line, keeps the newest `MAX_LOG_LINES` lines and scrolls to the last one.
    pub fn on_new_line(&mut self, line: String)
        ensures
            final(self).lines@ == appended_log(old(self).lines@, line),
            final(self).scroll == bottom_scroll(final(self).lines@.len()),
            final(self).lines@.len() <= MAX_LOG_LINES || final(self).lines@.len() == old(self).lines@.len() + 1,
    {
        self.lines.push(line);
        if self.lines.len() > MAX_LOG_LINES {
            let keep_from = self.lines.len() - MAX_LOG_LINES;
            let kept = self.lines.split_off(keep_from);
            self.lines = kept;
        }
        self.scroll = self.max_scroll();
    }

    fn max_scroll(&self) -> (r: u16)
        ensures
            r == bottom_scroll(self.lines@.len()),
    {
        let n = self.lines.len();
        let last = if n == 0 {
            0
        } else {
            n - 1
        };
        if last > 65535 {
            u16::MAX
        } else {
            last as u16
        }
    }
}

/// The cursor of a list widget: which row is selected and which row is shown first.
#[derive(Debug, Clone, Copy, PartialEq, Eq, Structural)]
pub struct ListState {
    pub offset: usize,
    pub selected: Option<usize>,
}

impl ListState {
    pub fn new() -> (r: Self)
        ensures
            r.offset == 0,
            r.selected is None,
    {
        ListState { offset: 0, selected: None }
    }

    pub fn selected(&self) -> (r: Option<usize>)
        ensures
            r == self.selected,
    {
        self.selected
    }

    pub fn offset(&self) -> (r: usize)
        ensures
            r == self.offset,
    {
        self.offset
    }

    pub fn set_offset(&mut self, offset: usize)
        ensures
            final(self).offset == offset,
            final(self).selected == old(self).selected,
    {
        self.offset = offset;
    }

    /// Selects a row; clearing the selection also scrolls back to the top.
    pub fn select(&mut self, index: Option<usize>)
        ensures
            final(self).selected == index,
            final(self).offset == if index is None {
                0
            } else {
                old(self).offset
            },
    {
        self.selected = index;
        if index.is_none() {
            self.offset = 0;
        }
    }
}

/// The row a cursor move lands on: `selected as isize + delta`, clamped into
/// `0..=len - 1` (for `len > 0`).
pub open spec fn clamped_move(selected: usize, delta: isize, len: usize) -> usize {
    let target = (selected as isize) as int + delta;
    if target < 0 {
        0
    } else if target > len - 1 {
        (len - 1) as usize
    } else {
        target as usize
    }
}

/// The cursor arithmetic neither overflows nor meets an empty clamp range (the cases
/// in which the move panics).
pub open spec fn move_fits(selected: usize, delta: isize, len: usize) -> bool {
    &&& isize::MIN <= (selected as isize) as int + delta <= isize::MAX
    &&& len <= isize::MAX + 1
}

fn clamp_move(selected: usize, delta: isize, len: usize) -> (r: usize)
    requires
        len > 0,
        move_fits(selected, delta, len),
    ensures
        r == clamped_move(selected, delta, len),
        r < len,
{
    let max: isize = (len - 1) as isize;
    let target: isize = selected as isize + delta;
    if target < 0 {
        0
    } else if target > max {
        max as usize
    } else {
        target as usize
    }
}

/// The cursor of the repository list.
#[derive(Debug, Clone, Copy)]
pub struct RepoListState {
    pub selected: usize,
    pub list: ListState,
}

impl RepoListState {
    pub fn new(has_items: bool) -> (r: Self)
        ensures
            r.selected == 0,
            r.list.offset == 0,
            r.list.selected == if has_items {
                Some(0usize)
            } else {
                None
            },
    {
        let mut list = ListState::new();
        if has_items {
            list.select(Some(0));
        }
        RepoListState { selected: 0, list }
    }

    /// Moves the cursor by `delta` rows within a list of `len` rows; an empty list leaves it as it is.
    pub fn move_selection(&mut self, delta: isize, len: usize)
        requires
            len > 0 ==> move_fits(old(self).selected, delta, len),
        ensures
            len == 0 ==> *final(self) == *old(self),
            len > 0 ==> final(self).selected == clamped_move(old(self).selected, delta, len)
                && final(self).list.selected == Some(final(self).selected) && final(self).list.offset == old(self).list.offset,
            len > 0 ==> final(self).selected < len,
    {
        if len == 0 {
            return;
        }
        let next = clamp_move(self.selected, delta, len);
        self.selected = next;
        self.list.select(Some(next));
    }
}

/// A list cursor on the first row, or on none when the list is empty.
pub open spec fn first_row(has_items: bool) -> ListState {
    ListState {
        offset: 0,
        selected: if has_items {
            Some(0usize)
        } else {
            None
        },
    }
}

/// The cursor of the directory tree pane.
#[derive(Debug, Clone, Copy)]
pub struct TreeListState {
    pub selected: usize,
    pub list: ListState,
}

impl TreeListState {
    pub fn new(has_items: bool) -> (r: Self)
        ensures
            r.selected == 0,
            r.list.offset == 0,
            r.list.selected == if has_items {
                Some(0usize)
            } else {
                None
            },
    {
        let mut list = ListState::new();
        if has_items {
            list.select(Some(0));
        }
        TreeListState { selected: 0, list }
    }

    /// Moves the cursor by `delta` rows within a list of `len` rows; an empty list clears it.
    pub fn move_selection(&mut self, delta: isize, len: usize)
        requires
            len > 0 ==> move_fits(old(self).selected, delta, len),
        ensures
            len == 0 ==> final(self).selected == 0 && final(self).list.selected is None
                && final(self).list.offset == 0,
            len > 0 ==> final(self).selected == clamped_move(old(self).selected, delta, len)
                && final(self).list.selected == Some(final(self).selected) && final(self).list.offset == old(self).list.offset,
            len > 0 ==> final(self).selected < len,
    {
        if len == 0 {
            self.selected = 0;
            self.list.select(None);
            return;
        }
        let next = clamp_move(self.selected, delta, len);
        self.selected = next;
        self.list.select(Some(next));
    }

    /// The cursor kept inside a list of `len` rows.
    pub open spec fn synced(self, len: usize) -> TreeListState {
        if len == 0 {
            TreeListState { selected: 0, list: first_row(false) }
        } else {
            let sel = if self.selected >= len {
                (len - 1) as usize
            } else {
                self.selected
            };
            TreeListState { selected: sel, list: ListState { selected: Some(sel), ..self.list } }
        }
    }

    /// Keeps the cursor inside a list that now has `len` rows.
    pub fn sync_len(&mut self, len: usize)
        ensures
            *final(self) == old(self).synced(len),
    {
        if len == 0 {
            self.selected = 0;
            self.list.select(None);
            return;
        }
        if self.selected >= len {
            self.selected = len - 1;
        }
        self.list.select(Some(self.selected));
    }
}

} // verus!
