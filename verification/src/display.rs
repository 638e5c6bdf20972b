//! What the screen shows, as values: which panes and popups are drawn, the rows of
//! the filter popup, the marks and colours of lines, the spinner, the log scroll.
//! Turning these into widgets is left to the caller.
use vstd::prelude::*;

use crate::app::{App, AppView};
use crate::models::{Mode, Repo};
use crate::text::{
    all_ws, contains_seq, is_blank, starts_with, str_contains, string_of, string_views, to_chars,
    trim_start, ws_prefix_end,
};

verus! {

broadcast use vstd::string::group_string_axioms;

/// A pane of the upper half of the screen.
#[derive(Debug, Clone, Copy, PartialEq, Eq, Structural)]
pub enum Pane {
    Todo,
    Repos,
    DirTree,
    Validation,
    Readme,
}

/// A layer drawn over the panes, in drawing order.
#[derive(Debug, Clone, Copy, PartialEq, Eq, Structural)]
pub enum Overlay {
    /// The whole screen dimmed while the terminal has no focus.
    FocusDim,
    Help,
    Filter,
    NameEditor,
    Confirm,
    Busy,
}

/// The colour class of a line.
#[derive(Debug, Clone, Copy, PartialEq, Eq, Structural)]
pub enum Tone {
    Good,
    Bad,
    Plain,
}

/// The mark in front of a TODO entry.
#[derive(Debug, Clone, Copy, PartialEq, Eq, Structural)]
pub enum TodoMark {
    /// The entry that explains moving between panes.
    Navigation,
    Done,
    Open,
}

/// How a row of the repository list is drawn.
#[derive(Debug, Clone, Copy, PartialEq, Eq, Structural)]
pub enum RowStyle {
    /// The selected row of the active list.
    Highlight,
    /// Another row of the active list.
    Normal,
    /// Any row of the list while another pane is active.
    Dim,
}

/// The panes of the upper half, left to right: TODO, repos and README before a
/// clone; the directory tree after it, and the validation pane once the new name is
/// decided.
pub open spec fn top_panes_spec(show_tree: bool, show_validation: bool) -> Seq<Pane> {
    if !show_tree {
        seq![Pane::Todo, Pane::Repos, Pane::Readme]
    } else if show_validation {
        seq![Pane::Todo, Pane::Repos, Pane::DirTree, Pane::Validation, Pane::Readme]
    } else {
        seq![Pane::Todo, Pane::Repos, Pane::DirTree, Pane::Readme]
    }
}

impl AppView {
    /// The layers over the panes, bottom to top.
    pub open spec fn overlays(self) -> Seq<Overlay> {
        let a: Seq<Overlay> = if !self.is_focused {
            seq![Overlay::FocusDim]
        } else {
            Seq::empty()
        };
        let b: Seq<Overlay> = if self.show_help {
            a.push(Overlay::Help)
        } else {
            a
        };
        let c: Seq<Overlay> = if self.mode == Mode::FilteringRepos {
            b.push(Overlay::Filter)
        } else if self.mode == Mode::EditingName {
            b.push(Overlay::NameEditor)
        } else if self.mode == Mode::ConfirmPush {
            b.push(Overlay::Confirm)
        } else {
            b
        };
        if self.busy_message is Some {
            c.push(Overlay::Busy)
        } else {
            c
        }
    }
}

impl App {
    /// The panes of the upper half, left to right.
    pub fn top_panes(&self) -> (r: Vec<Pane>)
        ensures
            r@ == top_panes_spec(self@.preview is Some, self@.preview is Some && self@.name_confirmed),
    {
        let r = if self.preview.is_none() {
            vec![Pane::Todo, Pane::Repos, Pane::Readme]
        } else if self.name_confirmed {
            vec![Pane::Todo, Pane::Repos, Pane::DirTree, Pane::Validation, Pane::Readme]
        } else {
            vec![Pane::Todo, Pane::Repos, Pane::DirTree, Pane::Readme]
        };
        assert(r@ =~= top_panes_spec(self@.preview is Some, self@.preview is Some && self@.name_confirmed));
        r
    }

    /// The layers drawn over the panes, bottom to top.
    pub fn overlays(&self) -> (r: Vec<Overlay>)
        ensures
            r@ == self@.overlays(),
    {
        let mut r: Vec<Overlay> = Vec::new();
        if !self.is_focused {
            r.push(Overlay::FocusDim);
        }
        if self.show_help {
            r.push(Overlay::Help);
        }
        match self.mode {
            Mode::FilteringRepos => r.push(Overlay::Filter),
            Mode::EditingName => r.push(Overlay::NameEditor),
            Mode::ConfirmPush => r.push(Overlay::Confirm),
            Mode::Normal => {},
        }
        if self.busy_message.is_some() {
            r.push(Overlay::Busy);
        }
        assert(r@ =~= self@.overlays());
        r
    }
}

// ---------------------------------------------------------------------------
// The busy spinner
// ---------------------------------------------------------------------------

pub open spec fn spinner_frames() -> Seq<Seq<char>> {
    seq!["-"@, "\\"@, "|"@, "/"@]
}

/// The frame shown `elapsed_ms` milliseconds after the busy popup opened: a new one
/// every quarter second, the first one when the popup has no start time.
pub open spec fn spinner_index(elapsed_ms: Option<u128>) -> int {
    match elapsed_ms {
        Some(ms) => ((ms / 250) % 4) as int,
        None => 0,
    }
}

pub fn spinner_frame(elapsed_ms: Option<u128>) -> (s: &'static str)
    ensures
        s@ == spinner_frames()[spinner_index(elapsed_ms)],
{
    let index: u128 = match elapsed_ms {
        Some(ms) => (ms / 250) % 4,
        None => 0,
    };
    if index == 0 {
        "-"
    } else if index == 1 {
        "\\"
    } else if index == 2 {
        "|"
    } else {
        "/"
    }
}

// ---------------------------------------------------------------------------
// Marks and colours
// ---------------------------------------------------------------------------

/// The TODO mark: the navigation entry has its own, the others are done or open.
pub fn todo_mark(label: &str, done: bool) -> (m: TodoMark)
    ensures
        m == (if starts_with(label@, "移動 :"@) {
            TodoMark::Navigation
        } else if done {
            TodoMark::Done
        } else {
            TodoMark::Open
        }),
{
    let chars = to_chars(label);
    let prefix = to_chars("移動 :");
    if crate::text::starts_with_chars(chars.as_slice(), prefix.as_slice()) {
        TodoMark::Navigation
    } else if done {
        TodoMark::Done
    } else {
        TodoMark::Open
    }
}

/// How a row of the repository list is drawn.
pub fn repo_row_style(pane_active: bool, is_selected: bool) -> (s: RowStyle)
    ensures
        s == (if pane_active && is_selected {
            RowStyle::Highlight
        } else if pane_active {
            RowStyle::Normal
        } else {
            RowStyle::Dim
        }),
{
    if pane_active && is_selected {
        RowStyle::Highlight
    } else if pane_active {
        RowStyle::Normal
    } else {
        RowStyle::Dim
    }
}

/// The colour of a remote-safety line: green for `OK:`, red for `NG:`.
pub open spec fn safety_tone(line: Seq<char>) -> Tone {
    if contains_seq(line, "OK:"@) {
        Tone::Good
    } else if contains_seq(line, "NG:"@) {
        Tone::Bad
    } else {
        Tone::Plain
    }
}

/// The colour of a plain diff line: added lines green, removed lines red.
pub open spec fn delta_tone(line: Seq<char>) -> Tone {
    if starts_with(trim_start(line), "+"@) {
        Tone::Good
    } else if starts_with(trim_start(line), "-"@) {
        Tone::Bad
    } else {
        Tone::Plain
    }
}

/// The colour of a line of the validation pane: green for `OK:`, red for `NG:`.
pub fn safety_line_tone(line: &str) -> (t: Tone)
    ensures
        t == safety_tone(line@),
{
    if str_contains(line, "OK:") {
        Tone::Good
    } else if str_contains(line, "NG:") {
        Tone::Bad
    } else {
        Tone::Plain
    }
}

/// The colour of a line of the push confirmation: a passed check is green too.
pub fn confirm_line_tone(line: &str) -> (t: Tone)
    ensures
        t == (if contains_seq(line@, "OK:"@) || contains_seq(line@, "検証に合格"@) {
            Tone::Good
        } else if contains_seq(line@, "NG:"@) {
            Tone::Bad
        } else {
            Tone::Plain
        }),
{
    if str_contains(line, "OK:") || str_contains(line, "検証に合格") {
        Tone::Good
    } else if str_contains(line, "NG:") {
        Tone::Bad
    } else {
        Tone::Plain
    }
}

/// The colour of a plain diff line: added lines green, removed lines red.
pub fn delta_line_tone(line: &str) -> (t: Tone)
    ensures
        t == delta_tone(line@),
{
    let chars = to_chars(line);
    let start = ws_prefix_end(chars.as_slice());
    proof {
        reveal_strlit("+");
        reveal_strlit("-");
        assert(trim_start(chars@) == chars@.skip(start as int));
    }
    let ghost t = trim_start(line@);
    proof {
        if start < chars.len() {
            assert(t.subrange(0, 1)[0] == chars@[start as int]);
        }
    }
    if start < chars.len() && chars[start] == '+' {
        assert(t.subrange(0, 1) =~= "+"@);
        Tone::Good
    } else if start < chars.len() && chars[start] == '-' {
        assert(t.subrange(0, 1) =~= "-"@);
        Tone::Bad
    } else {
        Tone::Plain
    }
}

/// The availability line of the validation pane and its colour.
pub fn availability_label(available: Option<bool>) -> (r: (&'static str, Tone))
    ensures
        r.0@ == (match available {
            Some(true) => "name available: OK"@,
            Some(false) => "name available: NG"@,
            None => "name available: pending"@,
        }),
        r.1 == (match available {
            Some(true) => Tone::Good,
            Some(false) => Tone::Bad,
            None => Tone::Plain,
        }),
{
    match available {
        Some(true) => ("name available: OK", Tone::Good),
        Some(false) => ("name available: NG", Tone::Bad),
        None => ("name available: pending", Tone::Plain),
    }
}

// ---------------------------------------------------------------------------
// The validation pane
// ---------------------------------------------------------------------------

/// A line of the validation pane.
pub enum ValidationLine {
    /// In the pane's text colour.
    Text(String),
    /// In the colour of its tone.
    Toned(String, Tone),
    /// Dimmed.
    Muted(String),
    Blank,
    /// Bold, as a heading.
    Heading(String),
    /// `delta`'s coloured rendering, shown by its first lines; where its colours cannot
    /// be read, the plain lines given here are shown in their tones instead.
    Delta(String, Vec<(String, Tone)>),
}

/// A line of the validation pane as plain values.
pub enum ValidationLineView {
    Text(Seq<char>),
    Toned(Seq<char>, Tone),
    Muted(Seq<char>),
    Blank,
    Heading(Seq<char>),
    Delta(Seq<char>, Seq<(Seq<char>, Tone)>),
}

pub open spec fn toned_views(v: Seq<(String, Tone)>) -> Seq<(Seq<char>, Tone)> {
    v.map_values(|x: (String, Tone)| (x.0@, x.1))
}

impl View for ValidationLine {
    type V = ValidationLineView;

    open spec fn view(&self) -> ValidationLineView {
        match self {
            ValidationLine::Text(t) => ValidationLineView::Text(t@),
            ValidationLine::Toned(t, tone) => ValidationLineView::Toned(t@, *tone),
            ValidationLine::Muted(t) => ValidationLineView::Muted(t@),
            ValidationLine::Blank => ValidationLineView::Blank,
            ValidationLine::Heading(t) => ValidationLineView::Heading(t@),
            ValidationLine::Delta(a, p) => ValidationLineView::Delta(a@, toned_views(p@)),
        }
    }
}

/// Most lines of `delta`'s rendering the validation pane shows.
pub const DELTA_LINES_SHOWN: usize = 20;

/// The availability line: green when the name is free, red when taken, dimmed while
/// it is not known yet.
pub open spec fn availability_line(available: Option<bool>) -> ValidationLineView {
    match available {
        Some(true) => ValidationLineView::Toned("name available: OK"@, Tone::Good),
        Some(false) => ValidationLineView::Toned("name available: NG"@, Tone::Bad),
        None => ValidationLineView::Muted("name available: pending"@),
    }
}

/// The first `n` lines of `lines`, each with its diff tone.
pub open spec fn toned_delta(lines: Seq<Seq<char>>, n: nat) -> Seq<(Seq<char>, Tone)> {
    let shown = if lines.len() > n {
        lines.take(n as int)
    } else {
        lines
    };
    shown.map_values(|l: Seq<char>| (l, delta_tone(l)))
}

impl AppView {
    /// The validation pane: the new name and whether it is free, the remote-safety
    /// report line by line, and, once a working copy is there, the README's diff.
    pub open spec fn validation_lines(self) -> Seq<ValidationLineView> {
        let head = seq![
            ValidationLineView::Text("repo name: "@ + self.new_repo_name),
            availability_line(self.repo_name_available),
            ValidationLineView::Blank,
        ];
        let safety = self.remote_safety_lines.map_values(
            |l: Seq<char>| ValidationLineView::Toned(l, safety_tone(l)),
        );
        let diff = match self.preview {
            None => Seq::empty(),
            Some(p) => seq![
                ValidationLineView::Blank,
                ValidationLineView::Heading("README.ja.md delta:"@),
                if all_ws(p.readme_delta_ansi) {
                    ValidationLineView::Muted("(差分はありません)"@)
                } else {
                    ValidationLineView::Delta(
                        p.readme_delta_ansi,
                        toned_delta(p.readme_delta, DELTA_LINES_SHOWN as nat),
                    )
                },
            ],
        };
        head + safety + diff
    }
}

pub open spec fn line_views(v: Seq<ValidationLine>) -> Seq<ValidationLineView> {
    v.map_values(|x: ValidationLine| x@)
}

fn toned_diff_lines(lines: &Vec<String>) -> (r: Vec<(String, Tone)>)
    ensures
        toned_views(r@) == toned_delta(string_views(lines@), DELTA_LINES_SHOWN as nat),
{
    let n = if lines.len() > DELTA_LINES_SHOWN {
        DELTA_LINES_SHOWN
    } else {
        lines.len()
    };
    let ghost shown = if string_views(lines@).len() > DELTA_LINES_SHOWN as nat {
        string_views(lines@).take(DELTA_LINES_SHOWN as int)
    } else {
        string_views(lines@)
    };
    let mut r: Vec<(String, Tone)> = Vec::new();
    let mut i: usize = 0;
    while i < n
        invariant
            n <= lines@.len(),
            n == shown.len(),
            i <= n,
            forall|k: int| 0 <= k < n ==> shown[k] == (#[trigger] lines@[k])@,
            toned_views(r@) == shown.take(i as int).map_values(|l: Seq<char>| (l, delta_tone(l))),
        decreases n - i,
    {
        let line = string_of(lines[i].as_str());
        let tone = delta_line_tone(lines[i].as_str());
        let ghost before = r@;
        r.push((line, tone));
        assert(toned_views(r@) =~= toned_views(before).push((lines@[i as int]@, tone)));
        assert(shown.take(i + 1) =~= shown.take(i as int).push(shown[i as int]));
        assert(toned_views(r@) =~= shown.take(i + 1).map_values(|l: Seq<char>| (l, delta_tone(l))));
        i = i + 1;
    }
    assert(shown.take(n as int) =~= shown);
    r
}

impl App {
    /// The lines of the validation pane, in order.
    pub fn validation_lines(&self) -> (r: Vec<ValidationLine>)
        ensures
            line_views(r@) == self@.validation_lines(),
    {
        let mut r: Vec<ValidationLine> = Vec::new();
        let mut name_line = string_of("repo name: ");
        name_line.append(self.new_repo_name.as_str());
        r.push(ValidationLine::Text(name_line));
        let (label, tone) = availability_label(self.repo_name_available);
        match tone {
            Tone::Plain => r.push(ValidationLine::Muted(string_of(label))),
            _ => r.push(ValidationLine::Toned(string_of(label), tone)),
        }
        r.push(ValidationLine::Blank);
        assert(line_views(r@) =~= seq![
            ValidationLineView::Text("repo name: "@ + self@.new_repo_name),
            availability_line(self@.repo_name_available),
            ValidationLineView::Blank,
        ]);
        let ghost safety = self@.remote_safety_lines.map_values(
            |l: Seq<char>| ValidationLineView::Toned(l, safety_tone(l)),
        );
        let ghost start = line_views(r@);
        let mut i: usize = 0;
        while i < self.remote_safety_lines.len()
            invariant
                i <= self.remote_safety_lines@.len(),
                self@.remote_safety_lines == string_views(self.remote_safety_lines@),
                safety == self@.remote_safety_lines.map_values(
                    |l: Seq<char>| ValidationLineView::Toned(l, safety_tone(l)),
                ),
                line_views(r@) == start + safety.take(i as int),
            decreases self.remote_safety_lines@.len() - i,
        {
            let line = &self.remote_safety_lines[i];
            let tone = safety_line_tone(line.as_str());
            let ghost before = r@;
            r.push(ValidationLine::Toned(string_of(line.as_str()), tone));
            assert(line_views(r@) =~= line_views(before).push(ValidationLineView::Toned(line@, tone)));
            assert(safety.take(i + 1) =~= safety.take(i as int).push(safety[i as int]));
            i = i + 1;
        }
        assert(safety.take(i as int) =~= safety);
        match &self.preview {
            None => {},
            Some(p) => {
                let ghost before = r@;
                r.push(ValidationLine::Blank);
                r.push(ValidationLine::Heading(string_of("README.ja.md delta:")));
                let ansi = to_chars(p.readme_delta_ansi.as_str());
                if is_blank(ansi.as_slice()) {
                    r.push(ValidationLine::Muted(string_of("(差分はありません)")));
                } else {
                    let plain = toned_diff_lines(&p.readme_delta);
                    r.push(ValidationLine::Delta(string_of(p.readme_delta_ansi.as_str()), plain));
                }
                assert(line_views(r@) =~= line_views(before) + seq![
                    ValidationLineView::Blank,
                    ValidationLineView::Heading("README.ja.md delta:"@),
                    line_views(r@).last(),
                ]);
            },
        }
        assert(line_views(r@) =~= self@.validation_lines());
        r
    }
}

// ---------------------------------------------------------------------------
// The log pane
// ---------------------------------------------------------------------------

/// The scroll position the log pane uses: the stored one, but never past the point
/// where the last line reaches the bottom of a pane `area_height` rows high.
pub open spec fn shown_log_scroll(lines: nat, area_height: u16, scroll: u16) -> u16 {
    let inner: int = if area_height >= 2 {
        area_height - 2
    } else {
        0
    };
    let rest: int = if lines >= inner {
        lines - inner
    } else {
        0
    };
    let max: int = if rest > u16::MAX {
        u16::MAX as int
    } else {
        rest
    };
    if scroll <= max {
        scroll
    } else {
        max as u16
    }
}

pub fn log_scroll_in_view(lines: usize, area_height: u16, scroll: u16) -> (r: u16)
    ensures
        r == shown_log_scroll(lines as nat, area_height, scroll),
{
    let inner = area_height.saturating_sub(2) as usize;
    let rest = lines.saturating_sub(inner);
    let max: u16 = if rest > 65535 {
        u16::MAX
    } else {
        rest as u16
    };
    if scroll <= max {
        scroll
    } else {
        max
    }
}

// ---------------------------------------------------------------------------
// The filter popup
// ---------------------------------------------------------------------------

/// The first row of the filter popup's window of `visible` rows over `total` matches
/// (`total > 0`): the selection sits in the middle where it can, and the window stops
/// at the end of the list.
pub open spec fn filter_window_start(selected: usize, total: usize, visible: usize) -> int {
    let sel: int = if selected < total - 1 {
        selected as int
    } else {
        total - 1
    };
    let half: int = (visible / 2) as int;
    let start: int = if sel >= half {
        sel - half
    } else {
        0
    };
    if start + visible > total {
        if total >= visible {
            total - visible
        } else {
            0
        }
    } else {
        start
    }
}

/// The rows of the filter popup shown in a popup `popup_height` rows high: the names
/// of the matching repositories in the window, each with whether it is the selected
/// one. No row means nothing matches.
pub open spec fn filter_rows_spec(v: AppView, popup_height: u16) -> Seq<(Seq<char>, bool)> {
    let indices = v.filtered();
    let total = indices.len();
    let visible: int = if popup_height >= 6 {
        popup_height - 5
    } else {
        1
    };
    if total == 0 {
        Seq::empty()
    } else {
        let start = filter_window_start(v.filter_state.selected, total as usize, visible as usize);
        let count: int = if total - start < visible {
            total - start
        } else {
            visible
        };
        Seq::new(
            count as nat,
            |k: int| (v.repos[indices[start + k] as int].name@, start + k == v.filter_state.selected),
        )
    }
}

pub open spec fn row_matches(row: (String, bool), repos: Seq<Repo>, indices: Seq<usize>, i: int, selected: usize) -> bool {
    row.0@ == repos[indices[i] as int].name@ && row.1 == (i == selected)
}

/// The line the filter popup shows when nothing matches.
pub const NO_MATCHING_REPO: &'static str = "一致する repo はありません";

impl App {
    /// The rows of the filter popup for a popup `popup_height` rows high.
    pub fn filter_rows(&self, popup_height: u16) -> (rows: Vec<(String, bool)>)
        ensures
            rows@.map_values(|r: (String, bool)| (r.0@, r.1)) == filter_rows_spec(self@, popup_height),
    {
        let filtered = self.filtered_repo_indices();
        let mut rows: Vec<(String, bool)> = Vec::new();
        let total = filtered.len();
        let visible = if popup_height >= 6 {
            (popup_height - 5) as usize
        } else {
            1
        };
        if total == 0 {
            assert(rows@.map_values(|r: (String, bool)| (r.0@, r.1)) =~= filter_rows_spec(self@, popup_height));
            return rows;
        }
        let selected = if self.filter_state.selected < total - 1 {
            self.filter_state.selected
        } else {
            total - 1
        };
        let half = visible / 2;
        let mut start = if selected >= half {
            selected - half
        } else {
            0
        };
        if visible > total - start {
            start = if total >= visible {
                total - visible
            } else {
                0
            };
        }
        assert(start as int == filter_window_start(self.filter_state.selected, total, visible));
        let count = if total - start < visible {
            total - start
        } else {
            visible
        };
        let n_repos = self.repos.len();
        proof {
            crate::app::lemma_matching_indices_in_range(self.repos@, self.repo_filter@);
        }
        let mut k: usize = 0;
        while k < count
            invariant
                k <= count,
                start + count <= total,
                total == filtered@.len(),
                filtered@ == self@.filtered(),
                forall|m: int| 0 <= m < filtered@.len() ==> #[trigger] filtered@[m] < self.repos@.len(),
                rows@.len() == k,
                forall|m: int| 0 <= m < k ==> #[trigger] row_matches(rows@[m], self.repos@, filtered@, start + m, self.filter_state.selected),
            decreases count - k,
        {
            let repo_index = filtered[start + k];
            let name = self.repos[repo_index].name.clone();
            let ghost before = rows@;
            rows.push((name, start + k == self.filter_state.selected));
            assert forall|m: int| 0 <= m < k + 1 implies #[trigger] row_matches(rows@[m], self.repos@, filtered@, start + m, self.filter_state.selected) by {
                if m < k {
                    assert(rows@[m] == before[m]);
                }
            }
            k = k + 1;
        }
        proof {
            let want = filter_rows_spec(self@, popup_height);
            let got = rows@.map_values(|r: (String, bool)| (r.0@, r.1));
            assert(want.len() == count);
            assert forall|m: int| 0 <= m < count implies got[m] == want[m] by {
                assert(row_matches(rows@[m], self.repos@, filtered@, start + m, self.filter_state.selected));
            }
            assert(got =~= want);
        }
        rows
    }
}

} // verus!
