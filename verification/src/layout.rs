//! Screen geometry: rectangles, the split of the screen into panes (done by
//! ratatui's layout solver), and the arithmetic of popups.
use vstd::prelude::*;

verus! {

/// A rectangle of terminal cells.
#[derive(Debug, Clone, Copy, PartialEq, Eq, Structural)]
pub struct Rect {
    pub x: u16,
    pub y: u16,
    pub width: u16,
    pub height: u16,
}

impl Rect {
    pub fn new(x: u16, y: u16, width: u16, height: u16) -> (r: Rect)
        ensures
            r.x == x,
            r.y == y,
            r.width == (if width > u16::MAX - x {
                (u16::MAX - x) as u16
            } else {
                width
            }),
            r.height == (if height > u16::MAX - y {
                (u16::MAX - y) as u16
            } else {
                height
            }),
    {
        let max_width = u16::MAX - x;
        let max_height = u16::MAX - y;
        let width = if width > max_width {
            max_width
        } else {
            width
        };
        let height = if height > max_height {
            max_height
        } else {
            height
        };
        Rect { x, y, width, height }
    }
}

/// How much room one pane asks for.
#[derive(Debug, Clone, Copy, PartialEq, Eq, Structural)]
pub enum Constraint {
    Length(u16),
    Percentage(u16),
}

#[derive(Debug, Clone, Copy, PartialEq, Eq, Structural)]
pub enum Direction {
    Horizontal,
    Vertical,
}

/// `inner` lies inside `outer`.
pub open spec fn rect_within(inner: Rect, outer: Rect) -> bool {
    &&& outer.x <= inner.x
    &&& inner.x + inner.width <= outer.x + outer.width
    &&& outer.y <= inner.y
    &&& inner.y + inner.height <= outer.y + outer.height
}

/// `part` is a cut of `area` along `direction`: it spans `area` across the direction
/// and lies inside it along it.
pub open spec fn cut_from(part: Rect, area: Rect, direction: Direction) -> bool {
    match direction {
        Direction::Horizontal => {
            &&& part.y == area.y
            &&& part.height == area.height
            &&& area.x <= part.x
            &&& part.x + part.width <= area.x + area.width
        },
        Direction::Vertical => {
            &&& part.x == area.x
            &&& part.width == area.width
            &&& area.y <= part.y
            &&& part.y + part.height <= area.y + area.height
        },
    }
}

/// ratatui's `Layout::default().direction(direction).constraints(constraints).split(area)`:
/// one rectangle per constraint, each a cut of `area` along `direction`. Across the
/// direction each part takes `area`'s position and size as they are (`changes_to_rects`).
/// Along it, each part's two edges are solver variables that required constraints keep
/// between the start and the end of `area`; they are rounded to whole cells, and a part's
/// size is its end minus its start, or zero. Where between those bounds the edges fall
/// is not stated, and not named as a function of the arguments: the solver (cassowary)
/// picks its pivots in the iteration order of hash maps seeded per instance, so two
/// calls with equal arguments may cut differently. Nor is it stated that the parts
/// follow one another in order: the spacers between them are held at zero by strong
/// constraints, not required ones.
#[verifier::external_body]
pub(crate) fn split(area: Rect, direction: Direction, constraints: &Vec<Constraint>) -> (parts: Vec<Rect>)
    ensures
        parts@.len() == constraints@.len(),
        forall|i: int| 0 <= i < parts@.len() ==> cut_from(#[trigger] parts@[i], area, direction),
{
    let dir = match direction {
        Direction::Horizontal => ratatui::layout::Direction::Horizontal,
        Direction::Vertical => ratatui::layout::Direction::Vertical,
    };
    let cs = constraints.iter().map(|c| match *c {
        Constraint::Length(n) => ratatui::layout::Constraint::Length(n),
        Constraint::Percentage(p) => ratatui::layout::Constraint::Percentage(p),
    });
    let whole = ratatui::layout::Rect { x: area.x, y: area.y, width: area.width, height: area.height };
    let parts = ratatui::layout::Layout::default().direction(dir).constraints(cs).split(whole);
    parts.iter().map(|r| Rect { x: r.x, y: r.y, width: r.width, height: r.height }).collect()
}

/// The far edges of `rect` fit in `u16` (so that testing a point against it cannot overflow).
pub open spec fn in_range(rect: Rect) -> bool {
    rect.x + rect.width <= u16::MAX && rect.y + rect.height <= u16::MAX
}

/// The cell `(x, y)` lies inside `rect`.
pub open spec fn holds_cell(rect: Rect, x: u16, y: u16) -> bool {
    rect.x <= x < rect.x + rect.width && rect.y <= y < rect.y + rect.height
}

/// Whether the cell `(x, y)` lies inside `rect`.
pub fn contains(rect: Rect, x: u16, y: u16) -> (b: bool)
    requires
        in_range(rect),
    ensures
        b == holds_cell(rect, x, y),
{
    x >= rect.x && x < rect.x + rect.width && y >= rect.y && y < rect.y + rect.height
}

/// `rect` grown by the given margins on each side, kept within `bounds`.
pub open spec fn expanded_within(
    rect: Rect,
    bounds: Rect,
    left: u16,
    right: u16,
    top: u16,
    bottom: u16,
) -> Rect {
    let x = vstd::math::max(vstd::math::max(rect.x - left, 0), bounds.x as int);
    let y = vstd::math::max(vstd::math::max(rect.y - top, 0), bounds.y as int);
    let right_edge = vstd::math::min(
        vstd::math::min(vstd::math::min(rect.x + rect.width, u16::MAX as int) + right, u16::MAX as int),
        vstd::math::min(bounds.x + bounds.width, u16::MAX as int),
    );
    let bottom_edge = vstd::math::min(
        vstd::math::min(vstd::math::min(rect.y + rect.height, u16::MAX as int) + bottom, u16::MAX as int),
        vstd::math::min(bounds.y + bounds.height, u16::MAX as int),
    );
    Rect {
        x: x as u16,
        y: y as u16,
        width: vstd::math::max(right_edge - x, 0) as u16,
        height: vstd::math::max(bottom_edge - y, 0) as u16,
    }
}

/// The popup guard of the overlays: `rect` widened by margins but kept inside `bounds`.
pub fn expand_rect_within(rect: Rect, bounds: Rect, left: u16, right: u16, top: u16, bottom: u16) -> (r: Rect)
    ensures
        r == expanded_within(rect, bounds, left, right, top, bottom),
{
    let x0 = rect.x.saturating_sub(left);
    let x = if x0 > bounds.x { x0 } else { bounds.x };
    let y0 = rect.y.saturating_sub(top);
    let y = if y0 > bounds.y { y0 } else { bounds.y };
    let re = rect.x.saturating_add(rect.width).saturating_add(right);
    let rb = bounds.x.saturating_add(bounds.width);
    let right_edge = if re < rb { re } else { rb };
    let be = rect.y.saturating_add(rect.height).saturating_add(bottom);
    let bb = bounds.y.saturating_add(bounds.height);
    let bottom_edge = if be < bb { be } else { bb };
    Rect::new(x, y, right_edge.saturating_sub(x), bottom_edge.saturating_sub(y))
}

/// The three bands a popup of `percent` percent is centred with: equal margins of
/// `(100 - percent) / 2` percent on either side of it.
pub open spec fn popup_bands(percent: u16) -> Seq<Constraint> {
    seq![
        Constraint::Percentage(((100 - percent) / 2) as u16),
        Constraint::Percentage(percent),
        Constraint::Percentage(((100 - percent) / 2) as u16),
    ]
}

/// The constraints that centre a popup of `percent` percent.
pub fn popup_constraints(percent: u16) -> (r: Vec<Constraint>)
    requires
        percent <= 100,
    ensures
        r@ == popup_bands(percent),
{
    let side = (100 - percent) / 2;
    let r = vec![Constraint::Percentage(side), Constraint::Percentage(percent), Constraint::Percentage(side)];
    assert(r@ =~= popup_bands(percent));
    r
}

/// The centred popup of `percent_x` by `percent_y` percent of `rect`: the middle band
/// of the rows `popup_bands(percent_y)` cut from `rect`, then the middle band of the
/// columns `popup_bands(percent_x)` cut from it. The layout solver places the bands;
/// the popup lies inside `rect`.
pub fn centered_rect(percent_x: u16, percent_y: u16, rect: Rect) -> (r: Rect)
    requires
        percent_x <= 100,
        percent_y <= 100,
    ensures
        rect_within(r, rect),
{
    let rows_c = popup_constraints(percent_y);
    let rows = split(rect, Direction::Vertical, &rows_c);
    let cols_c = popup_constraints(percent_x);
    let cols = split(rows[1], Direction::Horizontal, &cols_c);
    cols[1]
}

} // verus!
