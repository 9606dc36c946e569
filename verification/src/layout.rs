//! Areas of the screen.
use vstd::prelude::*;

verus! {

/// An area of the screen, in cells.
#[derive(Clone, Copy, PartialEq, Eq, Structural, Debug)]
pub struct Area {
    pub x: u16,
    pub y: u16,
    pub width: u16,
    pub height: u16,
}

/// The width of a column of some percent of a width, rounded to whole cells.
pub open spec fn percent_of(width: int, percent: int) -> int {
    (width * percent + 50) / 100
}

/// Whether two columns share an area: side by side, of its full height, the
/// left one of `left` percent of the width.
pub open spec fn share_columns(area: Area, left: u16, columns: (Area, Area)) -> bool {
    let width = percent_of(area.width as int, left as int);
    &&& columns.0 == (Area { width: width as u16, ..area })
    &&& columns.1 == (Area {
        x: (area.x + width) as u16,
        width: (area.width - width) as u16,
        ..area
    })
}

/// `ratatui::layout::Layout::split` with two columns of `left` and `right`
/// percent, which make up the whole: the columns share the area, and the percentage of the width is
/// rounded to whole cells.
#[verifier::external_body]
pub(crate) fn split_columns(area: Area, left: u16, right: u16) -> (r: (Area, Area))
    requires
        left + right == 100,
        area.x + area.width <= u16::MAX,
    ensures
        share_columns(area, left, r),
{
    let column = |r: &ratatui::layout::Rect| Area { x: r.x, y: r.y, width: r.width, height: r.height };
    let chunks = ratatui::layout::Layout::default()
        .direction(ratatui::layout::Direction::Horizontal)
        .constraints([
            ratatui::layout::Constraint::Percentage(left),
            ratatui::layout::Constraint::Percentage(right),
        ])
        .split(ratatui::layout::Rect { x: area.x, y: area.y, width: area.width, height: area.height });
    (column(&chunks[0]), column(&chunks[1]))
}

// ---------------------------------------------------------------------------
// Laws
// ---------------------------------------------------------------------------
/// Two columns that share an area fill it: the right one begins where the left
/// one ends, and ends where the area ends.
pub proof fn law_columns_fill_area(area: Area, left: u16, columns: (Area, Area))
    requires
        left <= 100,
        area.x + area.width <= u16::MAX,
        share_columns(area, left, columns),
    ensures
        columns.0.x == area.x,
        columns.0.x + columns.0.width == columns.1.x,
        columns.1.x + columns.1.width == area.x + area.width,
{
    let width = area.width as int;
    let percent = left as int;
    assert(0 <= width * percent <= width * 100) by (nonlinear_arith)
        requires
            0 <= width,
            0 <= percent <= 100,
    ;
}

/// The width of a column is that percentage of the width, to the nearest whole cell; the
/// halves of an area differ by one cell at most.
pub proof fn law_percent(width: int, percent: int)
    requires
        0 <= width,
        0 <= percent <= 100,
    ensures
        -50 <= percent_of(width, percent) * 100 - width * percent <= 50,
        0 <= percent_of(width, percent) <= width,
        percent_of(width, 100) == width,
        percent_of(width, 0) == 0,
        0 <= percent_of(width, 50) * 2 - width <= 1,
{
    assert(width * 100 == 100 * width) by (nonlinear_arith);
    assert(width * 50 == 50 * width) by (nonlinear_arith);
    assert(width * 0 == 0) by (nonlinear_arith);
    let product = width * percent;
    assert(0 <= product <= width * 100) by (nonlinear_arith)
        requires
            0 <= width,
            0 <= percent <= 100,
            product == width * percent,
    ;
    assert((product + 50) / 100 * 100 + (product + 50) % 100 == product + 50) by (nonlinear_arith);
}

} // verus!
