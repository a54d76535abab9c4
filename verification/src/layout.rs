//! Rectangles of terminal cells: how the screen is divided, and the centred
//! area of the pop-up windows.

use vstd::prelude::*;
use ratatui::layout::{Constraint, Direction, Layout, Rect};

verus! {

/// A rectangle of terminal cells: its top left corner and its size.
#[derive(Clone, Copy, Debug, PartialEq, Eq, Structural)]
pub struct Area {
    pub x: u16,
    pub y: u16,
    pub width: u16,
    pub height: u16,
}

/// The parts into which ratatui's `Layout` splits the area at (`x`, `y`)
/// of size `width` by `height`, stacked vertically or side by side, one
/// part for each percentage constraint.
pub uninterp spec fn percentage_layout(
    vertical: bool,
    percentages: Seq<u16>,
    x: u16,
    y: u16,
    width: u16,
    height: u16,
) -> Seq<Area>;

/// The sum of the percentages.
pub open spec fn percent_total(percentages: Seq<u16>) -> int
    decreases percentages.len(),
{
    if percentages.len() == 0 {
        0
    } else {
        percent_total(percentages.drop_last()) + percentages.last()
    }
}

/// Calls `ratatui::layout::Layout::split` on a default layout (no margin,
/// no spacing, `Flex::Start`) with the given direction and one
/// `Constraint::Percentage` for each percentage. `split` returns one part
/// for each constraint. Where the percentages add up to at most 100 every
/// part gets exactly its share, which fixes the parts as a function of the
/// arguments; the contract claims that, and it admits no other inputs
/// (over 100 the constraints conflict and the solver may pick any of
/// several optima).
#[verifier::external_body]
fn split_by_percentages(vertical: bool, percentages: &Vec<u16>, area: Area) -> (parts: Vec<Area>)
    requires
        percent_total(percentages@) <= 100,
    ensures
        parts@ == percentage_layout(
            vertical,
            percentages@,
            area.x,
            area.y,
            area.width,
            area.height,
        ),
        parts@.len() == percentages@.len(),
{
    let direction = if vertical { Direction::Vertical } else { Direction::Horizontal };
    let rect = Rect { x: area.x, y: area.y, width: area.width, height: area.height };
    let constraints = percentages.iter().map(|p| Constraint::Percentage(*p));
    let parts = Layout::default().direction(direction).constraints(constraints).split(rect);
    parts.iter().map(|r| Area { x: r.x, y: r.y, width: r.width, height: r.height }).collect()
}

/// The middle of three parts of `area`, the middle one taking `percent`
/// and the two others half the rest each.
pub open spec fn middle_part(vertical: bool, percent: u16, area: Area) -> Area {
    let side = ((100 - percent) / 2) as u16;
    percentage_layout(
        vertical,
        seq![side, percent, side],
        area.x,
        area.y,
        area.width,
        area.height,
    )[1]
}

/// The area of a pop-up window: `percent_y` of the height of `r` in the
/// middle, and of that `percent_x` of the width in the middle.
pub open spec fn centered_area(percent_x: u16, percent_y: u16, r: Area) -> Area {
    middle_part(false, percent_x, middle_part(true, percent_y, r))
}

fn split_middle(vertical: bool, percent: u16, area: Area) -> (part: Area)
    requires
        percent <= 100,
    ensures
        part == middle_part(vertical, percent, area),
{
    let side = (100 - percent) / 2;
    let mut percentages: Vec<u16> = Vec::new();
    percentages.push(side);
    percentages.push(percent);
    percentages.push(side);
    assert(percentages@ =~= seq![side, percent, side]);
    assert(percent_total(percentages@) == side + percent + side) by {
        let s = percentages@;
        assert(s.drop_last() =~= seq![side, percent]);
        assert(s.drop_last().drop_last() =~= seq![side]);
        assert(s.drop_last().drop_last().drop_last() =~= Seq::<u16>::empty());
        reveal_with_fuel(percent_total, 4);
    }
    let parts = split_by_percentages(vertical, &percentages, area);
    parts[1]
}

/// The area of a pop-up window: `percent_y` of the height of `r` in the
/// middle, and of that `percent_x` of the width in the middle.
pub fn centered_rect(percent_x: u16, percent_y: u16, r: Area) -> (c: Area)
    requires
        percent_x <= 100,
        percent_y <= 100,
    ensures
        c == centered_area(percent_x, percent_y, r),
{
    let popup_row = split_middle(true, percent_y, r);
    split_middle(false, percent_x, popup_row)
}

/// The two parts into which ratatui's `Layout` splits the area at (`x`,
/// `y`) of size `width` by `height`, within a margin of `margin` cells,
/// stacked vertically: the top one of `Constraint::Length(length)`, the
/// bottom one of `Constraint::Min(min)`.
pub uninterp spec fn length_min_layout(
    margin: u16,
    length: u16,
    min: u16,
    x: u16,
    y: u16,
    width: u16,
    height: u16,
) -> Seq<Area>;

/// Calls `ratatui::layout::Layout::split` on a default layout (no spacing,
/// `Flex::Start`) stacked vertically within a margin of `margin` cells,
/// with the constraints `Length(length)` then `Min(min)`. `split` returns
/// one part for each constraint. The solver weighs the minimum above the
/// length and the growth of the bottom part above that of the free space
/// after it, so no two layouts of these two parts tie and the parts are a
/// function of the arguments; the contract claims that.
#[verifier::external_body]
fn split_length_then_min(margin: u16, length: u16, min: u16, area: Area) -> (parts: Vec<Area>)
    ensures
        parts@ == length_min_layout(
            margin,
            length,
            min,
            area.x,
            area.y,
            area.width,
            area.height,
        ),
        parts@.len() == 2,
{
    let rect = Rect { x: area.x, y: area.y, width: area.width, height: area.height };
    let constraints = [Constraint::Length(length), Constraint::Min(min)];
    let layout = Layout::default().direction(Direction::Vertical).margin(margin);
    let parts = layout.constraints(constraints).split(rect);
    parts.iter().map(|r| Area { x: r.x, y: r.y, width: r.width, height: r.height }).collect()
}

/// The areas of the screen `frame` within a margin of `margin` cells: a
/// top row of `top` cells high (at least 5 cells left below it) cut into a
/// left and a right half, and the rest below.
pub open spec fn screen_split(margin: u16, top: u16, frame: Area) -> (Area, Area, Area) {
    let rows = length_min_layout(margin, top, 5, frame.x, frame.y, frame.width, frame.height);
    let upper = rows[0];
    let halves = percentage_layout(
        false,
        seq![50u16, 50u16],
        upper.x,
        upper.y,
        upper.width,
        upper.height,
    );
    (halves[0], halves[1], rows[1])
}

fn split_screen(margin: u16, top: u16, frame: Area) -> (areas: (Area, Area, Area))
    ensures
        areas == screen_split(margin, top, frame),
{
    let rows = split_length_then_min(margin, top, 5, frame);
    let mut halves_pct: Vec<u16> = Vec::new();
    halves_pct.push(50);
    halves_pct.push(50);
    assert(halves_pct@ =~= seq![50u16, 50u16]);
    assert(percent_total(halves_pct@) == 100) by {
        let s = halves_pct@;
        assert(s.drop_last() =~= seq![50u16]);
        assert(s.drop_last().drop_last() =~= Seq::<u16>::empty());
        reveal_with_fuel(percent_total, 3);
    }
    let halves = split_by_percentages(false, &halves_pct, rows[0]);
    (halves[0], halves[1], rows[1])
}

/// The areas of the monitor's screen: the CPU plot (top left, 20 rows
/// high), the memory plot (top right) and the process table below.
pub fn screen_areas(frame: Area) -> (areas: (Area, Area, Area))
    ensures
        areas == screen_split(0, 20, frame),
{
    split_screen(0, 20, frame)
}

/// The areas of the compact screen within a margin of one cell: the CPU
/// gauge (top left, 3 rows high), the memory gauge (top right) and the
/// process table below.
pub fn gauge_screen_areas(frame: Area) -> (areas: (Area, Area, Area))
    ensures
        areas == screen_split(1, 3, frame),
{
    split_screen(1, 3, frame)
}

} // verus!
