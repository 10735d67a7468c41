//! Placement of centred overlays (help, dialogs) on the screen.

use ratatui::layout::{Constraint, Direction, Layout, Rect};
use vstd::prelude::*;

verus! {

/// The three areas (column, row, width, height) that ratatui's `Layout`
/// gives for the constraints `Length(first)`, `Length(second)`, `Min(0)`
/// along one axis of `area` (vertical: top to bottom).
pub uninterp spec fn layout_split(
    vertical: bool,
    area: (u16, u16, u16, u16),
    first: u16,
    second: u16,
) -> Seq<(u16, u16, u16, u16)>;

/// Splits `area` with `Layout::split` (ratatui) into a `Length(first)`, a
/// `Length(second)` and a `Min(0)` part. Claimed: the parts are the named
/// layout result, there is one per constraint, and each keeps the
/// extent of `area` across the split axis (the solver only places parts
/// along the axis).
#[verifier::external_body]
fn split_lengths(vertical: bool, area: (u16, u16, u16, u16), first: u16, second: u16) -> (r: Vec<
    (u16, u16, u16, u16),
>)
    ensures
        r@ == layout_split(vertical, area, first, second),
        r@.len() == 3,
        forall|i: int|
            0 <= i < 3 ==> if vertical {
                (#[trigger] r@[i]).0 == area.0 && r@[i].2 == area.2
            } else {
                r@[i].1 == area.1 && r@[i].3 == area.3
            },
{
    let direction = if vertical { Direction::Vertical } else { Direction::Horizontal };
    let rect = Rect { x: area.0, y: area.1, width: area.2, height: area.3 };
    let parts = Layout::default()
        .direction(direction)
        .constraints([Constraint::Length(first), Constraint::Length(second), Constraint::Min(0)])
        .split(rect);
    parts.iter().map(|p| (p.x, p.y, p.width, p.height)).collect()
}

/// The row band of `r` that a box `height` rows high occupies when centred.
pub open spec fn centered_band(height: u16, r: (u16, u16, u16, u16)) -> (u16, u16, u16, u16) {
    let top = if r.3 >= height { ((r.3 - height) / 2) as u16 } else { 0u16 };
    layout_split(true, r, top, height)[1]
}

/// The area a `width` × `height` box takes when centred in `r`: a
/// vertical split leaving half the spare rows above it, then a horizontal
/// split of that band leaving half the spare columns to its left.
pub open spec fn centered_rect_spec(width: u16, height: u16, r: (u16, u16, u16, u16)) -> (
    u16,
    u16,
    u16,
    u16,
) {
    let band = centered_band(height, r);
    let left = if r.2 >= width { ((r.2 - width) / 2) as u16 } else { 0u16 };
    layout_split(false, band, left, width)[1]
}

/// A `width` × `height` area centred in `r` (column, row, width, height).
pub fn centered_rect(width: u16, height: u16, r: (u16, u16, u16, u16)) -> (c: (u16, u16, u16, u16))
    ensures
        c == centered_rect_spec(width, height, r),
        c.1 == centered_band(height, r).1,
        c.3 == centered_band(height, r).3,
{
    let top: u16 = if r.3 >= height { (r.3 - height) / 2 } else { 0 };
    let rows = split_lengths(true, r, top, height);
    let band = rows[1];
    let left: u16 = if r.2 >= width { (r.2 - width) / 2 } else { 0 };
    let cols = split_lengths(false, band, left, width);
    cols[1]
}

} // verus!
