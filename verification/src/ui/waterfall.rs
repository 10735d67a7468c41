//! Waterfall panel: colour depth and column-to-bin mapping.

use vstd::prelude::*;

use crate::palette::ColorDepth;
use crate::ui::panel::Panel;

verus! {

/// Scrolling spectrogram, drawn at the terminal's colour depth.
pub struct WaterfallPanel {
    pub color_depth: ColorDepth,
}

impl WaterfallPanel {
    /// A waterfall drawn at `color_depth` (see [`ColorDepth::from_env_values`]).
    pub fn new(color_depth: ColorDepth) -> (r: WaterfallPanel)
        ensures
            r.color_depth == color_depth,
    {
        WaterfallPanel { color_depth }
    }
}

impl Panel for WaterfallPanel {
    fn name(&self) -> (r: &'static str)
        ensures
            r@ == "waterfall"@,
    {
        "waterfall"
    }

    fn min_size(&self) -> (r: (u16, u16))
        ensures
            r == (40u16, 5u16),
    {
        (40, 5)
    }
}

/// First bin shown in column `col` of `cols` for a row of `n` bins.
pub open spec fn bin_start(col: nat, cols: nat, n: nat) -> nat {
    col * n / cols
}

/// One past the last bin of column `col`: the next column's start, but at
/// least one bin, and never past the row.
pub open spec fn bin_end(col: nat, cols: nat, n: nat) -> nat {
    let e = (col + 1) * n / cols;
    let e1 = if e > bin_start(col, cols, n) + 1 { e } else { bin_start(col, cols, n) + 1 };
    if e1 < n {
        e1
    } else {
        n
    }
}

/// The bin range `[start, end)` a waterfall column takes its maximum over.
pub fn column_bins(col: usize, cols: usize, n: usize) -> (r: (usize, usize))
    requires
        col < cols,
        (col + 1) * n <= usize::MAX,
    ensures
        r.0 == bin_start(col as nat, cols as nat, n as nat),
        r.1 == bin_end(col as nat, cols as nat, n as nat),
{
    proof {
        assert((col as int) * (n as int) <= (col as int + 1) * (n as int)) by (nonlinear_arith);
    }
    let start = col * n / cols;
    proof {
        assert(start <= n) by (nonlinear_arith)
            requires start == (col as int) * (n as int) / (cols as int), col < cols;
        assert(n > 0 ==> start < n) by (nonlinear_arith)
            requires start == (col as int) * (n as int) / (cols as int), col < cols;
    }
    let e = (col + 1) * n / cols;
    let e1 = if e > start + 1 { e } else { start + 1 };
    let end = if e1 < n { e1 } else { n };
    (start, end)
}

/// With at least as many bins as columns the columns tile the row: the
/// first starts at bin 0, each ends where the next starts, the last ends at
/// the row's end, and none is empty.
pub proof fn lemma_columns_tile(col: nat, cols: nat, n: nat)
    requires
        col < cols,
        cols <= n,
    ensures
        bin_start(0, cols, n) == 0,
        bin_end(col, cols, n) == bin_start(col + 1, cols, n) || col + 1 == cols,
        col + 1 == cols ==> bin_end(col, cols, n) == n,
        bin_start(col, cols, n) < bin_end(col, cols, n),
{
    let s = col * n / cols;
    let e = (col + 1) * n / cols;
    assert(0 * n / cols == 0) by (nonlinear_arith) requires cols > 0;
    assert(e >= s + 1) by (nonlinear_arith)
        requires s == col * n / cols, e == (col + 1) * n / cols, cols <= n, cols > 0;
    assert(e <= n) by (nonlinear_arith)
        requires e == (col + 1) * n / cols, col + 1 <= cols, cols > 0;
    if col + 1 == cols {
        assert(e == n) by (nonlinear_arith) requires e == (col + 1) * n / cols, col + 1 == cols, cols > 0;
    }
}

} // verus!
