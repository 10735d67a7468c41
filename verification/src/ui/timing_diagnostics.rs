//! Host-timing diagnostics panel helpers: deadline-budget track, verdict copy.

use vstd::prelude::*;

use crate::text::{
    dec, div_round_half_up, float_round, lemma_half_up_is_float_round, push_dec, push_str, round_half_up,
};
use crate::ui::micro_common::Severity;
use crate::ui::panel::Panel;

verus! {

/// Left column of the host-timing lab.
pub struct TimingDiagnosticsPanel;

impl Panel for TimingDiagnosticsPanel {
    fn name(&self) -> (r: &'static str)
        ensures
            r@ == "timing_diagnostics"@,
    {
        "timing_diagnostics"
    }

    fn min_size(&self) -> (r: (u16, u16))
        ensures
            r == (34u16, 18u16),
    {
        (34, 18)
    }

    fn focus_key(&self) -> (r: Option<char>)
        ensures
            r == Some('t'),
    {
        Some('t')
    }

    fn focus_bindings(&self) -> (r: &'static [(&'static str, &'static str)])
        ensures
            r@.len() == 2,
            r@[0].0@ == "R"@ && r@[0].1@ == "Reset jitter peak"@,
            r@[1].0@ == "C"@ && r@[1].1@ == "Clear history"@,
    {
        &[("R", "Reset jitter peak"), ("C", "Clear history")]
    }
}

/// `N µs`.
pub open spec fn fmt_us_spec(us: nat) -> Seq<char> {
    dec(us) + " µs"@
}

/// A microsecond count as `N µs`.
pub fn fmt_us(us: u64) -> (r: String)
    ensures
        r@ == fmt_us_spec(us as nat),
{
    let mut s = String::new();
    push_dec(&mut s, us);
    push_str(&mut s, " µs");
    s
}

/// Share of the budget the worst deviation used, in whole percent (0 without a budget).
pub open spec fn budget_pct(peak_us: nat, budget_us: nat) -> nat {
    if budget_us > 0 {
        peak_us * 100 / budget_us
    } else {
        0
    }
}

/// The two verdict lines for a severity (0 fine, 1–2 under pressure, else overrun).
pub open spec fn verdict_copy_spec(severity: u8, peak_us: nat, budget_us: nat) -> (Seq<char>, Seq<char>) {
    let pct = budget_pct(peak_us, budget_us);
    if severity == 0 {
        (
            "Every callback met its deadline."@,
            "Worst "@ + fmt_us_spec(peak_us) + " ("@ + dec(pct) + "% of budget)."@,
        )
    } else if severity == 1 || severity == 2 {
        (
            "Real-time deadlines under pressure."@,
            "Worst "@ + fmt_us_spec(peak_us) + " ("@ + dec(pct) + "%), no drops yet."@,
        )
    } else {
        ("Overrun — block dropped, resynced."@, "Ring buffer hit its ceiling."@)
    }
}

/// Two-line plain-language verdict, keyed off the severity, with the worst
/// deviation and its share of the budget folded in.
pub fn verdict_copy(severity: u8, peak_us: u64, budget_us: u64) -> (r: [String; 2])
    requires
        budget_us > 0 ==> peak_us * 100 <= u64::MAX,
    ensures
        r[0]@ == verdict_copy_spec(severity, peak_us as nat, budget_us as nat).0,
        r[1]@ == verdict_copy_spec(severity, peak_us as nat, budget_us as nat).1,
{
    let pct = if budget_us > 0 { peak_us * 100 / budget_us } else { 0 };
    if severity == 0 || severity == 1 || severity == 2 {
        let mut line = String::from_str("Worst ");
        push_dec(&mut line, peak_us);
        push_str(&mut line, " µs");
        push_str(&mut line, " (");
        push_dec(&mut line, pct);
        if severity == 0 {
            push_str(&mut line, "% of budget).");
        } else {
            push_str(&mut line, "%), no drops yet.");
        }
        proof {
            let d = dec(peak_us as nat);
            let p = dec(pct as nat);
            if severity == 0 {
                assert(line@ =~= "Worst "@ + fmt_us_spec(peak_us as nat) + " ("@ + p + "% of budget)."@);
            } else {
                assert(line@ =~= "Worst "@ + fmt_us_spec(peak_us as nat) + " ("@ + p + "%), no drops yet."@);
            }
        }
        let first = if severity == 0 {
            String::from_str("Every callback met its deadline.")
        } else {
            String::from_str("Real-time deadlines under pressure.")
        };
        [first, line]
    } else {
        [
            String::from_str("Overrun — block dropped, resynced."),
            String::from_str("Ring buffer hit its ceiling."),
        ]
    }
}

/// Columns between a section's left caption and its right caption on a row
/// `iw` wide (one leading space), at least one.
pub fn section_gap(iw: usize, left_len: usize, right_len: usize) -> (r: usize)
    requires
        left_len + right_len + 1 <= usize::MAX,
    ensures
        r == (if iw >= left_len + right_len + 2 { iw - (left_len + right_len + 1) } else { 1 }),
{
    let g = iw.saturating_sub(left_len + right_len + 1);
    if g < 1 {
        1
    } else {
        g
    }
}

/// One cell of a deadline-budget track.
#[derive(Clone, Copy, PartialEq, Eq, Debug, Structural)]
pub enum TrackCell {
    /// The budget marker `┊`, three quarters along the axis.
    Marker,
    /// Part of the bar that reaches the value, graded by overage.
    Filled(Severity),
    /// Unreached part of the ruler.
    Empty,
}

/// Whether `f` can be the cells of a track `w` wide reached by `value` when
/// the budget sits at three quarters of the axis: the share of full scale
/// (4/3 of the budget), capped at the whole track, is computed in `f64`
/// (five roundings, relative error below `2^-50`) and rounded, so `f` is the
/// nearest cell count, at most `w`, except within float error of a half
/// cell. Without a budget the full scale is 1.
pub open spec fn track_fill_ok(f: nat, value: nat, budget: nat, w: nat) -> bool {
    if budget == 0 {
        f == (if value == 0 { 0 } else { w })
    } else {
        exists|q: nat| #[trigger] float_round(q, 3 * value * w, 4 * budget, 50) && f == (if q < w { q } else { w })
    }
}

/// Where the budget marker sits on a track `w` cells wide.
pub open spec fn track_mark(w: nat) -> nat {
    round_half_up(3 * w, 4)
}

/// Grade of a value against its budget: within it, within twice it, beyond.
pub open spec fn overage_grade(value: nat, budget: nat) -> Severity {
    if value <= budget {
        Severity::Good
    } else if value <= 2 * budget {
        Severity::Warn
    } else {
        Severity::Crit
    }
}

/// The deadline-budget track for `value` against `budget`, `track_w` cells:
/// the marker cell, then reached cells in the overage grade, the rest empty.
pub fn budget_track_cells(value: u64, budget: u64, track_w: usize) -> (r: Vec<TrackCell>)
    requires
        track_w <= u32::MAX,
        value > budget ==> 2 * budget <= u64::MAX,
    ensures
        r@.len() == track_w,
        exists|f: nat|
            track_fill_ok(f, value as nat, budget as nat, track_w as nat) && forall|x: int|
                0 <= x < track_w ==> #[trigger] r@[x] == if x == track_mark(track_w as nat) {
                    TrackCell::Marker
                } else if x < f {
                    TrackCell::Filled(overage_grade(value as nat, budget as nat))
                } else {
                    TrackCell::Empty
                },
{
    let vfill: u128 = if budget == 0 {
        if value == 0 {
            0
        } else {
            track_w as u128
        }
    } else {
        proof {
            assert(3 * (value as nat) * (track_w as nat) <= 3 * (u64::MAX as nat) * (u32::MAX as nat))
                by (nonlinear_arith)
                requires value <= u64::MAX, track_w <= u32::MAX;
        }
        let q = div_round_half_up(3 * (value as u128) * (track_w as u128), 4 * (budget as u128));
        proof {
            lemma_half_up_is_float_round(3 * (value as nat) * (track_w as nat), 4 * (budget as nat), 50);
        }
        let f = if q < track_w as u128 { q } else { track_w as u128 };
        assert(float_round(q as nat, 3 * (value as nat) * (track_w as nat), 4 * (budget as nat), 50)
            && f == (if (q as nat) < track_w as nat { q as nat } else { track_w as nat }));
        f
    };
    assert(track_fill_ok(vfill as nat, value as nat, budget as nat, track_w as nat));
    let bmark = div_round_half_up(3 * (track_w as u128), 4);
    let grade = if value <= budget {
        Severity::Good
    } else if value <= budget * 2 {
        Severity::Warn
    } else {
        Severity::Crit
    };
    let mut cells: Vec<TrackCell> = Vec::new();
    let mut x: usize = 0;
    while x < track_w
        invariant
            x <= track_w,
            cells@.len() == x,
            track_fill_ok(vfill as nat, value as nat, budget as nat, track_w as nat),
            bmark == track_mark(track_w as nat),
            grade == overage_grade(value as nat, budget as nat),
            forall|k: int|
                0 <= k < x ==> #[trigger] cells@[k] == if k == track_mark(track_w as nat) {
                    TrackCell::Marker
                } else if k < vfill {
                    TrackCell::Filled(overage_grade(value as nat, budget as nat))
                } else {
                    TrackCell::Empty
                },
        decreases track_w - x,
    {
        let c = if x as u128 == bmark {
            TrackCell::Marker
        } else if (x as u128) < vfill {
            TrackCell::Filled(grade)
        } else {
            TrackCell::Empty
        };
        cells.push(c);
        x = x + 1;
    }
    assert(track_fill_ok(vfill as nat, value as nat, budget as nat, track_w as nat) && forall|k: int|
        0 <= k < track_w ==> #[trigger] cells@[k] == if k == track_mark(track_w as nat) {
            TrackCell::Marker
        } else if k < vfill as nat {
            TrackCell::Filled(overage_grade(value as nat, budget as nat))
        } else {
            TrackCell::Empty
        });
    cells
}


/// The `late` row: no late callbacks is good; otherwise the count out of the
/// window, critical when more than one in twenty was late.
pub open spec fn late_line_spec(late: nat, window: nat) -> (Seq<char>, Severity) {
    if late == 0 {
        ("✓ none over budget"@, Severity::Good)
    } else {
        (
            dec(late) + " / "@ + dec(window) + " over budget"@,
            if late * 20 > window {
                Severity::Crit
            } else {
                Severity::Warn
            },
        )
    }
}

/// Text and grade of the late-callback row.
pub fn late_line(late: u64, window: u64) -> (r: (String, Severity))
    requires
        late * 20 <= u64::MAX,
    ensures
        (r.0@, r.1) == late_line_spec(late as nat, window as nat),
{
    if late == 0 {
        return (String::from_str("✓ none over budget"), Severity::Good);
    }
    let mut s = String::new();
    push_dec(&mut s, late);
    push_str(&mut s, " / ");
    push_dec(&mut s, window);
    push_str(&mut s, " over budget");
    let sev = if late * 20 > window {
        Severity::Crit
    } else {
        Severity::Warn
    };
    (s, sev)
}

/// Cells for a budget track on a row `iw` wide whose value text takes
/// `value_len` columns: what is left after the label, at least six.
pub fn budget_track_width(iw: usize, value_len: usize) -> (r: usize)
    ensures
        r == (if iw >= 6 + value_len && iw - (6 + value_len) >= 6 {
            (iw - (6 + value_len)) as nat
        } else {
            6
        }),
{
    let g: u128 = if (iw as u128) >= 6 + value_len as u128 {
        iw as u128 - (6 + value_len as u128)
    } else {
        0
    };
    if g >= 6 {
        g as usize
    } else {
        6
    }
}

/// `p95 120  p99 180  peak 240 µs`.
pub fn deviation_summary(p95: u64, p99: u64, peak: u64) -> (r: String)
    ensures
        r@ == "p95 "@ + dec(p95 as nat) + "  p99 "@ + dec(p99 as nat) + "  peak "@ + dec(peak as nat)
            + " µs"@,
{
    let mut s = String::from_str("p95 ");
    push_dec(&mut s, p95);
    push_str(&mut s, "  p99 ");
    push_dec(&mut s, p99);
    push_str(&mut s, "  peak ");
    push_dec(&mut s, peak);
    push_str(&mut s, " µs");
    s
}

} // verus!
