//! Command-rail helpers: gain totals, throughput text, bar widths.

use vstd::prelude::*;

use crate::ui::panel::Panel;

use crate::text::{
    div_round_half_even, fixed, float_round, lemma_half_even_is_float_round, push_fixed, push_str,
    round_half_even,
};

verus! {

/// The command rail: frequency hero, signal, gain, stream and log foot.
pub struct CommandRailPanel;

impl Panel for CommandRailPanel {
    fn name(&self) -> (r: &'static str)
        ensures
            r@ == "command_rail"@,
    {
        "command_rail"
    }

    fn min_size(&self) -> (r: (u16, u16))
        ensures
            r == (22u16, 12u16),
    {
        (22, 12)
    }
}

/// Combined front-end gain: both stages when the device has a second stage,
/// else only the first.
pub fn total_gain(lna: u32, vga: u32, has_second_stage: bool) -> (r: u32)
    requires
        has_second_stage ==> lna + vga <= u32::MAX,
    ensures
        r == if has_second_stage { lna + vga } else { lna as int },
{
    if has_second_stage {
        lna + vga
    } else {
        lna
    }
}

/// `5.2 MB/s` (decimal megabytes, `units` tenths shown), or `—` when nothing flows.
pub open spec fn fmt_mb_spec(bps: nat, units: nat) -> Seq<char> {
    if bps == 0 {
        "—"@
    } else {
        fixed(units, 1) + " MB/s"@
    }
}

/// Throughput as a compact `5.2 MB/s` string; `—` when not streaming. The
/// decimal is that of `bps / 1e6` in `f64`: the nearest tenth except within
/// float error of a tie.
pub fn fmt_mb(bps: u64) -> (r: String)
    ensures
        exists|u: nat| float_round(u, bps as nat, 100_000, 51) && r@ == fmt_mb_spec(bps as nat, u),
{
    let units = div_round_half_even(bps as u128, 100_000);
    proof {
        assert(round_half_even(bps as nat, 100_000) <= bps as nat / 100_000 + 1);
        lemma_half_even_is_float_round(bps as nat, 100_000, 51);
    }
    if bps == 0 {
        let s = String::from_str("—");
        assert(float_round(units as nat, bps as nat, 100_000, 51) && s@ == fmt_mb_spec(bps as nat, units as nat));
        return s;
    }
    let mut s = String::new();
    push_fixed(&mut s, units as u64, 1);
    push_str(&mut s, " MB/s");
    assert(float_round(units as nat, bps as nat, 100_000, 51) && s@ == fmt_mb_spec(bps as nat, units as nat));
    s
}

/// Gain-bar width for a rail `inner_w` columns wide: ten columns fewer,
/// kept between 4 and 12.
pub fn gain_bar_width(inner_w: usize) -> (r: usize)
    ensures
        4 <= r <= 12,
        r == if inner_w < 14 { 4 } else if inner_w > 22 { 12 } else { inner_w - 10 },
{
    let w = inner_w.saturating_sub(10);
    if w < 4 {
        4
    } else if w > 12 {
        12
    } else {
        w
    }
}


/// The rail's front-end boost value: a dash in observer mode, else on/off.
pub fn boost_value(observer_active: bool, amp_enabled: bool) -> (r: &'static str)
    ensures
        r@ == (if observer_active {
            "—"@
        } else if amp_enabled {
            "ON"@
        } else {
            "OFF"@
        }),
{
    if observer_active {
        "—"
    } else if amp_enabled {
        "ON"
    } else {
        "OFF"
    }
}

} // verus!
