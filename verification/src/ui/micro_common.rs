//! Shared formatters and status grading for the compact panels.

use vstd::prelude::*;

use crate::text::{
    dec, div_round_half_even, fixed, float_round, lemma_half_even_is_float_round, push_dec, push_fixed,
    push_str, round_half_even,
};

verus! {

/// A count of kHz written as MHz with three decimals, e.g. `433.920`.
pub open spec fn mhz3(units: nat) -> Seq<char> {
    fixed(units, 3)
}

/// `units` can be the kHz count that three decimals of `hz / 1e6`, computed
/// in `f64` (two roundings, relative error below `2^-51`), show: the nearest
/// kHz except within float error of a half kHz, where either neighbour may show.
pub open spec fn shown_khz(units: nat, hz: nat) -> bool {
    float_round(units, hz, 1000, 51)
}

/// The kHz count shown for `hz`: `hz / 1000` rounded half to even.
pub(crate) fn khz_units(hz: u64) -> (u: u64)
    ensures
        u == round_half_even(hz as nat, 1000),
        shown_khz(u as nat, hz as nat),
{
    let units = div_round_half_even(hz as u128, 1000);
    proof {
        assert(round_half_even(hz as nat, 1000) <= hz as nat / 1000 + 1);
        lemma_half_even_is_float_round(hz as nat, 1000, 51);
    }
    units as u64
}

/// Appends a kHz count as MHz with three decimals.
pub(crate) fn push_mhz3(s: &mut String, units: u64)
    ensures
        final(s)@ == old(s)@ + mhz3(units as nat),
{
    push_fixed(s, units, 3);
}

/// `433.920 MHz` style frequency.
pub fn fmt_freq_mhz(hz: u64) -> (r: String)
    ensures
        exists|u: nat| shown_khz(u, hz as nat) && r@ == mhz3(u) + " MHz"@,
{
    let mut s = String::new();
    let u = khz_units(hz);
    push_mhz3(&mut s, u);
    push_str(&mut s, " MHz");
    assert(shown_khz(u as nat, hz as nat) && s@ == mhz3(u as nat) + " MHz"@);
    s
}

/// `152 kHz` / `1.20 MHz` / `800 Hz` style bandwidth, with `units` the
/// hundredths of a MHz shown in the MHz form.
pub open spec fn fmt_bw_spec(hz: nat, units: nat) -> Seq<char> {
    if hz >= 1_000_000 {
        fixed(units, 2) + " MHz"@
    } else if hz >= 1_000 {
        dec(hz / 1000) + " kHz"@
    } else {
        dec(hz) + " Hz"@
    }
}

/// `152 kHz` / `1.20 MHz` style bandwidth. Two decimals of `hz / 1e6` in
/// `f64`: the nearest hundredth of a MHz except within float error of a tie.
pub fn fmt_bw(hz: u64) -> (r: String)
    ensures
        exists|u: nat| float_round(u, hz as nat, 10_000, 51) && r@ == fmt_bw_spec(hz as nat, u),
{
    let mut s = String::new();
    let units = div_round_half_even(hz as u128, 10_000);
    proof {
        assert(round_half_even(hz as nat, 10_000) <= hz as nat / 10_000 + 1);
        lemma_half_even_is_float_round(hz as nat, 10_000, 51);
    }
    if hz >= 1_000_000 {
        push_fixed(&mut s, units as u64, 2);
        push_str(&mut s, " MHz");
    } else if hz >= 1_000 {
        push_dec(&mut s, hz / 1000);
        push_str(&mut s, " kHz");
    } else {
        push_dec(&mut s, hz);
        push_str(&mut s, " Hz");
    }
    assert(float_round(units as nat, hz as nat, 10_000, 51) && s@ == fmt_bw_spec(hz as nat, units as nat));
    s
}

/// Three-step status grade used for colouring readouts.
#[derive(Clone, Copy, PartialEq, Eq, Debug, Structural)]
pub enum Severity {
    Good,
    Warn,
    Crit,
}

/// Grade of a drop count: none is OK, under ten a warning, more is critical.
pub fn drop_severity(drops: u64) -> (r: Severity)
    ensures
        drops == 0 ==> r == Severity::Good,
        0 < drops < 10 ==> r == Severity::Warn,
        drops >= 10 ==> r == Severity::Crit,
{
    if drops == 0 {
        Severity::Good
    } else if drops < 10 {
        Severity::Warn
    } else {
        Severity::Crit
    }
}


/// The compact RX badge: a filled dot and ` RX` in the good colour when
/// receiving is on, a hollow dot and ` IDLE` as a warning otherwise.
pub fn rx_badge(rx_enabled: bool) -> (r: (&'static str, &'static str, Severity))
    ensures
        rx_enabled ==> r.0@ == "●"@ && r.1@ == " RX"@ && r.2 == Severity::Good,
        !rx_enabled ==> r.0@ == "○"@ && r.1@ == " IDLE"@ && r.2 == Severity::Warn,
{
    if rx_enabled {
        ("●", " RX", Severity::Good)
    } else {
        ("○", " IDLE", Severity::Warn)
    }
}

/// Whether the FFT frame is stale: there is none yet (`None`), or the last
/// one is more than half a second old (`elapsed_ms` since it was produced).
pub fn fft_stale_at(elapsed_ms: Option<u128>) -> (r: bool)
    ensures
        r == (elapsed_ms is None || elapsed_ms.unwrap() > 500),
{
    match elapsed_ms {
        Some(ms) => ms > 500,
        None => true,
    }
}

} // verus!
