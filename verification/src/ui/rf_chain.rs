//! RF-chain panel helpers: filter bandwidth and wavelength text.

use vstd::prelude::*;

use crate::ui::panel::Panel;

use crate::hardware::device::{hex_fixed, push_hex_fixed};
use crate::text::{
    dec, div_round_half_even, fixed, float_round, lemma_half_even_is_float_round, push_dec, push_fixed,
    push_str, round_half_even,
};
use crate::ui::micro_common::{khz_units, shown_khz};

verus! {

/// Gain chain, filter, noise figure and ADC utilisation.
pub struct RfChainPanel;

impl Panel for RfChainPanel {
    fn name(&self) -> (r: &'static str)
        ensures
            r@ == "rf_chain"@,
    {
        "rf_chain"
    }

    fn min_size(&self) -> (r: (u16, u16))
        ensures
            r == (32u16, 16u16),
    {
        (32, 16)
    }
}

/// `---` for 0, `x.xxx MHz` from 1 MHz up (`units` kHz shown), else whole
/// kHz (truncated).
pub open spec fn fmt_hz_spec(hz: nat, units: nat) -> Seq<char> {
    if hz == 0 {
        "---"@
    } else if hz >= 1_000_000 {
        fixed(units, 3) + " MHz"@
    } else {
        dec(hz / 1000) + " kHz"@
    }
}

/// Baseband filter bandwidth text; the MHz decimals are those of an `f64`
/// quotient (see [`shown_khz`]).
pub fn fmt_hz(hz: u32) -> (r: String)
    ensures
        exists|u: nat| shown_khz(u, hz as nat) && r@ == fmt_hz_spec(hz as nat, u),
{
    let u = khz_units(hz as u64);
    if hz == 0 {
        let s = String::from_str("---");
        assert(shown_khz(u as nat, hz as nat) && s@ == fmt_hz_spec(hz as nat, u as nat));
        return s;
    }
    let mut s = String::new();
    if hz >= 1_000_000 {
        push_fixed(&mut s, u, 3);
        push_str(&mut s, " MHz");
    } else {
        push_dec(&mut s, (hz / 1000) as u64);
        push_str(&mut s, " kHz");
    }
    assert(shown_khz(u as nat, hz as nat) && s@ == fmt_hz_spec(hz as nat, u as nat));
    s
}

/// A length of `num / den` centimetres in the most readable unit, showing
/// `units`: hundredths of a metre from 100 cm, tenths of a centimetre from
/// 1 cm, else tenths of a millimetre.
pub open spec fn fmt_cm_ratio(num: nat, den: nat, units: nat) -> Seq<char> {
    if num >= 100 * den {
        fixed(units, 2) + " m"@
    } else if num >= den {
        fixed(units, 1) + " cm"@
    } else {
        fixed(units, 1) + " mm"@
    }
}

/// `units` can be what the chosen unit shows for `num / den` centimetres
/// computed in `f64` (at most three roundings, relative error below
/// `2^-51`): the nearest step except within float error of a tie. The unit
/// itself is picked exactly: `3e10 / f` never lies within float error of 1
/// or 100 without equalling it.
pub open spec fn cm_units_ok(units: nat, num: nat, den: nat) -> bool {
    if num >= 100 * den {
        float_round(units, num, den, 51)
    } else if num >= den {
        float_round(units, 10 * num, den, 51)
    } else {
        float_round(units, 100 * num, den, 51)
    }
}

/// Speed of light in centimetres per second.
pub open spec fn light_cm_per_s() -> nat {
    30_000_000_000
}

/// `λ / λ/4` for a frequency in Hz showing `u1` and `u2` of their units, or
/// `--- / ---` for 0.
pub open spec fn fmt_wavelength_spec(freq_hz: nat, u1: nat, u2: nat) -> Seq<char> {
    if freq_hz == 0 {
        "--- / ---"@
    } else {
        fmt_cm_ratio(light_cm_per_s(), freq_hz, u1) + " / "@ + fmt_cm_ratio(light_cm_per_s(), 4 * freq_hz, u2)
    }
}

/// What the chosen unit shows for `num / den` centimetres (nearest, ties to even).
fn cm_units(num: u128, den: u128) -> (u: u64)
    requires
        den > 0,
        den <= 4 * (u64::MAX as u128),
        num <= 30_000_000_000,
    ensures
        cm_units_ok(u as nat, num as nat, den as nat),
{
    if num >= 100 * den {
        let u = div_round_half_even(num, den);
        proof {
            assert(round_half_even(num as nat, den as nat) <= num as nat / den as nat + 1);
            lemma_half_even_is_float_round(num as nat, den as nat, 51);
        }
        u as u64
    } else if num >= den {
        let u = div_round_half_even(10 * num, den);
        proof {
            assert(round_half_even(10 * num as nat, den as nat) <= (10 * num) as nat / den as nat + 1);
            lemma_half_even_is_float_round(10 * num as nat, den as nat, 51);
        }
        u as u64
    } else {
        let u = div_round_half_even(100 * num, den);
        proof {
            assert(round_half_even(100 * num as nat, den as nat) <= (100 * num) as nat / den as nat + 1);
            lemma_half_even_is_float_round(100 * num as nat, den as nat, 51);
        }
        u as u64
    }
}

/// Appends a length of `num / den` centimetres showing `units`.
fn push_cm_ratio(s: &mut String, num: u128, den: u128, units: u64)
    requires
        den <= 4 * (u64::MAX as u128),
        num <= 30_000_000_000,
    ensures
        final(s)@ == old(s)@ + fmt_cm_ratio(num as nat, den as nat, units as nat),
{
    if num >= 100 * den {
        push_fixed(s, units, 2);
        push_str(s, " m");
    } else if num >= den {
        push_fixed(s, units, 1);
        push_str(s, " cm");
    } else {
        push_fixed(s, units, 1);
        push_str(s, " mm");
    }
}

/// λ and λ/4 from frequency in Hz.
pub fn fmt_wavelength(freq_hz: u64) -> (r: String)
    ensures
        exists|u1: nat, u2: nat|
            (freq_hz > 0 ==> cm_units_ok(u1, light_cm_per_s(), freq_hz as nat) && cm_units_ok(
                u2,
                light_cm_per_s(),
                4 * freq_hz as nat,
            )) && r@ == fmt_wavelength_spec(freq_hz as nat, u1, u2),
{
    let u1 = cm_units(30_000_000_000, if freq_hz == 0 { 1 } else { freq_hz as u128 });
    let u2 = cm_units(30_000_000_000, if freq_hz == 0 { 4 } else { 4 * (freq_hz as u128) });
    if freq_hz == 0 {
        let s = String::from_str("--- / ---");
        assert(s@ == fmt_wavelength_spec(freq_hz as nat, 0, 0));
        return s;
    }
    let mut s = String::new();
    push_cm_ratio(&mut s, 30_000_000_000, freq_hz as u128, u1);
    push_str(&mut s, " / ");
    push_cm_ratio(&mut s, 30_000_000_000, 4 * (freq_hz as u128), u2);
    assert(cm_units_ok(u1 as nat, light_cm_per_s(), freq_hz as nat) && cm_units_ok(
        u2 as nat,
        light_cm_per_s(),
        4 * freq_hz as nat,
    ) && s@ == fmt_wavelength_spec(freq_hz as nat, u1 as nat, u2 as nat));
    s
}


/// The gain chain line: `AMP[14] → LNA[16] → VGA[20] = 50 dB`, the amplifier
/// stage only when it is on.
pub open spec fn gain_chain_spec(amp_enabled: bool, lna: nat, vga: nat) -> Seq<char> {
    let total = lna + vga + if amp_enabled { 14nat } else { 0nat };
    (if amp_enabled { "AMP[14] → "@ } else { ""@ }) + "LNA["@ + dec(lna) + "] → VGA["@ + dec(vga) + "] = "@
        + dec(total) + " dB"@
}

/// The gain chain with its total.
pub fn gain_chain_text(amp_enabled: bool, lna: u32, vga: u32) -> (r: String)
    requires
        lna + vga + 14 <= i32::MAX,
    ensures
        r@ == gain_chain_spec(amp_enabled, lna as nat, vga as nat),
{
    let total: u64 = lna as u64 + vga as u64 + if amp_enabled { 14 } else { 0 };
    let mut s = String::new();
    if amp_enabled {
        push_str(&mut s, "AMP[14] → ");
    }
    let ghost pre = s@;
    proof {
        reveal_strlit("");
    }
    assert(pre =~= (if amp_enabled { "AMP[14] → "@ } else { ""@ }));
    push_str(&mut s, "LNA[");
    push_dec(&mut s, lna as u64);
    push_str(&mut s, "] → VGA[");
    push_dec(&mut s, vga as u64);
    push_str(&mut s, "] = ");
    push_dec(&mut s, total);
    push_str(&mut s, " dB");
    assert(s@ =~= pre + "LNA["@ + dec(lna as nat) + "] → VGA["@ + dec(vga as nat) + "] = "@ + dec(
        total as nat,
    ) + " dB"@);
    s
}

/// The USB API version as `0x` and four lower-case hex digits (`{:#06x}`).
pub fn fmt_usb_api(v: u16) -> (r: String)
    ensures
        r@ == "0x"@ + hex_fixed(v as nat, 4),
{
    let mut s = String::from_str("0x");
    push_hex_fixed(&mut s, v as u32, 4);
    s
}

} // verus!
