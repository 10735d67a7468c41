//! Lab instrument chrome: the banner and marker bars around the lab presets.

use vstd::prelude::*;

use crate::text::{dec, fixed, push_dec, push_fixed, push_str, str_eq};
use crate::ui::micro_common::{khz_units, mhz3, push_mhz3, shown_khz};
use crate::ui::panel::Panel;

verus! {

/// Top instrument-state banner for the lab presets.
pub struct LabBannerPanel;

/// Bottom marker / delta readout bar for the lab presets.
pub struct LabMarkerPanel;

impl Panel for LabBannerPanel {
    fn name(&self) -> (r: &'static str)
        ensures
            r@ == "lab_banner"@,
    {
        "lab_banner"
    }

    fn min_size(&self) -> (r: (u16, u16))
        ensures
            r == (20u16, 1u16),
    {
        (20, 1)
    }
}

impl Panel for LabMarkerPanel {
    fn name(&self) -> (r: &'static str)
        ensures
            r@ == "lab_marker"@,
    {
        "lab_marker"
    }

    fn min_size(&self) -> (r: (u16, u16))
        ensures
            r == (20u16, 1u16),
    {
        (20, 1)
    }
}

/// Banner label and selecting key of each lab preset; none for other presets.
pub open spec fn lab_label_spec(preset: Seq<char>) -> Option<(Seq<char>, char)> {
    if preset == "lab_iq"@ {
        Some(("I/Q QUALITY"@, '5'))
    } else if preset == "lab_rf"@ {
        Some(("RF CHAIN"@, '6'))
    } else if preset == "lab_timing"@ {
        Some(("HOST TIMING"@, '7'))
    } else if preset == "lab_signal"@ {
        Some(("SIGNAL"@, '8'))
    } else if preset == "lab_sweep"@ {
        Some(("SWEEP"@, '9'))
    } else {
        None
    }
}

/// Map an active preset name to its lab banner label and number key.
pub fn lab_label(preset: &str) -> (r: Option<(&'static str, char)>)
    ensures
        match r {
            Some((label, key)) => lab_label_spec(preset@) == Some((label@, key)),
            None => lab_label_spec(preset@).is_none(),
        },
{
    if str_eq(preset, "lab_iq") {
        Some(("I/Q QUALITY", '5'))
    } else if str_eq(preset, "lab_rf") {
        Some(("RF CHAIN", '6'))
    } else if str_eq(preset, "lab_timing") {
        Some(("HOST TIMING", '7'))
    } else if str_eq(preset, "lab_signal") {
        Some(("SIGNAL", '8'))
    } else if str_eq(preset, "lab_sweep") {
        Some(("SWEEP", '9'))
    } else {
        None
    }
}

/// Marker-readout frequency with `units` the kHz count shown: GHz with six
/// decimals from 1 GHz up, else MHz with three.
pub open spec fn fmt_marker_freq_spec(hz: nat, units: nat) -> Seq<char> {
    if hz >= 1_000_000_000 {
        fixed(units, 6) + " GHz"@
    } else {
        mhz3(units) + " MHz"@
    }
}

/// Appends a marker-readout frequency showing `units` kHz.
fn push_marker_freq(s: &mut String, hz: u64, units: u64)
    ensures
        final(s)@ == old(s)@ + fmt_marker_freq_spec(hz as nat, units as nat),
{
    if hz >= 1_000_000_000 {
        push_fixed(s, units, 6);
        push_str(s, " GHz");
    } else {
        push_mhz3(s, units);
        push_str(s, " MHz");
    }
}

/// Precise marker-readout frequency: `92.800 MHz` / `1.234500 GHz`. The
/// decimals are those of an `f64` quotient (see [`shown_khz`]).
pub fn fmt_freq_mhz(hz: u64) -> (r: String)
    ensures
        exists|u: nat| shown_khz(u, hz as nat) && r@ == fmt_marker_freq_spec(hz as nat, u),
{
    let mut s = String::new();
    let u = khz_units(hz);
    push_marker_freq(&mut s, hz, u);
    assert(shown_khz(u as nat, hz as nat) && s@ == fmt_marker_freq_spec(hz as nat, u as nat));
    s
}

/// `Δ` readout: frequency span (showing `units` kHz), then the level
/// difference when known (`level_tenths_db`: its magnitude in tenths of a dB).
pub open spec fn fmt_delta_spec(df_hz: nat, units: nat, level_tenths_db: Option<nat>) -> Seq<char> {
    match level_tenths_db {
        Some(t) => fmt_marker_freq_spec(df_hz, units) + seq![' '] + fixed(t, 1) + " dB"@,
        None => fmt_marker_freq_spec(df_hz, units),
    }
}

/// `Δ` readout between two markers, e.g. `5.400 MHz 12.3 dB` or `5.400 MHz`.
pub fn fmt_delta(df_hz: u64, level_tenths_db: Option<u64>) -> (r: String)
    ensures
        exists|u: nat|
            shown_khz(u, df_hz as nat) && r@ == fmt_delta_spec(
                df_hz as nat,
                u,
                match level_tenths_db {
                    Some(t) => Some(t as nat),
                    None => None,
                },
            ),
{
    let mut s = String::new();
    let u = khz_units(df_hz);
    push_marker_freq(&mut s, df_hz, u);
    match level_tenths_db {
        Some(t) => {
            crate::text::push_char(&mut s, ' ');
            push_fixed(&mut s, t, 1);
            push_str(&mut s, " dB");
            proof {
                let f = fmt_marker_freq_spec(df_hz as nat, u as nat);
                assert(s@ =~= f + seq![' '] + fixed(t as nat, 1) + " dB"@);
            }
        },
        None => {},
    }
    assert(shown_khz(u as nat, df_hz as nat) && s@ == fmt_delta_spec(
        df_hz as nat,
        u as nat,
        match level_tenths_db {
            Some(t) => Some(t as nat),
            None => None,
        },
    ));
    s
}

/// Which optional banner fields fit, greedily in priority order, when the
/// fixed parts take `base` columns: a field is shown when it still fits
/// beside everything shown before it. Returns the choices and the columns
/// the shown fields take.
pub open spec fn fit_fields(iw: nat, base: nat, widths: Seq<usize>) -> (Seq<bool>, nat)
    decreases widths.len(),
{
    if widths.len() == 0 {
        (Seq::empty(), 0)
    } else {
        let (shown, used) = fit_fields(iw, base, widths.drop_last());
        let w = widths.last() as nat;
        if base + used + w <= iw {
            (shown.push(true), used + w)
        } else {
            (shown.push(false), used)
        }
    }
}

/// How the banner line is laid out.
pub struct BannerLayout {
    /// Whether the live/freeze zone on the right is shown.
    pub show_right: bool,
    /// For each middle field, whether it is shown.
    pub shown: Vec<bool>,
    /// Spaces between the last shown field and the right zone (at least one).
    pub filler: usize,
}

/// Banner layout for a line `iw` columns wide with a left zone `lw` wide, a
/// right zone `rw` wide and middle fields of the given widths in priority
/// order: the right zone is dropped when it would leave no column free, a
/// field is shown when it fits with one column to spare, and the filler
/// takes the remaining columns, at least one.
pub fn banner_layout(iw: usize, lw: usize, rw: usize, widths: &[usize]) -> (r: BannerLayout)
    requires
        lw + rw + 1 <= usize::MAX,
    ensures
        r.show_right == (iw > lw + rw + 1),
        ({
            let rw_eff = if iw > lw + rw + 1 { rw as nat } else { 0 };
            let (shown, used) = fit_fields(iw as nat, (lw + rw_eff + 1) as nat, widths@);
            &&& r.shown@ == shown
            &&& r.filler == (if iw >= lw + used + rw_eff + 1 { (iw - (lw + used + rw_eff)) as nat } else { 1 })
        }),
{
    let show_right = iw > lw + rw + 1;
    let rw_eff: usize = if show_right { rw } else { 0 };
    let base = lw + rw_eff + 1;
    let mut shown: Vec<bool> = Vec::new();
    let mut used: usize = 0;
    let mut i: usize = 0;
    while i < widths.len()
        invariant
            i <= widths@.len(),
            base == lw + rw_eff + 1,
            fit_fields(iw as nat, base as nat, widths@.take(i as int)) == (shown@, used as nat),
            used <= iw,
            used == 0 || base + used <= iw,
        decreases widths.len() - i,
    {
        let w = widths[i];
        assert(widths@.take(i + 1 as int).drop_last() == widths@.take(i as int));
        if (base as u128) + (used as u128) + (w as u128) <= iw as u128 {
            shown.push(true);
            used = used + w;
        } else {
            shown.push(false);
        }
        i = i + 1;
    }
    assert(widths@.take(widths@.len() as int) == widths@);
    let taken = lw + used + rw_eff;
    let filler = if iw > taken { iw - taken } else { 1 };
    BannerLayout { show_right, shown, filler }
}


/// A frequency reinterpreted as a signed 64-bit number (two's complement).
pub open spec fn as_signed(x: u64) -> int {
    if x <= i64::MAX {
        x as int
    } else {
        x - 0x1_0000_0000_0000_0000
    }
}

/// Frequency distance between two markers: the magnitude of their signed
/// 64-bit difference, which must not overflow.
pub fn marker_delta_hz(a_hz: u64, b_hz: u64) -> (r: u64)
    requires
        i64::MIN <= as_signed(b_hz) - as_signed(a_hz) <= i64::MAX,
    ensures
        r == (if as_signed(b_hz) >= as_signed(a_hz) {
            as_signed(b_hz) - as_signed(a_hz)
        } else {
            as_signed(a_hz) - as_signed(b_hz)
        }),
        a_hz <= i64::MAX && b_hz <= i64::MAX ==> r == (if b_hz >= a_hz { b_hz - a_hz } else { a_hz - b_hz }),
{
    let a: i128 = if a_hz <= 0x7fff_ffff_ffff_ffff { a_hz as i128 } else { a_hz as i128 - 0x1_0000_0000_0000_0000 };
    let b: i128 = if b_hz <= 0x7fff_ffff_ffff_ffff { b_hz as i128 } else { b_hz as i128 - 0x1_0000_0000_0000_0000 };
    let d: i128 = b - a;
    if d >= 0 {
        d as u64
    } else {
        (-d) as u64
    }
}

/// Columns used after offering a candidate of width `cw` when `used` are
/// taken: it is added when it fits with one column to spare.
pub open spec fn offer(iw: nat, used: nat, cw: Option<usize>) -> (bool, nat) {
    match cw {
        Some(w) => if used + w + 1 <= iw { (true, (used + w) as nat) } else { (false, used) },
        None => (false, used),
    }
}

/// How the marker bar is laid out.
pub struct MarkerLayout {
    /// Whether the second marker's readout is shown.
    pub show_second: bool,
    /// Whether the delta readout is shown.
    pub show_delta: bool,
    /// Spaces before the right-aligned key hints, when they are shown.
    pub hint_filler: Option<usize>,
}

/// The marker bar on a line `iw` columns wide whose first marker readout
/// takes `base_w` columns: the second marker and then the delta are added
/// when each fits with a column to spare, and the focus hints (`hints_w`
/// columns, none when 0) are right-aligned when two columns remain.
pub fn marker_layout(
    iw: usize,
    base_w: usize,
    second_w: Option<usize>,
    delta_w: Option<usize>,
    hints_w: usize,
) -> (r: MarkerLayout)
    ensures
        ({
            let (s2, u1) = offer(iw as nat, base_w as nat, second_w);
            let (sd, u2) = offer(iw as nat, u1, delta_w);
            &&& r.show_second == s2
            &&& r.show_delta == sd
            &&& r.hint_filler == (if hints_w > 0 && u2 + hints_w + 2 <= iw {
                Some((iw - (u2 + hints_w)) as usize)
            } else {
                None::<usize>
            })
        }),
{
    let mut used: u128 = base_w as u128;
    let mut show_second = false;
    if let Some(w) = second_w {
        if used + w as u128 + 1 <= iw as u128 {
            show_second = true;
            used = used + w as u128;
        }
    }
    let mut show_delta = false;
    if let Some(w) = delta_w {
        if used + w as u128 + 1 <= iw as u128 {
            show_delta = true;
            used = used + w as u128;
        }
    }
    let hint_filler = if hints_w > 0 && used + hints_w as u128 + 2 <= iw as u128 {
        Some((iw as u128 - (used + hints_w as u128)) as usize)
    } else {
        None
    };
    MarkerLayout { show_second, show_delta, hint_filler }
}

/// The fields `fit_fields` picks fit beside the fixed parts, and there is
/// one choice per field.
pub proof fn lemma_fit_fields_fit(iw: nat, base: nat, widths: Seq<usize>)
    ensures
        fit_fields(iw, base, widths).0.len() == widths.len(),
        fit_fields(iw, base, widths).1 == 0 || base + fit_fields(iw, base, widths).1 <= iw,
    decreases widths.len(),
{
    if widths.len() > 0 {
        lemma_fit_fields_fit(iw, base, widths.drop_last());
    }
}

/// The banner always spans the whole line once it is wider than its left
/// zone: left zone, shown fields, filler and right zone add up to `iw`.
pub proof fn lemma_banner_spans_width(iw: nat, lw: nat, rw: nat, widths: Seq<usize>)
    requires
        iw > lw,
    ensures
        ({
            let rw_eff: nat = if iw > lw + rw + 1 { rw } else { 0 };
            let used = fit_fields(iw, lw + rw_eff + 1, widths).1;
            let filler: nat = if iw >= lw + used + rw_eff + 1 { (iw - (lw + used + rw_eff)) as nat } else { 1 };
            lw + used + filler + rw_eff == iw
        }),
{
    let rw_eff: nat = if iw > lw + rw + 1 { rw } else { 0 };
    lemma_fit_fields_fit(iw, lw + rw_eff + 1, widths);
}

} // verus!
