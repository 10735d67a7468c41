//! Radio header: gain bars, tuning-step digit, VFO readout, band layout.

use vstd::prelude::*;

use crate::text::{
    chars_of, dec, digit_char, digits_fixed, div_round_half_up, fixed, float_round,
    lemma_half_up_is_float_round, lemma_pow10_pos, pow10, push_repeat, repeat, repeat_string,
};
use crate::clock::unix_now_millis;
use crate::ui::micro_common::{khz_units, mhz3, push_mhz3, shown_khz};
use crate::ui::panel::Panel;

verus! {

/// The radio header panel.
pub struct HeaderPanel;

impl Panel for HeaderPanel {
    fn name(&self) -> (r: &'static str)
        ensures
            r@ == "header"@,
    {
        "header"
    }

    fn min_size(&self) -> (r: (u16, u16))
        ensures
            r == (60u16, 5u16),
    {
        (60, 5)
    }
}

/// Whether `f` can be the filled count of a gain bar of `n` cells for `gain`
/// out of `max_gain`, the share `gain / max_gain * n` being computed in `f32`
/// (five roundings, relative error below `2^-21`) and rounded, at most `n`:
/// the nearest count except within float error of a half cell. A zero maximum
/// fills everything for a positive gain and nothing for zero.
pub open spec fn gain_bar_fill(f: nat, gain: nat, max_gain: nat, n: nat) -> bool {
    if max_gain == 0 {
        f == (if gain > 0 { n } else { 0 })
    } else {
        exists|q: nat| #[trigger] float_round(q, gain * n, max_gain, 21) && f == (if q < n { q } else { n })
    }
}

/// A gain bar `n` cells wide: `▮` for the filled share, `▯` for the rest.
pub fn gain_bar(gain: u32, max_gain: u32, n: usize) -> (r: (String, String))
    requires
        n <= u32::MAX,
    ensures
        gain_bar_fill(r.0@.len(), gain as nat, max_gain as nat, n as nat),
        r.0@.len() <= n,
        r.0@ == repeat('▮', r.0@.len()),
        r.1@ == repeat('▯', (n - r.0@.len()) as nat),
{
    let filled: usize = if max_gain == 0 {
        if gain > 0 {
            n
        } else {
            0
        }
    } else {
        proof {
            assert((gain as nat) * (n as nat) <= (u32::MAX as nat) * (u32::MAX as nat)) by (nonlinear_arith)
                requires gain <= u32::MAX, n <= u32::MAX;
        }
        let f = div_round_half_up((gain as u128) * (n as u128), max_gain as u128);
        proof {
            lemma_half_up_is_float_round((gain as nat) * (n as nat), max_gain as nat, 21);
        }
        let filled = if f < n as u128 {
            f as usize
        } else {
            n
        };
        assert(float_round(f as nat, gain as nat * n as nat, max_gain as nat, 21)
            && filled == (if (f as nat) < n as nat { f as nat } else { n as nat }));
        filled
    };
    let full = repeat_string('▮', filled);
    let empty = repeat_string('▯', n - filled);
    assert(full@.len() == filled);
    (full, empty)
}

/// Both parts of a gain bar together are always exactly `n` cells.
pub proof fn lemma_gain_bar_width(f: nat, n: nat)
    requires
        f <= n,
    ensures
        repeat('▮', f).len() + repeat('▯', (n - f) as nat).len() == n,
{
}

/// Power-of-ten place of the digit a tuning step moves: the number of
/// decimal digits of `max(step, 1)` minus one.
pub open spec fn step_place_exp_spec(step_hz: nat, e: nat) -> bool {
    pow10(e) <= (if step_hz == 0 { 1 } else { step_hz }) < pow10(e + 1)
}

/// Power-of-ten exponent (in Hz) of the digit the current tuning step acts on:
/// 1 kHz→3, 10 kHz→4, …; non-decade steps collapse onto their leading digit.
pub fn step_place_exp(step_hz: u64) -> (e: u32)
    ensures
        step_place_exp_spec(step_hz as nat, e as nat),
        e <= 19,
{
    let mut e: u32 = 0;
    let mut s: u64 = if step_hz == 0 { 1 } else { step_hz };
    let ghost v: nat = s as nat;
    assert(pow10(0) == 1);
    while s >= 10
        invariant
            s >= 1,
            e <= 19,
            pow10(e as nat) * (s as nat) <= v < pow10(e as nat) * (s as nat + 1),
            v == (if step_hz == 0 { 1 } else { step_hz as nat }),
            v <= u64::MAX,
        decreases s,
    {
        proof {
            let p = pow10(e as nat);
            lemma_pow10_pos(e as nat);
            let q = (s / 10) as nat;
            let r = (s % 10) as nat;
            assert(s as nat == 10 * q + r);
            assert(p * (s as nat) == 10 * p * q + p * r) by (nonlinear_arith)
                requires s as nat == 10 * q + r;
            assert(p * r <= p * 9) by (nonlinear_arith) requires r <= 9, p > 0;
            assert(p * (s as nat + 1) == 10 * p * q + p * r + p) by (nonlinear_arith)
                requires s as nat == 10 * q + r;
            assert(10 * p * q <= v < 10 * p * (q + 1)) by (nonlinear_arith)
                requires p * (s as nat) == 10 * p * q + p * r, p * (s as nat + 1) == 10 * p * q + p * r + p,
                    p * r <= p * 9, p * (s as nat) <= v, v < p * (s as nat + 1), p > 0;
            assert(pow10(e as nat + 1) == 10 * p);
            if e >= 19 {
                crate::text::lemma_pow10_mono(19, e as nat);
                assert(pow10(19) == 10_000_000_000_000_000_000) by {
                    reveal_with_fuel(pow10, 20);
                }
                assert(p * (s as nat) >= p * 10) by (nonlinear_arith) requires s >= 10, p > 0;
                assert(false);
            }
        }
        s = s / 10;
        e = e + 1;
    }
    proof {
        lemma_pow10_pos(e as nat);
        assert(pow10(e as nat) * (s as nat) >= pow10(e as nat)) by (nonlinear_arith)
            requires s >= 1, pow10(e as nat) > 0;
        assert(pow10(e as nat) * (s as nat + 1) <= pow10(e as nat) * 10) by (nonlinear_arith)
            requires s <= 9, pow10(e as nat) > 0;
    }
    e
}

/// The VFO readout text: the frequency in MHz with three decimals, those
/// of an `f64` quotient (see [`shown_khz`]).
pub fn vfo_string(freq_hz: u64) -> (r: String)
    ensures
        exists|u: nat| shown_khz(u, freq_hz as nat) && r@ == mhz3(u),
{
    let mut s = String::new();
    let u = khz_units(freq_hz);
    push_mhz3(&mut s, u);
    assert(shown_khz(u as nat, freq_hz as nat) && s@ == mhz3(u as nat));
    s
}

/// Number of characters of the decimal rendering of `n`.
pub fn dec_len(n: u64) -> (r: usize)
    ensures
        r == dec(n as nat).len(),
        1 <= r <= 20,
    decreases n,
{
    if n < 10 {
        1
    } else {
        let k = dec_len(n / 10);
        proof {
            assert(dec(n as nat) == dec((n / 10) as nat).push(crate::text::digit_char((n % 10) as nat)));
            assert(pow10(19) == 10_000_000_000_000_000_000) by {
                reveal_with_fuel(pow10, 20);
            }
            lemma_dec_len_le((n / 10) as nat, 19);
        }
        k + 1
    }
}

/// `dec(n)` has at most `k` digits when `n < 10^k` (`k >= 1`).
pub proof fn lemma_dec_len_le(n: nat, k: nat)
    requires
        k >= 1,
        n < pow10(k),
    ensures
        dec(n).len() <= k,
    decreases n,
{
    if n >= 10 {
        assert(n / 10 < pow10((k - 1) as nat));
        if k == 1 {
            assert(pow10(1) == 10);
        } else {
            lemma_dec_len_le(n / 10, (k - 1) as nat);
        }
    }
}

/// Index (in the VFO text) of the digit a tuning step moves, or none when
/// that digit is not shown: places from 1 MHz up count left from the decimal
/// point, 100/10/1 kHz are the three decimals, finer steps have no digit.
pub open spec fn active_digit_spec(dot_pos: nat, exp: nat) -> Option<nat> {
    if exp >= 6 {
        if exp - 6 < dot_pos {
            Some((dot_pos - 1 - (exp - 6)) as nat)
        } else {
            None
        }
    } else if 3 <= exp <= 5 {
        Some((dot_pos + 1 + (5 - exp)) as nat)
    } else {
        None
    }
}

/// Position of the decimal point in the VFO text showing `units` kHz.
pub open spec fn vfo_dot_pos(units: nat) -> nat {
    dec(units / 1000).len()
}

/// Index of the VFO character the tuning step moves, when the readout shows
/// `units` kHz.
fn active_digit_of(units: u64, step_hz: u64) -> (r: Option<usize>)
    ensures
        forall|e: nat|
            step_place_exp_spec(step_hz as nat, e) ==> r == match active_digit_spec(
                vfo_dot_pos(units as nat),
                e,
            ) {
                Some(i) => Some(i as usize),
                None => None::<usize>,
            },
{
    let dot_pos = dec_len(units / 1000);
    let exp = step_place_exp(step_hz);
    proof {
        assert forall|e: nat| step_place_exp_spec(step_hz as nat, e) implies e == exp as nat by {
            lemma_exp_unique(step_hz as nat, e, exp as nat);
        }
    }
    if exp >= 6 {
        let from_right = (exp - 6) as usize;
        if from_right < dot_pos {
            Some(dot_pos - 1 - from_right)
        } else {
            None
        }
    } else if 3 <= exp && exp <= 5 {
        Some(dot_pos + 1 + (5 - exp) as usize)
    } else {
        None
    }
}

/// Index of the VFO character the tuning step moves, if on screen.
pub fn active_digit_idx(freq_hz: u64, step_hz: u64) -> (r: Option<usize>)
    ensures
        exists|u: nat|
            shown_khz(u, freq_hz as nat) && forall|e: nat|
                step_place_exp_spec(step_hz as nat, e) ==> r == match active_digit_spec(
                    vfo_dot_pos(u),
                    e,
                ) {
                    Some(i) => Some(i as usize),
                    None => None::<usize>,
                },
{
    let u = khz_units(freq_hz);
    let r = active_digit_of(u, step_hz);
    assert(shown_khz(u as nat, freq_hz as nat) && forall|e: nat|
        step_place_exp_spec(step_hz as nat, e) ==> r == match active_digit_spec(
            vfo_dot_pos(u as nat),
            e,
        ) {
            Some(i) => Some(i as usize),
            None => None::<usize>,
        });
    r
}

/// The decimal place of a positive number is unique.
pub proof fn lemma_exp_unique(v: nat, e1: nat, e2: nat)
    requires
        step_place_exp_spec(v, e1),
        step_place_exp_spec(v, e2),
    ensures
        e1 == e2,
{
    if e1 < e2 {
        crate::text::lemma_pow10_mono(e1 + 1, e2);
    } else if e2 < e1 {
        crate::text::lemma_pow10_mono(e2 + 1, e1);
    }
}

/// Columns between the firmware field and the right-aligned AMP/USB fields.
pub open spec fn top_band_gap_spec(
    board_name_len: nat,
    badge_len: nat,
    fw_value_len: nat,
    amp_val_len: nat,
    usb_val_len: nat,
    inner_width: nat,
) -> nat {
    let left = 1 + (2 + board_name_len) + 2 + badge_len + 2 + 10 + fw_value_len;
    let right = 4 + amp_val_len + 5 + 4 + usb_val_len + 2;
    if inner_width >= left + right {
        (inner_width - (left + right)) as nat
    } else {
        0
    }
}

/// Number of spaces between the firmware field and the right-aligned
/// `AMP … USB …` section of the top band (all lengths in columns).
pub fn top_band_gap(
    board_name_len: usize,
    badge_len: usize,
    fw_value_len: usize,
    amp_val_len: usize,
    usb_val_len: usize,
    inner_width: u16,
) -> (r: usize)
    requires
        board_name_len + badge_len + fw_value_len + amp_val_len + usb_val_len + 32 <= usize::MAX,
    ensures
        r == top_band_gap_spec(
            board_name_len as nat,
            badge_len as nat,
            fw_value_len as nat,
            amp_val_len as nat,
            usb_val_len as nat,
            inner_width as nat,
        ),
{
    let left = 1 + (2 + board_name_len) + 2 + badge_len + 2 + 10 + fw_value_len;
    let right = 4 + amp_val_len + 5 + 4 + usb_val_len + 2;
    (inner_width as usize).saturating_sub(left + right)
}

/// Dot-leader text filling `gap` columns: ` ···· ` from four columns up,
/// plain spaces below.
pub open spec fn leader_spec(gap: nat) -> Seq<char> {
    if gap >= 4 {
        seq![' '] + repeat('·', (gap - 2) as nat) + seq![' ']
    } else {
        repeat(' ', gap)
    }
}

/// The dot-leader text that connects a left field to a right one.
pub fn leader_text(gap: usize) -> (r: String)
    ensures
        r@ == leader_spec(gap as nat),
        r@.len() == gap,
{
    if gap >= 4 {
        let mut s = String::new();
        crate::text::push_char(&mut s, ' ');
        push_repeat(&mut s, '·', gap - 2);
        crate::text::push_char(&mut s, ' ');
        assert(s@ =~= seq![' '] + repeat('·', (gap - 2) as nat) + seq![' ']);
        s
    } else {
        repeat_string(' ', gap)
    }
}

/// The breathing RX dot frame shown `ms` milliseconds after the epoch:
/// four frames of 220 ms each, `∙ • ● •`.
pub open spec fn pulse_glyph_spec(ms: nat) -> Seq<char> {
    let k = (ms / 220) % 4;
    if k == 0 {
        "\u{2219}"@
    } else if k == 1 {
        "\u{2022}"@
    } else if k == 2 {
        "\u{25CF}"@
    } else {
        "\u{2022}"@
    }
}

/// The RX dot frame for a clock reading in milliseconds.
pub fn pulse_glyph(ms: u128) -> (r: &'static str)
    ensures
        r@ == pulse_glyph_spec(ms as nat),
{
    let k = (ms / 220) % 4;
    if k == 0 {
        "\u{2219}"
    } else if k == 1 {
        "\u{2022}"
    } else if k == 2 {
        "\u{25CF}"
    } else {
        "\u{2022}"
    }
}

/// The breathing RX dot for the current time: one of the four frames.
pub fn rx_pulse_glyph() -> (r: &'static str)
    ensures
        exists|ms: nat| r@ == pulse_glyph_spec(ms),
{
    let ms = unix_now_millis();
    pulse_glyph(ms)
}

/// Rule widths left and right of the ` FREQUENCY ` label on a separator
/// `outer_width` columns wide (two columns go to the end caps).
pub fn separator_fills(outer_width: u16) -> (r: (usize, usize))
    ensures
        r.0 + r.1 == (if outer_width >= 13 { outer_width - 13 } else { 0 }),
        r.0 == (if outer_width >= 13 { outer_width - 13 } else { 0 }) / 2,
{
    let fill = (outer_width as usize).saturating_sub(2 + 11);
    let left = fill / 2;
    (left, fill - left)
}

/// How one character of the VFO readout is drawn.
#[derive(Clone, Copy, Debug, PartialEq, Eq, Structural)]
pub enum DigitRole {
    /// The digit the tuning step moves: brightened and underlined.
    Active,
    /// The decimal point: dimmed.
    Dot,
    /// Any other digit.
    Digit,
}

/// Role of character `c` at index `i` when `active` is the tuned digit's index.
pub open spec fn digit_role(c: char, i: nat, active: Option<nat>) -> DigitRole {
    if active == Some(i) {
        DigitRole::Active
    } else if c == '.' {
        DigitRole::Dot
    } else {
        DigitRole::Digit
    }
}

/// No character of a decimal rendering is a decimal point.
proof fn lemma_dec_no_dot(n: nat)
    ensures
        forall|i: int| 0 <= i < dec(n).len() ==> #[trigger] dec(n)[i] != '.',
    decreases n,
{
    if n >= 10 {
        lemma_dec_no_dot(n / 10);
        assert(dec(n) == dec(n / 10).push(digit_char(n % 10)));
    }
}

/// No character of a zero-padded digit string is a decimal point.
proof fn lemma_digits_fixed_no_dot(n: nat, k: nat)
    ensures
        digits_fixed(n, k).len() == k,
        forall|i: int| 0 <= i < k ==> #[trigger] digits_fixed(n, k)[i] != '.',
    decreases k,
{
    if k > 0 {
        lemma_digits_fixed_no_dot(n / 10, (k - 1) as nat);
    }
}

/// The VFO text is the whole MHz, a point, and three decimals: the point
/// sits at `vfo_dot_pos` and nowhere else.
pub proof fn lemma_vfo_layout(units: nat)
    ensures
        mhz3(units).len() == vfo_dot_pos(units) + 4,
        mhz3(units)[vfo_dot_pos(units) as int] == '.',
        forall|i: int|
            0 <= i < mhz3(units).len() && i != vfo_dot_pos(units) ==> #[trigger] mhz3(units)[i] != '.',
{
    assert(pow10(3) == 1000) by {
        reveal_with_fuel(pow10, 4);
    }
    let w = dec(units / 1000);
    let f = digits_fixed(units % 1000, 3);
    lemma_dec_no_dot(units / 1000);
    lemma_digits_fixed_no_dot(units % 1000, 3);
    assert(mhz3(units) == w.push('.') + f);
    assert forall|i: int| 0 <= i < mhz3(units).len() && i != vfo_dot_pos(units) implies #[trigger] mhz3(
        units,
    )[i] != '.' by {
        if i < w.len() {
            assert(mhz3(units)[i] == w[i]);
        } else {
            assert(mhz3(units)[i] == f[i - w.len() - 1]);
        }
    }
}

/// The tuned digit, when shown, is a digit of the VFO text and never its point.
pub proof fn lemma_active_digit_on_screen(units: nat, e: nat)
    ensures
        active_digit_spec(vfo_dot_pos(units), e) matches Some(i) ==> i < mhz3(units).len()
            && mhz3(units)[i as int] != '.',
{
    lemma_vfo_layout(units);
}

/// Whether `r` gives the drawing role of every character of the VFO readout
/// showing `units` kHz at tuning step `step_hz`: the one digit the step moves
/// (if shown) is active, the point is dim, the rest are plain digits.
pub open spec fn vfo_roles_spec(r: Seq<DigitRole>, units: nat, step_hz: nat) -> bool {
    &&& r.len() == mhz3(units).len()
    &&& forall|e: nat, i: int|
        #![trigger step_place_exp_spec(step_hz, e), r[i]]
        step_place_exp_spec(step_hz, e) && 0 <= i < r.len() ==> r[i] == digit_role(
            mhz3(units)[i],
            i as nat,
            active_digit_spec(vfo_dot_pos(units), e),
        )
}

/// The drawing role of every character of the VFO readout for `freq_hz` at
/// tuning step `step_hz` (see [`vfo_roles_spec`]).
pub fn vfo_roles(freq_hz: u64, step_hz: u64) -> (r: Vec<DigitRole>)
    ensures
        exists|u: nat| shown_khz(u, freq_hz as nat) && vfo_roles_spec(r@, u, step_hz as nat),
{
    let units = khz_units(freq_hz);
    let mut text = String::new();
    push_mhz3(&mut text, units);
    let chars = chars_of(text.as_str());
    let active = active_digit_of(units, step_hz);
    let mut roles: Vec<DigitRole> = Vec::new();
    let mut i: usize = 0;
    while i < chars.len()
        invariant
            i <= chars@.len(),
            chars@ == mhz3(units as nat),
            roles@.len() == i,
            forall|e: nat|
                step_place_exp_spec(step_hz as nat, e) ==> active == match active_digit_spec(
                    vfo_dot_pos(units as nat),
                    e,
                ) {
                    Some(k) => Some(k as usize),
                    None => None::<usize>,
                },
            forall|e: nat, k: int|
                #![trigger step_place_exp_spec(step_hz as nat, e), roles@[k]]
                step_place_exp_spec(step_hz as nat, e) && 0 <= k < i ==> roles@[k] == digit_role(
                    mhz3(units as nat)[k],
                    k as nat,
                    active_digit_spec(vfo_dot_pos(units as nat), e),
                ),
        decreases chars.len() - i,
    {
        let c = chars[i];
        proof {
            assert forall|e: nat| step_place_exp_spec(step_hz as nat, e) implies (active == Some(i))
                == (active_digit_spec(vfo_dot_pos(units as nat), e) == Some(i as nat)) by {
                lemma_active_digit_on_screen(units as nat, e);
            }
        }
        let role = if active == Some(i) {
            DigitRole::Active
        } else if c == '.' {
            DigitRole::Dot
        } else {
            DigitRole::Digit
        };
        roles.push(role);
        i = i + 1;
    }
    assert(shown_khz(units as nat, freq_hz as nat) && vfo_roles_spec(roles@, units as nat, step_hz as nat));
    roles
}

/// What the status badge of the top band shows.
#[derive(Clone, Copy, Debug, PartialEq, Eq, Structural)]
pub enum StatusBadge {
    /// ` ◈ OBSERVER `: watching another program's stream.
    Observer,
    /// ` ● RX `: receiving (the dot breathes).
    Rx,
    /// ` ○ IDLE `.
    Idle,
}

/// Observer mode wins over streaming; otherwise streaming shows RX.
pub fn status_badge(observer_active: bool, hw_streaming: bool) -> (r: StatusBadge)
    ensures
        r == (if observer_active {
            StatusBadge::Observer
        } else if hw_streaming {
            StatusBadge::Rx
        } else {
            StatusBadge::Idle
        }),
{
    if observer_active {
        StatusBadge::Observer
    } else if hw_streaming {
        StatusBadge::Rx
    } else {
        StatusBadge::Idle
    }
}

/// Mayhem firmware reports `n_…` (nightly) or `v` and a digit (release).
pub open spec fn is_mayhem_spec(fw: Seq<char>) -> bool {
    (fw.len() >= 2 && fw[0] == 'n' && fw[1] == '_') || (fw.len() >= 2 && fw[0] == 'v' && '0' <= fw[1]
        && fw[1] <= '9')
}

/// Whether a firmware version string comes from the Mayhem firmware.
pub fn is_mayhem_fw(fw: &str) -> (r: bool)
    ensures
        r == is_mayhem_spec(fw@),
{
    let c = chars_of(fw);
    c.len() >= 2 && ((c[0] == 'n' && c[1] == '_') || (c[0] == 'v' && '0' <= c[1] && c[1] <= '9'))
}

/// The ten-column label before the firmware field: a single-tuner device has
/// no on-device firmware; otherwise Mayhem or stock HackRF firmware.
pub open spec fn fw_label_spec(single_stage: bool, observer_active: bool, fw: Seq<char>) -> Seq<char> {
    if single_stage {
        "rtl-sdr   "@
    } else if !observer_active && is_mayhem_spec(fw) {
        "mayhem fw "@
    } else {
        "hackrf fw "@
    }
}

/// The label in front of the firmware version.
pub fn fw_label(single_stage: bool, observer_active: bool, fw: &str) -> (r: &'static str)
    ensures
        r@ == fw_label_spec(single_stage, observer_active, fw@),
{
    if single_stage {
        "rtl-sdr   "
    } else if !observer_active && is_mayhem_fw(fw) {
        "mayhem fw "
    } else {
        "hackrf fw "
    }
}

/// The three-column amplifier value: a dash in observer mode, else on/off.
pub fn amp_text(observer_active: bool, amp_enabled: bool) -> (r: &'static str)
    ensures
        r@ == (if observer_active {
            "—  "@
        } else if amp_enabled {
            "ON "@
        } else {
            "OFF"@
        }),
{
    if observer_active {
        "—  "
    } else if amp_enabled {
        "ON "
    } else {
        "OFF"
    }
}

} // verus!
