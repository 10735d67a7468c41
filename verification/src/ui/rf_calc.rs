//! RF-chain calculations on the IQ amplitude histogram.

use vstd::prelude::*;

verus! {

/// Sum of `h[lo..hi]`.
pub open spec fn sum_range(h: Seq<u64>, lo: int, hi: int) -> int
    decreases hi - lo,
{
    if hi <= lo {
        0
    } else {
        sum_range(h, lo, hi - 1) + h[hi - 1]
    }
}

/// Sums of counts are never negative.
pub proof fn lemma_sum_range_nonneg(h: Seq<u64>, lo: int, hi: int)
    ensures
        sum_range(h, lo, hi) >= 0,
    decreases hi - lo,
{
    if hi > lo {
        lemma_sum_range_nonneg(h, lo, hi - 1);
    }
}

/// Sum over a sub-range never exceeds the sum over an enclosing range.
pub proof fn lemma_sum_range_mono(h: Seq<u64>, lo: int, mid: int, hi: int)
    requires
        0 <= lo <= mid <= hi <= h.len(),
    ensures
        sum_range(h, lo, mid) <= sum_range(h, lo, hi),
        sum_range(h, lo, hi) == sum_range(h, lo, mid) + sum_range(h, mid, hi),
        sum_range(h, mid, hi) >= 0,
        sum_range(h, lo, mid) >= 0,
    decreases hi - mid,
{
    lemma_sum_range_nonneg(h, lo, mid);
    lemma_sum_range_nonneg(h, mid, hi);
    if mid < hi {
        lemma_sum_range_mono(h, lo, mid, hi - 1);
    }
}

/// Advice severity: 0 = OK, 1 = warn, 2 = critical.
pub open spec fn gain_advice_severity(hist: Seq<u64>) -> u8 {
    let total = sum_range(hist, 0, 32);
    let low_pct = sum_range(hist, 0, 8) * 100 / total;
    let high_pct = sum_range(hist, 24, 32) * 100 / total;
    if total == 0 {
        0
    } else if high_pct > 10 {
        2
    } else if low_pct > 90 {
        1
    } else if low_pct > 70 {
        1
    } else {
        0
    }
}

/// Advice text, keyed the same way as the severity.
pub open spec fn gain_advice_text(hist: Seq<u64>) -> Seq<char> {
    let total = sum_range(hist, 0, 32);
    let low_pct = sum_range(hist, 0, 8) * 100 / total;
    let high_pct = sum_range(hist, 24, 32) * 100 / total;
    if total == 0 {
        "no signal — start RX"@
    } else if high_pct > 10 {
        "⬇ clipping — reduce gain"@
    } else if low_pct > 90 {
        "⬆ weak — increase LNA +8 dB"@
    } else if low_pct > 70 {
        "⬆ under-utilised — try +8 dB"@
    } else {
        "✓ gain staging OK"@
    }
}

/// Sum of `hist[lo..hi]`.
fn sum_bins(hist: &[u64; 32], lo: usize, hi: usize) -> (r: u64)
    requires
        lo <= hi <= 32,
        sum_range(hist@, 0, 32) <= u64::MAX,
    ensures
        r == sum_range(hist@, lo as int, hi as int),
{
    let mut acc: u64 = 0;
    let mut i: usize = lo;
    proof {
        assert(hist@.len() == 32);
        lemma_sum_range_mono(hist@, 0, lo as int, 32);
        lemma_sum_range_mono(hist@, lo as int, hi as int, 32);
    }
    while i < hi
        invariant
            lo <= i <= hi <= 32,
            acc == sum_range(hist@, lo as int, i as int),
            sum_range(hist@, lo as int, hi as int) <= u64::MAX,
        decreases hi - i,
    {
        proof {
            lemma_sum_range_mono(hist@, lo as int, i + 1, hi as int);
        }
        acc = acc + hist[i];
        i = i + 1;
    }
    acc
}

/// Gain-staging advice from the IQ amplitude histogram: `(text, severity)`.
/// More than 10 % of samples in the top eight bins is clipping (2); more
/// than 90 % or 70 % in the bottom eight is weak / under-used (1); else OK.
pub fn gain_advice(hist: &[u64; 32]) -> (r: (&'static str, u8))
    requires
        sum_range(hist@, 0, 32) <= u64::MAX,
        sum_range(hist@, 0, 8) * 100 <= u64::MAX,
        sum_range(hist@, 24, 32) * 100 <= u64::MAX,
    ensures
        r.0@ == gain_advice_text(hist@),
        r.1 == gain_advice_severity(hist@),
{
    let total = sum_bins(hist, 0, 32);
    if total == 0 {
        return ("no signal — start RX", 0);
    }
    let low = sum_bins(hist, 0, 8);
    let high = sum_bins(hist, 24, 32);
    proof {
        assert(hist@.len() == 32);
        lemma_sum_range_mono(hist@, 0, 8, 32);
        lemma_sum_range_mono(hist@, 0, 24, 32);
    }
    let low_pct = low * 100 / total;
    let high_pct = high * 100 / total;
    if high_pct > 10 {
        ("⬇ clipping — reduce gain", 2)
    } else if low_pct > 90 {
        ("⬆ weak — increase LNA +8 dB", 1)
    } else if low_pct > 70 {
        ("⬆ under-utilised — try +8 dB", 1)
    } else {
        ("✓ gain staging OK", 0)
    }
}

/// The counts behind the ADC utilisation gauge: samples in the mid-range
/// bins 8–23 and in all bins.
pub fn adc_util_counts(hist: &[u64; 32]) -> (r: (u64, u64))
    requires
        sum_range(hist@, 0, 32) <= u64::MAX,
    ensures
        r.0 == sum_range(hist@, 8, 24),
        r.1 == sum_range(hist@, 0, 32),
        r.0 <= r.1,
{
    let total = sum_bins(hist, 0, 32);
    let mid = sum_bins(hist, 8, 24);
    proof {
        assert(hist@.len() == 32);
        lemma_sum_range_mono(hist@, 0, 8, 24);
        lemma_sum_range_mono(hist@, 0, 24, 32);
    }
    (mid, total)
}

/// Gain advice reads only the two ends of the amplitude histogram: clipping
/// (grade 2) needs more than 10 % of samples in the top eight bins, a weak or
/// under-used signal (grade 1) needs more than 70 % in the bottom eight; a
/// histogram with samples but none in either end band is "gain staging OK";
/// an empty one asks to start receiving. Samples moving between middle bins
/// never change the advice.
pub proof fn lemma_gain_advice_bands(hist: Seq<u64>, other: Seq<u64>)
    requires
        hist.len() == 32,
        other.len() == 32,
    ensures
        gain_advice_severity(hist) == 2 ==> sum_range(hist, 0, 32) > 0 && sum_range(hist, 24, 32) * 100
            / sum_range(hist, 0, 32) > 10,
        gain_advice_severity(hist) == 1 ==> sum_range(hist, 0, 32) > 0 && sum_range(hist, 0, 8) * 100
            / sum_range(hist, 0, 32) > 70 && sum_range(hist, 24, 32) * 100 / sum_range(hist, 0, 32) <= 10,
        sum_range(hist, 0, 32) > 0 && sum_range(hist, 0, 8) == 0 && sum_range(hist, 24, 32) == 0
            ==> gain_advice_severity(hist) == 0 && gain_advice_text(hist) == "✓ gain staging OK"@,
        sum_range(hist, 0, 32) == 0 ==> gain_advice_severity(hist) == 0 && gain_advice_text(hist)
            == "no signal — start RX"@,
        sum_range(other, 0, 32) == sum_range(hist, 0, 32) && sum_range(other, 0, 8) == sum_range(hist, 0, 8)
            && sum_range(other, 24, 32) == sum_range(hist, 24, 32) ==> gain_advice_severity(other)
            == gain_advice_severity(hist) && gain_advice_text(other) == gain_advice_text(hist),
{
    lemma_sum_range_mono(hist, 0, 8, 32);
    lemma_sum_range_mono(hist, 0, 24, 32);
    let total = sum_range(hist, 0, 32);
    if total > 0 && sum_range(hist, 0, 8) == 0 && sum_range(hist, 24, 32) == 0 {
        assert(0int * 100 / total == 0);
    }
}

} // verus!
