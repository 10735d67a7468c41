//! Host-pipeline vitals panel helpers.

use vstd::prelude::*;

use crate::parse::{digits_value, lemma_pad2_reads_back};
use crate::text::{pad2, push_char, push_pad2};
use crate::ui::micro_common::Severity;
use crate::ui::panel::Panel;
use crate::ui::rf_calc::{lemma_sum_range_mono, sum_range};

verus! {

/// Right column of the host-timing lab: drops, saturation, CPU, USB, ring buffer.
pub struct TimingVitalsPanel;

impl Panel for TimingVitalsPanel {
    fn name(&self) -> (r: &'static str)
        ensures
            r@ == "timing_vitals"@,
    {
        "timing_vitals"
    }

    fn min_size(&self) -> (r: (u16, u16))
        ensures
            r == (30u16, 18u16),
    {
        (30, 18)
    }

    fn focus_key(&self) -> (r: Option<char>)
        ensures
            r == Some('v'),
    {
        Some('v')
    }

    fn focus_bindings(&self) -> (r: &'static [(&'static str, &'static str)])
        ensures
            r@.len() == 2,
            r@[0].0@ == "R"@ && r@[0].1@ == "Reset drop counter"@,
            r@[1].0@ == "C"@ && r@[1].1@ == "Clear history"@,
    {
        &[("R", "Reset drop counter"), ("C", "Clear history")]
    }
}

/// `HH:MM:SS` (hours keep all their digits, at least two).
pub open spec fn fmt_uptime_spec(secs: nat) -> Seq<char> {
    pad2(secs / 3600) + seq![':'] + pad2((secs % 3600) / 60) + seq![':'] + pad2(secs % 60)
}

/// The uptime text reads back as the elapsed time: hours, a colon, two
/// minute digits, a colon and two second digits, minutes and seconds below
/// sixty, and hours·3600 + minutes·60 + seconds is the second count.
pub proof fn lemma_uptime_reads_back(secs: nat)
    ensures
        ({
            let t = fmt_uptime_spec(secs);
            let n = t.len();
            &&& n >= 8
            &&& t[n - 3] == ':' && t[n - 6] == ':'
            &&& digits_value(t.subrange(n - 2, n as int)) < 60
            &&& digits_value(t.subrange(n - 5, n - 3)) < 60
            &&& digits_value(t.take(n - 6)) * 3600 + digits_value(t.subrange(n - 5, n - 3)) * 60
                + digits_value(t.subrange(n - 2, n as int)) == secs
        }),
{
    let h = secs / 3600;
    let m = (secs % 3600) / 60;
    let sc = secs % 60;
    lemma_pad2_reads_back(h);
    lemma_pad2_reads_back(m);
    lemma_pad2_reads_back(sc);
    let ph = pad2(h);
    let pm = pad2(m);
    let ps = pad2(sc);
    let t = fmt_uptime_spec(secs);
    assert(t == ph + seq![':'] + pm + seq![':'] + ps);
    crate::parse::lemma_dec_reads_back(h);
    assert(ph.len() >= 2) by {
        if h >= 10 {
            assert(crate::text::dec(h) == crate::text::dec(h / 10).push(crate::text::digit_char(h % 10)));
        }
    }
    let n = t.len();
    assert(n == ph.len() + 6);
    assert(t.subrange(n - 2, n as int) =~= ps);
    assert(t.subrange(n - 5, n - 3) =~= pm);
    assert(t.take(n - 6) =~= ph);
    assert(t[n - 3] == ':');
    assert(t[n - 6] == ':');
    assert(h * 3600 + m * 60 + sc == secs);
}

/// `HH:MM:SS` uptime from a whole-second count.
pub fn fmt_uptime(secs: u64) -> (r: String)
    ensures
        r@ == fmt_uptime_spec(secs as nat),
{
    let mut s = String::new();
    push_pad2(&mut s, secs / 3600);
    push_char(&mut s, ':');
    push_pad2(&mut s, (secs % 3600) / 60);
    push_char(&mut s, ':');
    push_pad2(&mut s, secs % 60);
    assert(s@ =~= fmt_uptime_spec(secs as nat));
    s
}


/// Grade of the USB link: errors in the recent history are critical, errors
/// earlier in the session a warning, none at all good.
pub open spec fn usb_error_grade(recent: int, session: nat) -> Severity {
    if recent > 0 {
        Severity::Crit
    } else if session > 0 {
        Severity::Warn
    } else {
        Severity::Good
    }
}

/// Grades the USB link from the recent per-poll error counts and the
/// session total.
pub fn usb_error_severity(history: &[u64], session: u64) -> (r: Severity)
    requires
        sum_range(history@, 0, history@.len() as int) <= u64::MAX,
    ensures
        r == usb_error_grade(sum_range(history@, 0, history@.len() as int), session as nat),
{
    let n = history.len();
    let mut recent: u64 = 0;
    let mut i: usize = 0;
    while i < n
        invariant
            i <= n,
            n == history@.len(),
            recent == sum_range(history@, 0, i as int),
            sum_range(history@, 0, n as int) <= u64::MAX,
        decreases n - i,
    {
        proof {
            lemma_sum_range_mono(history@, 0, i + 1, n as int);
        }
        recent = recent + history[i];
        i = i + 1;
    }
    if recent > 0 {
        Severity::Crit
    } else if session > 0 {
        Severity::Warn
    } else {
        Severity::Good
    }
}

/// The vitals verdict for a timing severity: mark, text and grade.
pub open spec fn vitals_verdict_spec(severity: u8) -> (Seq<char>, Seq<char>, Severity) {
    if severity == 0 {
        ("✓"@, "all vitals nominal"@, Severity::Good)
    } else if severity == 1 || severity == 2 {
        ("⚠"@, "pipeline under load"@, Severity::Warn)
    } else {
        ("⚠"@, "overrun logged"@, Severity::Crit)
    }
}

/// The one-line vitals verdict while streaming.
pub fn vitals_verdict(severity: u8) -> (r: (&'static str, &'static str, Severity))
    ensures
        (r.0@, r.1@, r.2) == vitals_verdict_spec(severity),
{
    if severity == 0 {
        ("✓", "all vitals nominal", Severity::Good)
    } else if severity == 1 || severity == 2 {
        ("⚠", "pipeline under load", Severity::Warn)
    } else {
        ("⚠", "overrun logged", Severity::Crit)
    }
}

/// The title suffix of the vitals panel: ` [STALE]` while the hardware is
/// not streaming, nothing otherwise.
pub fn stale_suffix(hw_streaming: bool) -> (r: &'static str)
    ensures
        r@ == (if hw_streaming { ""@ } else { " [STALE]"@ }),
{
    if hw_streaming {
        ""
    } else {
        " [STALE]"
    }
}

/// Spaces between the verdict (a leading space, the mark, a space, the
/// text) and the `uptime …` tail on a row `iw` wide: what the row leaves,
/// at least one.
pub fn uptime_gap(iw: usize, mark_len: usize, text_len: usize, tail_len: usize) -> (r: usize)
    requires
        2 + mark_len + text_len + tail_len <= usize::MAX,
    ensures
        r == (if iw > 2 + mark_len + text_len + tail_len {
            iw - (2 + mark_len + text_len + tail_len)
        } else {
            1
        }),
{
    let used = 2 + mark_len + text_len + tail_len;
    let g = iw.saturating_sub(used);
    if g < 1 {
        1
    } else {
        g
    }
}

} // verus!
