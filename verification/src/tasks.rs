//! Background-task helpers: durations, and parsing of the process's own
//! CPU and memory statistics.

use vstd::prelude::*;

use crate::parse::{
    after_last, fields, find_with_prefix, first_with_prefix, lines, parse_bounded, parse_u64,
    split_after_last, split_fields, split_lines,
};
use crate::text::{chars_of, dec, push_dec, push_str};

verus! {

/// `1h 1m 1s` / `1m 30s` / `45s`.
pub open spec fn fmt_duration_spec(secs: nat) -> Seq<char> {
    let h = secs / 3600;
    let m = (secs % 3600) / 60;
    let s = secs % 60;
    if h > 0 {
        dec(h) + "h "@ + dec(m) + "m "@ + dec(s) + "s"@
    } else if m > 0 {
        dec(m) + "m "@ + dec(s) + "s"@
    } else {
        dec(s) + "s"@
    }
}

/// Human duration: hours, minutes and seconds, leading zero units omitted.
pub fn fmt_duration(secs: u64) -> (r: String)
    ensures
        r@ == fmt_duration_spec(secs as nat),
{
    let h = secs / 3600;
    let m = (secs % 3600) / 60;
    let s = secs % 60;
    let mut out = String::new();
    if h > 0 {
        push_dec(&mut out, h);
        push_str(&mut out, "h ");
        push_dec(&mut out, m);
        push_str(&mut out, "m ");
    } else if m > 0 {
        push_dec(&mut out, m);
        push_str(&mut out, "m ");
    }
    push_dec(&mut out, s);
    push_str(&mut out, "s");
    proof {
        let (hh, mm, ss) = (dec(h as nat), dec(m as nat), dec(s as nat));
        if h > 0 {
            assert(out@ =~= hh + "h "@ + mm + "m "@ + ss + "s"@);
        } else if m > 0 {
            assert(out@ =~= mm + "m "@ + ss + "s"@);
        } else {
            assert(out@ =~= ss + "s"@);
        }
    }
    out
}

/// CPU ticks in user and kernel mode from the text of `/proc/self/stat`:
/// the fields after the command name (which ends at the last `)`), numbers
/// eleven and twelve counting from zero.
pub open spec fn stat_ticks(stat: Seq<char>) -> Option<(nat, nat)> {
    match after_last(stat, ')') {
        Some(rest) => {
            let f = fields(rest);
            if f.len() > 12 {
                match (parse_bounded(f[11], u64::MAX as nat), parse_bounded(f[12], u64::MAX as nat)) {
                    (Some(u), Some(k)) => Some((u, k)),
                    _ => None,
                }
            } else {
                None
            }
        },
        None => None,
    }
}

/// Resident set size in kB from the text of `/proc/self/status`: the second
/// field of the first line that starts with `VmRSS:`.
pub open spec fn status_rss_kb(status: Seq<char>) -> Option<nat> {
    match first_with_prefix(lines(status), "VmRSS:"@) {
        Some(line) => {
            let f = fields(line);
            if f.len() > 1 {
                parse_bounded(f[1], u64::MAX as nat)
            } else {
                None
            }
        },
        None => None,
    }
}

/// Total CPU ticks and resident memory in whole MB, when both texts parse.
pub open spec fn self_stats(stat: Seq<char>, status: Seq<char>) -> Option<(nat, nat)> {
    match stat_ticks(stat) {
        Some((u, k)) => match status_rss_kb(status) {
            Some(kb) => Some((u + k, kb / 1024)),
            None => None,
        },
        None => None,
    }
}

/// User and kernel CPU ticks from the text of `/proc/self/stat`.
pub fn parse_stat_ticks(stat: &str) -> (r: Option<(u64, u64)>)
    ensures
        r matches Some((u, k)) ==> stat_ticks(stat@) == Some((u as nat, k as nat)),
        r is None ==> stat_ticks(stat@) is None,
{
    let stat_chars = chars_of(stat);
    let rest = match split_after_last(&stat_chars, ')') {
        Some(v) => v,
        None => return None,
    };
    let f = split_fields(&rest);
    if f.len() <= 12 {
        return None;
    }
    assert(f@[11]@ == fields(rest@)[11] && f@[12]@ == fields(rest@)[12]);
    let utime = match parse_u64(&f[11]) {
        Some(v) => v,
        None => return None,
    };
    let stime = match parse_u64(&f[12]) {
        Some(v) => v,
        None => return None,
    };
    Some((utime, stime))
}

/// Resident set size in kB from the text of `/proc/self/status`.
pub fn parse_status_rss_kb(status: &str) -> (r: Option<u64>)
    ensures
        r matches Some(v) ==> status_rss_kb(status@) == Some(v as nat),
        r is None ==> status_rss_kb(status@) is None,
{
    let status_chars = chars_of(status);
    let ls = split_lines(&status_chars);
    let prefix = chars_of("VmRSS:");
    let line = match find_with_prefix(&ls, &prefix) {
        Some(l) => l,
        None => return None,
    };
    let lf = split_fields(&line);
    if lf.len() <= 1 {
        return None;
    }
    assert(lf@[1]@ == fields(line@)[1]);
    parse_u64(&lf[1])
}

/// The process's CPU ticks (user plus kernel) and resident memory in MB,
/// from the contents of `/proc/self/stat` and `/proc/self/status`; `None`
/// when either does not have the expected shape.
pub fn parse_self_stats(stat: &str, status: &str) -> (r: Option<(u64, u64)>)
    requires
        stat_ticks(stat@) matches Some((u, k)) ==> u + k <= u64::MAX,
    ensures
        r matches Some((t, m)) ==> self_stats(stat@, status@) == Some((t as nat, m as nat)),
        r is None ==> self_stats(stat@, status@) is None,
{
    let (utime, stime) = match parse_stat_ticks(stat) {
        Some(p) => p,
        None => return None,
    };
    let rss_kb = match parse_status_rss_kb(status) {
        Some(v) => v,
        None => return None,
    };
    Some((utime + stime, rss_kb / 1024))
}

} // verus!
