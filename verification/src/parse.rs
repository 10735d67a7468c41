//! Text scanning with the standard library's rules: Unicode whitespace,
//! trimming, whitespace-separated fields, lines, and unsigned decimals.

use vstd::prelude::*;

use crate::text::pow10;

verus! {

/// The Unicode `White_Space` characters (what `char::is_whitespace` accepts).
pub open spec fn is_ws(c: char) -> bool {
    let u = c as u32;
    (0x09 <= u && u <= 0x0D) || u == 0x20 || u == 0x85 || u == 0xA0 || u == 0x1680 || (0x2000 <= u
        && u <= 0x200A) || u == 0x2028 || u == 0x2029 || u == 0x202F || u == 0x205F || u == 0x3000
}

/// Whether `c` is whitespace.
pub fn is_whitespace(c: char) -> (r: bool)
    ensures
        r == is_ws(c),
{
    let u = c as u32;
    (0x09 <= u && u <= 0x0D) || u == 0x20 || u == 0x85 || u == 0xA0 || u == 0x1680 || (0x2000 <= u
        && u <= 0x200A) || u == 0x2028 || u == 0x2029 || u == 0x202F || u == 0x205F || u == 0x3000
}

/// `s` without leading whitespace.
pub open spec fn trim_start(s: Seq<char>) -> Seq<char>
    decreases s.len(),
{
    if s.len() > 0 && is_ws(s[0]) {
        trim_start(s.drop_first())
    } else {
        s
    }
}

/// `s` without trailing whitespace.
pub open spec fn trim_end(s: Seq<char>) -> Seq<char>
    decreases s.len(),
{
    if s.len() > 0 && is_ws(s.last()) {
        trim_end(s.drop_last())
    } else {
        s
    }
}

/// `s` without leading and trailing whitespace (`str::trim`).
pub open spec fn trim(s: Seq<char>) -> Seq<char> {
    trim_end(trim_start(s))
}

/// The characters of `s` without leading and trailing whitespace.
pub fn trim_chars(s: &Vec<char>) -> (r: Vec<char>)
    ensures
        r@ == trim(s@),
{
    let n = s.len();
    let mut i: usize = 0;
    assert(s@.subrange(0, n as int) =~= s@);
    while i < n && is_whitespace(s[i])
        invariant
            i <= n,
            n == s@.len(),
            trim_start(s@) == trim_start(s@.subrange(i as int, n as int)),
        decreases n - i,
    {
        assert(s@.subrange(i as int, n as int).drop_first() =~= s@.subrange(i + 1, n as int));
        i = i + 1;
    }
    assert(trim_start(s@.subrange(i as int, n as int)) == s@.subrange(i as int, n as int));
    let mut j: usize = n;
    while j > i && is_whitespace(s[j - 1])
        invariant
            i <= j <= n,
            n == s@.len(),
            trim(s@) == trim_end(s@.subrange(i as int, j as int)),
        decreases j,
    {
        assert(s@.subrange(i as int, j as int).drop_last() =~= s@.subrange(i as int, j - 1));
        j = j - 1;
    }
    let mut r: Vec<char> = Vec::new();
    let mut k: usize = i;
    while k < j
        invariant
            i <= k <= j <= n,
            n == s@.len(),
            r@ == s@.subrange(i as int, k as int),
        decreases j - k,
    {
        r.push(s[k]);
        k = k + 1;
        assert(r@ =~= s@.subrange(i as int, k as int));
    }
    r
}

/// Splitting state after reading `s`: the finished fields and the field in progress.
pub open spec fn fields_acc(s: Seq<char>) -> (Seq<Seq<char>>, Seq<char>)
    decreases s.len(),
{
    if s.len() == 0 {
        (Seq::empty(), Seq::empty())
    } else {
        let (done, cur) = fields_acc(s.drop_last());
        let c = s.last();
        if is_ws(c) {
            if cur.len() > 0 {
                (done.push(cur), Seq::empty())
            } else {
                (done, Seq::empty())
            }
        } else {
            (done, cur.push(c))
        }
    }
}

/// The non-empty whitespace-separated fields of `s` (`str::split_whitespace`).
pub open spec fn fields(s: Seq<char>) -> Seq<Seq<char>> {
    let (done, cur) = fields_acc(s);
    if cur.len() > 0 {
        done.push(cur)
    } else {
        done
    }
}

/// The character vectors' contents.
pub open spec fn views(v: Seq<Vec<char>>) -> Seq<Seq<char>> {
    v.map_values(|x: Vec<char>| x@)
}

/// The whitespace-separated fields of `s`.
pub fn split_fields(s: &Vec<char>) -> (r: Vec<Vec<char>>)
    ensures
        views(r@) == fields(s@),
{
    let mut done: Vec<Vec<char>> = Vec::new();
    let mut cur: Vec<char> = Vec::new();
    let mut i: usize = 0;
    while i < s.len()
        invariant
            i <= s@.len(),
            (views(done@), cur@) == fields_acc(s@.take(i as int)),
        decreases s.len() - i,
    {
        let c = s[i];
        assert(s@.take(i + 1 as int).drop_last() =~= s@.take(i as int));
        if is_whitespace(c) {
            if cur.len() > 0 {
                let finished = cur;
                done.push(finished);
                cur = Vec::new();
                assert(views(done@) =~= fields_acc(s@.take(i as int)).0.push(finished@));
            } else {
                cur = Vec::new();
                assert(cur@ =~= Seq::<char>::empty());
            }
        } else {
            cur.push(c);
        }
        i = i + 1;
    }
    assert(s@.take(s@.len() as int) == s@);
    if cur.len() > 0 {
        let last = cur;
        done.push(last);
        assert(views(done@) =~= fields_acc(s@).0.push(last@));
    }
    done
}

/// `s` without one trailing carriage return, if it has one.
pub open spec fn strip_cr(s: Seq<char>) -> Seq<char> {
    if s.len() > 0 && s.last() == '\r' {
        s.drop_last()
    } else {
        s
    }
}

/// Line-splitting state after reading `s`: finished lines and the line in progress.
pub open spec fn lines_acc(s: Seq<char>) -> (Seq<Seq<char>>, Seq<char>)
    decreases s.len(),
{
    if s.len() == 0 {
        (Seq::empty(), Seq::empty())
    } else {
        let (done, cur) = lines_acc(s.drop_last());
        let c = s.last();
        if c == '\n' {
            (done.push(strip_cr(cur)), Seq::empty())
        } else {
            (done, cur.push(c))
        }
    }
}

/// The lines of `s` (`str::lines`): split at `\n`, a `\r` right before the
/// `\n` dropped, and no empty line after a final line ending.
pub open spec fn lines(s: Seq<char>) -> Seq<Seq<char>> {
    let (done, cur) = lines_acc(s);
    if cur.len() > 0 {
        done.push(cur)
    } else {
        done
    }
}

/// The characters of `s` without a trailing carriage return.
fn strip_cr_vec(v: Vec<char>) -> (r: Vec<char>)
    ensures
        r@ == strip_cr(v@),
{
    let mut v = v;
    if v.len() > 0 && v[v.len() - 1] == '\r' {
        let _ = v.pop();
    }
    v
}

/// The lines of `s`.
pub fn split_lines(s: &Vec<char>) -> (r: Vec<Vec<char>>)
    ensures
        views(r@) == lines(s@),
{
    let mut done: Vec<Vec<char>> = Vec::new();
    let mut cur: Vec<char> = Vec::new();
    let mut i: usize = 0;
    while i < s.len()
        invariant
            i <= s@.len(),
            (views(done@), cur@) == lines_acc(s@.take(i as int)),
        decreases s.len() - i,
    {
        let c = s[i];
        assert(s@.take(i + 1 as int).drop_last() =~= s@.take(i as int));
        if c == '\n' {
            let finished = strip_cr_vec(cur);
            done.push(finished);
            cur = Vec::new();
            assert(views(done@) =~= lines_acc(s@.take(i as int)).0.push(finished@));
            assert(cur@ =~= Seq::<char>::empty());
        } else {
            cur.push(c);
        }
        i = i + 1;
    }
    assert(s@.take(s@.len() as int) == s@);
    if cur.len() > 0 {
        let last = cur;
        done.push(last);
        assert(views(done@) =~= lines_acc(s@).0.push(last@));
    }
    done
}

/// Whether `c` is an ASCII decimal digit.
pub open spec fn is_digit(c: char) -> bool {
    '0' <= c && c <= '9'
}

/// Value of a string of decimal digits (0 for the empty string).
pub open spec fn digits_value(s: Seq<char>) -> nat
    decreases s.len(),
{
    if s.len() == 0 {
        0
    } else {
        10 * digits_value(s.drop_last()) + ((s.last() as u32) - 48) as nat
    }
}

/// The number an unsigned decimal text denotes, ignoring range (`u64::from_str`
/// without the overflow check): an optional `+`, then one or more ASCII digits.
pub open spec fn unsigned_dec(s: Seq<char>) -> Option<nat> {
    let d = sign_stripped(s);
    if d.len() > 0 && all_digits(d) {
        Some(digits_value(d))
    } else {
        None
    }
}

/// `s` without one leading `+`.
pub open spec fn sign_stripped(s: Seq<char>) -> Seq<char> {
    if s.len() > 0 && s[0] == '+' {
        s.drop_first()
    } else {
        s
    }
}

/// Every character of `d` is an ASCII digit.
pub open spec fn all_digits(d: Seq<char>) -> bool {
    forall|i: int| 0 <= i < d.len() ==> is_digit(#[trigger] d[i])
}

/// The result of parsing `s` as an unsigned integer no larger than `max`.
pub open spec fn parse_bounded(s: Seq<char>, max: nat) -> Option<nat> {
    match unsigned_dec(s) {
        Some(v) => if v <= max { Some(v) } else { None },
        None => None,
    }
}

/// Parses `s` as a `u64` by the standard rules (`+` allowed, no `-`, no
/// spaces, no overflow).
pub fn parse_u64(s: &Vec<char>) -> (r: Option<u64>)
    ensures
        r matches Some(v) ==> parse_bounded(s@, u64::MAX as nat) == Some(v as nat),
        r is None ==> parse_bounded(s@, u64::MAX as nat) is None,
{
    let start: usize = if s.len() > 0 && s[0] == '+' { 1 } else { 0 };
    let ghost d = sign_stripped(s@);
    assert(d =~= s@.subrange(start as int, s@.len() as int));
    if start >= s.len() {
        assert(d.len() == 0);
        return None;
    }
    let mut acc: u64 = 0;
    let mut overflow = false;
    let mut i: usize = start;
    while i < s.len()
        invariant
            start <= i <= s@.len(),
            start < s@.len(),
            d == s@.subrange(start as int, s@.len() as int),
            d == sign_stripped(s@),
            forall|k: int| start <= k < i ==> is_digit(#[trigger] s@[k]),
            !overflow ==> acc == digits_value(s@.subrange(start as int, i as int)),
            overflow ==> digits_value(s@.subrange(start as int, i as int)) > u64::MAX,
        decreases s.len() - i,
    {
        let c = s[i];
        if !('0' <= c && c <= '9') {
            assert(d[i - start] == s@[i as int]);
            assert(!is_digit(d[i - start]));
            assert(!all_digits(d));
            return None;
        }
        let dv = (c as u32 - 48) as u64;
        assert(s@.subrange(start as int, i + 1 as int).drop_last() =~= s@.subrange(start as int, i as int));
        if !overflow {
            if acc > (u64::MAX - dv) / 10 {
                overflow = true;
            } else {
                acc = acc * 10 + dv;
            }
        } else {
            proof {
                lemma_digits_value_grows(s@.subrange(start as int, i + 1 as int));
            }
        }
        i = i + 1;
    }
    assert(s@.subrange(start as int, s@.len() as int) == d);
    assert(forall|k: int| 0 <= k < d.len() ==> is_digit(#[trigger] d[k]) && d[k] == s@[k + start]);
    if overflow {
        None
    } else {
        Some(acc)
    }
}

/// Appending a digit never lowers the value.
pub proof fn lemma_digits_value_grows(s: Seq<char>)
    requires
        s.len() > 0,
    ensures
        digits_value(s) >= digits_value(s.drop_last()),
{
}

/// Parses `s` as a `usize` by the standard rules.
pub fn parse_usize(s: &Vec<char>) -> (r: Option<usize>)
    ensures
        r matches Some(v) ==> parse_bounded(s@, usize::MAX as nat) == Some(v as nat),
        r is None ==> parse_bounded(s@, usize::MAX as nat) is None,
{
    match parse_u64(s) {
        Some(v) => {
            if v > usize::MAX as u64 {
                None
            } else {
                Some(v as usize)
            }
        },
        None => None,
    }
}

/// The index of the last `c` in `s`, if any.
pub open spec fn last_index_of(s: Seq<char>, c: char) -> Option<int>
    decreases s.len(),
{
    if s.len() == 0 {
        None
    } else if s.last() == c {
        Some(s.len() - 1)
    } else {
        last_index_of(s.drop_last(), c)
    }
}

/// What follows the last `c` in `s` (the second half of `str::rsplit_once`).
pub open spec fn after_last(s: Seq<char>, c: char) -> Option<Seq<char>> {
    match last_index_of(s, c) {
        Some(i) => Some(s.subrange(i + 1, s.len() as int)),
        None => None,
    }
}

/// The characters after the last `c` in `s`, or `None` when `s` has no `c`.
pub fn split_after_last(s: &Vec<char>, c: char) -> (r: Option<Vec<char>>)
    ensures
        r matches Some(v) ==> after_last(s@, c) == Some(v@),
        r is None ==> after_last(s@, c) is None,
{
    let mut j: usize = s.len();
    assert(s@.take(j as int) =~= s@);
    while j > 0 && s[j - 1] != c
        invariant
            j <= s@.len(),
            last_index_of(s@, c) == last_index_of(s@.take(j as int), c),
        decreases j,
    {
        assert(s@.take(j as int).drop_last() =~= s@.take(j - 1));
        j = j - 1;
    }
    if j == 0 {
        assert(s@.take(0) =~= Seq::<char>::empty());
        return None;
    }
    let mut r: Vec<char> = Vec::new();
    let mut k: usize = j;
    while k < s.len()
        invariant
            j <= k <= s@.len(),
            r@ == s@.subrange(j as int, k as int),
        decreases s.len() - k,
    {
        r.push(s[k]);
        k = k + 1;
        assert(r@ =~= s@.subrange(j as int, k as int));
    }
    Some(r)
}

/// Whether `s` begins with `p`.
pub open spec fn starts_with(s: Seq<char>, p: Seq<char>) -> bool {
    p.len() <= s.len() && s.take(p.len() as int) == p
}

/// Whether `s` begins with the characters of `p`.
pub fn starts_with_chars(s: &Vec<char>, p: &Vec<char>) -> (r: bool)
    ensures
        r == starts_with(s@, p@),
{
    if p.len() > s.len() {
        return false;
    }
    let mut i: usize = 0;
    while i < p.len()
        invariant
            i <= p@.len() <= s@.len(),
            s@.take(i as int) == p@.take(i as int),
        decreases p.len() - i,
    {
        if s[i] != p[i] {
            assert(s@.take(p@.len() as int)[i as int] != p@[i as int]);
            return false;
        }
        assert(s@.take(i + 1) =~= s@.take(i as int).push(s@[i as int]));
        assert(p@.take(i + 1) =~= p@.take(i as int).push(p@[i as int]));
        i = i + 1;
    }
    assert(p@.take(p@.len() as int) =~= p@);
    true
}

/// The first of `ls` that begins with `p` (`Iterator::find` with `starts_with`).
pub open spec fn first_with_prefix(ls: Seq<Seq<char>>, p: Seq<char>) -> Option<Seq<char>>
    decreases ls.len(),
{
    if ls.len() == 0 {
        None
    } else if starts_with(ls[0], p) {
        Some(ls[0])
    } else {
        first_with_prefix(ls.drop_first(), p)
    }
}

/// The first line of `ls` that begins with `p`.
pub fn find_with_prefix(ls: &Vec<Vec<char>>, p: &Vec<char>) -> (r: Option<Vec<char>>)
    ensures
        r matches Some(v) ==> first_with_prefix(views(ls@), p@) == Some(v@),
        r is None ==> first_with_prefix(views(ls@), p@) is None,
{
    let mut i: usize = 0;
    assert(views(ls@).subrange(0, ls@.len() as int) =~= views(ls@));
    while i < ls.len()
        invariant
            i <= ls@.len(),
            first_with_prefix(views(ls@), p@) == first_with_prefix(
                views(ls@).subrange(i as int, ls@.len() as int),
                p@,
            ),
        decreases ls.len() - i,
    {
        let ghost rest = views(ls@).subrange(i as int, ls@.len() as int);
        assert(rest[0] == ls@[i as int]@);
        if starts_with_chars(&ls[i], p) {
            return Some(ls[i].clone());
        }
        assert(rest.drop_first() =~= views(ls@).subrange(i + 1, ls@.len() as int));
        i = i + 1;
    }
    None
}

/// Index of the last `c` in `s`, if any.
pub fn last_index(s: &Vec<char>, c: char) -> (r: Option<usize>)
    ensures
        r matches Some(k) ==> last_index_of(s@, c) == Some(k as int) && k < s@.len(),
        r is None ==> last_index_of(s@, c) is None,
{
    let mut j: usize = s.len();
    assert(s@.take(j as int) =~= s@);
    while j > 0 && s[j - 1] != c
        invariant
            j <= s@.len(),
            last_index_of(s@, c) == last_index_of(s@.take(j as int), c),
        decreases j,
    {
        assert(s@.take(j as int).drop_last() =~= s@.take(j - 1));
        j = j - 1;
    }
    if j == 0 {
        assert(s@.take(0) =~= Seq::<char>::empty());
        None
    } else {
        assert(s@.take(j as int).last() == c);
        Some(j - 1)
    }
}

/// A string of digits is worth less than ten to the power of its length.
pub proof fn lemma_digits_value_lt(s: Seq<char>)
    requires
        all_digits(s),
    ensures
        digits_value(s) < pow10(s.len()),
    decreases s.len(),
{
    if s.len() > 0 {
        let t = s.drop_last();
        assert(all_digits(t)) by {
            assert forall|i: int| 0 <= i < t.len() implies is_digit(#[trigger] t[i]) by {
                assert(t[i] == s[i]);
            }
        }
        lemma_digits_value_lt(t);
        assert(is_digit(s[s.len() - 1]));
    }
}

/// The smaller of two naturals.
pub open spec fn min_nat(a: nat, b: nat) -> nat {
    if a <= b {
        a
    } else {
        b
    }
}

/// Whether `s[lo..hi]` is all digits, and then its value capped at `cap`.
fn scan_digits(s: &Vec<char>, lo: usize, hi: usize, cap: u64) -> (r: (bool, u64))
    requires
        lo <= hi <= s@.len(),
        cap <= 1_000_000_000_000_000,
    ensures
        r.0 == all_digits(s@.subrange(lo as int, hi as int)),
        r.0 ==> r.1 == min_nat(digits_value(s@.subrange(lo as int, hi as int)), cap as nat),
{
    let mut acc: u64 = 0;
    let mut i: usize = lo;
    while i < hi
        invariant
            lo <= i <= hi <= s@.len(),
            cap <= 1_000_000_000_000_000,
            all_digits(s@.subrange(lo as int, i as int)),
            acc == min_nat(digits_value(s@.subrange(lo as int, i as int)), cap as nat),
        decreases hi - i,
    {
        let c = s[i];
        if !('0' <= c && c <= '9') {
            assert(s@.subrange(lo as int, hi as int)[i - lo] == c);
            return (false, 0);
        }
        let d = (c as u32 - 48) as u64;
        let ghost prev = s@.subrange(lo as int, i as int);
        let ghost next = s@.subrange(lo as int, i + 1);
        assert(next.drop_last() =~= prev);
        assert(digits_value(next) == 10 * digits_value(prev) + d);
        let t = acc * 10 + d;
        acc = if t < cap { t } else { cap };
        assert(all_digits(next)) by {
            assert forall|k: int| 0 <= k < next.len() implies is_digit(#[trigger] next[k]) by {
                if k < prev.len() {
                    assert(next[k] == prev[k]);
                }
            }
        }
        i = i + 1;
    }
    (true, acc)
}

/// The first six decimals of a fraction, as millionths (further digits dropped).
pub open spec fn micro_frac(f: Seq<char>) -> nat {
    if f.len() >= 6 {
        digits_value(f.take(6))
    } else {
        digits_value(f) * pow10((6 - f.len()) as nat)
    }
}

/// The frequency in Hz that a typed value in MHz denotes: digits with at
/// most one decimal point and at least one digit; decimals past the sixth
/// (below 1 Hz) are dropped.
pub open spec fn mhz_hz(s: Seq<char>) -> Option<nat> {
    match last_index_of(s, '.') {
        Some(k) => {
            let ip = s.take(k);
            let fp = s.skip(k + 1);
            if s.len() > 1 && all_digits(ip) && all_digits(fp) {
                Some(digits_value(ip) * 1_000_000 + micro_frac(fp))
            } else {
                None
            }
        },
        None => if s.len() > 0 && all_digits(s) {
            Some(digits_value(s) * 1_000_000)
        } else {
            None
        },
    }
}

/// Reads a typed value in MHz as Hz, when it is well formed and at most `max_hz`.
pub fn parse_mhz_hz(s: &Vec<char>, max_hz: u64) -> (r: Option<u64>)
    requires
        max_hz <= 1_000_000_000_000_000,
    ensures
        r matches Some(v) ==> mhz_hz(s@) == Some(v as nat) && v <= max_hz,
        r is None ==> mhz_hz(s@) is None || mhz_hz(s@).unwrap() > max_hz,
{
    let cap: u64 = max_hz / 1_000_000 + 1;
    let n = s.len();
    match last_index(s, '.') {
        None => {
            let (ok, v) = scan_digits(s, 0, n, cap);
            assert(s@.subrange(0, n as int) =~= s@);
            if !ok || n == 0 {
                return None;
            }
            let hz = v * 1_000_000;
            if hz > max_hz {
                assert(digits_value(s@) >= v);
                return None;
            }
            assert(v < cap) by (nonlinear_arith)
                requires hz == v * 1_000_000, hz <= max_hz, cap == max_hz / 1_000_000 + 1;
            Some(hz)
        },
        Some(k) => {
            let ghost ip = s@.take(k as int);
            let ghost fp = s@.skip(k + 1);
            let (ok1, vi) = scan_digits(s, 0, k, cap);
            assert(s@.subrange(0, k as int) =~= ip);
            let (ok2, _ignored) = scan_digits(s, k + 1, n, 0);
            assert(s@.subrange(k + 1, n as int) =~= fp);
            if !ok1 || !ok2 || n <= 1 {
                return None;
            }
            let flen = n - (k + 1);
            let m: usize = if flen >= 6 { 6 } else { flen };
            let (_okf, fv) = scan_digits(s, k + 1, k + 1 + m, 1_000_000);
            let ghost fd = s@.subrange(k + 1, (k + 1 + m) as int);
            assert(fd =~= fp.take(m as int));
            assert(all_digits(fd)) by {
                assert forall|i: int| 0 <= i < fd.len() implies is_digit(#[trigger] fd[i]) by {
                    assert(fd[i] == fp[i]);
                }
            }
            proof {
                lemma_digits_value_lt(fd);
                crate::text::lemma_pow10_mono(m as nat, 6);
                assert(pow10(6) == 1_000_000) by {
                    reveal_with_fuel(pow10, 7);
                }
            }
            let scale = crate::text::pow10_u64((6 - m) as u32);
            proof {
                crate::text::lemma_pow10_bound((6 - m) as nat);
                assert(pow10(m as nat) * pow10((6 - m) as nat) == 1_000_000) by {
                    lemma_pow10_add(m as nat, (6 - m) as nat);
                }
                assert(fv * scale < 1_000_000) by (nonlinear_arith)
                    requires fv < pow10(m as nat), scale == pow10((6 - m) as nat),
                        pow10(m as nat) * pow10((6 - m) as nat) == 1_000_000, scale > 0;
                if flen < 6 {
                    assert(fp.take(m as int) =~= fp);
                }
            }
            let frac = fv * scale;
            assert(frac == micro_frac(fp));
            let hz = vi * 1_000_000 + frac;
            if hz > max_hz {
                assert(digits_value(ip) >= vi);
                return None;
            }
            assert(vi < cap) by (nonlinear_arith)
                requires hz == vi * 1_000_000 + frac, hz <= max_hz, cap == max_hz / 1_000_000 + 1;
            Some(hz)
        },
    }
}

/// Powers of ten multiply by adding exponents.
pub proof fn lemma_pow10_add(a: nat, b: nat)
    ensures
        pow10(a) * pow10(b) == pow10(a + b),
    decreases a,
{
    if a > 0 {
        lemma_pow10_add((a - 1) as nat, b);
        assert(pow10(a) * pow10(b) == 10 * (pow10((a - 1) as nat) * pow10(b))) by (nonlinear_arith)
            requires pow10(a) == 10 * pow10((a - 1) as nat);
        assert(((a + b - 1) as nat) == ((a - 1) as nat + b) as nat);
        assert(pow10(a + b) == 10 * pow10(((a - 1) as nat + b) as nat));
    } else {
        assert(pow10(a) == 1);
    }
}

/// Decimal rendering and reading are inverse: the text of `n` is all digits
/// and reads back as `n`.
pub proof fn lemma_dec_reads_back(n: nat)
    ensures
        all_digits(crate::text::dec(n)),
        digits_value(crate::text::dec(n)) == n,
        crate::text::dec(n).len() > 0,
    decreases n,
{
    let t = crate::text::dec(n);
    if n >= 10 {
        lemma_dec_reads_back(n / 10);
        let h = crate::text::dec(n / 10);
        assert(t == h.push(crate::text::digit_char(n % 10)));
        assert(t.drop_last() =~= h);
        assert((crate::text::digit_char(n % 10) as u32) == 48 + n % 10);
        assert(t.last() == crate::text::digit_char(n % 10));
        assert(digits_value(t) == 10 * digits_value(t.drop_last()) + ((t.last() as u32) - 48) as nat);
        assert forall|i: int| 0 <= i < t.len() implies is_digit(#[trigger] t[i]) by {
            if i < h.len() {
                assert(t[i] == h[i]);
            }
        }
    } else {
        assert(t == seq![crate::text::digit_char(n)]);
        assert(t.drop_last() =~= Seq::<char>::empty());
        assert((crate::text::digit_char(n) as u32) == 48 + n);
        assert(t.last() == crate::text::digit_char(n));
        assert(digits_value(t) == 10 * digits_value(t.drop_last()) + ((t.last() as u32) - 48) as nat);
    }
}

/// A two-digit field reads back as its number (a leading zero below ten).
pub proof fn lemma_pad2_reads_back(n: nat)
    ensures
        all_digits(crate::text::pad2(n)),
        digits_value(crate::text::pad2(n)) == n,
        n < 100 ==> crate::text::pad2(n).len() == 2,
{
    lemma_dec_reads_back(n);
    let d = crate::text::dec(n);
    if n < 10 {
        let t = crate::text::pad2(n);
        assert(d == seq![crate::text::digit_char(n)]);
        assert(t =~= seq!['0', crate::text::digit_char(n)]);
        assert(t.drop_last() =~= seq!['0']);
        assert(seq!['0'].drop_last() =~= Seq::<char>::empty());
        assert((crate::text::digit_char(n) as u32) == 48 + n);
        assert(('0' as u32) == 48);
        assert(seq!['0'].last() == '0');
        assert(digits_value(seq!['0']) == 10 * digits_value(seq!['0'].drop_last()) + ((seq!['0'].last() as u32) - 48) as nat);
        assert(digits_value(seq!['0']) == 0);
        assert(t.last() == crate::text::digit_char(n));
        assert(digits_value(t) == 10 * digits_value(t.drop_last()) + ((t.last() as u32) - 48) as nat);
        assert forall|i: int| 0 <= i < t.len() implies is_digit(#[trigger] t[i]) by {}
    } else if n < 100 {
        assert(d == crate::text::dec(n / 10).push(crate::text::digit_char(n % 10)));
        assert(crate::text::dec(n / 10) == seq![crate::text::digit_char(n / 10)]);
    }
}

/// A text without `c` has no last `c`.
pub proof fn lemma_no_last_index(s: Seq<char>, c: char)
    requires
        forall|i: int| 0 <= i < s.len() ==> s[i] != c,
    ensures
        last_index_of(s, c) is None,
    decreases s.len(),
{
    if s.len() > 0 {
        assert(s.last() == s[s.len() - 1]);
        lemma_no_last_index(s.drop_last(), c);
    }
}

/// Reading a number back from its decimal text gives the number, with or
/// without a leading `+`, as long as it is within the bound.
pub proof fn lemma_parse_reads_dec(n: nat, max: nat)
    ensures
        n <= max ==> parse_bounded(crate::text::dec(n), max) == Some(n),
        n <= max ==> parse_bounded(seq!['+'] + crate::text::dec(n), max) == Some(n),
        n > max ==> parse_bounded(crate::text::dec(n), max) is None,
{
    lemma_dec_reads_back(n);
    let d = crate::text::dec(n);
    assert(is_digit(d[0]));
    assert(sign_stripped(d) == d);
    assert((seq!['+'] + d)[0] == '+');
    assert((seq!['+'] + d).drop_first() =~= d);
}

/// Typing a whole number of MHz enters exactly that many million Hz.
pub proof fn lemma_whole_mhz_entry(v: nat)
    ensures
        mhz_hz(crate::text::dec(v)) == Some(v * 1_000_000),
{
    lemma_dec_reads_back(v);
    let d = crate::text::dec(v);
    assert forall|i: int| 0 <= i < d.len() implies d[i] != '.' by {
        assert(is_digit(d[i]));
    }
    lemma_no_last_index(d, '.');
}

} // verus!
