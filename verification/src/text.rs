//! Character-level text building blocks: decimal and fixed-point rendering,
//! rounding, padding, and substring search, each stated over `Seq<char>`.

use vstd::prelude::*;

verus! {

broadcast use vstd::string::group_string_axioms;

/// The ASCII digit for `d` (`0 <= d < 10`).
pub open spec fn digit_char(d: nat) -> char {
    (48 + d) as char
}

/// Decimal rendering of `n` without leading zeros (`0` renders as `"0"`).
pub open spec fn dec(n: nat) -> Seq<char>
    decreases n,
{
    if n < 10 {
        seq![digit_char(n)]
    } else {
        dec(n / 10).push(digit_char(n % 10))
    }
}

/// The last `k` decimal digits of `n`, zero-padded on the left to exactly `k` characters.
pub open spec fn digits_fixed(n: nat, k: nat) -> Seq<char>
    decreases k,
{
    if k == 0 {
        Seq::empty()
    } else {
        digits_fixed(n / 10, (k - 1) as nat).push(digit_char(n % 10))
    }
}

/// `10^k`.
pub open spec fn pow10(k: nat) -> nat
    decreases k,
{
    if k == 0 {
        1
    } else {
        10 * pow10((k - 1) as nat)
    }
}

/// Fixed-point rendering of `units / 10^k` with exactly `k` decimals
/// (`k > 0`): integer part, a point, then `k` fraction digits.
pub open spec fn fixed(units: nat, k: nat) -> Seq<char> {
    dec(units / pow10(k)).push('.') + digits_fixed(units % pow10(k), k)
}

/// `a / b` rounded to the nearest integer, ties to even (`b > 0`).
pub open spec fn round_half_even(a: nat, b: nat) -> nat {
    let q = a / b;
    let r = a % b;
    if 2 * r > b {
        q + 1
    } else if 2 * r == b {
        if q % 2 == 1 {
            q + 1
        } else {
            q
        }
    } else {
        q
    }
}

/// `a / b` rounded to the nearest integer, ties away from zero (`b > 0`).
pub open spec fn round_half_up(a: nat, b: nat) -> nat {
    let q = a / b;
    let r = a % b;
    if 2 * r >= b {
        q + 1
    } else {
        q
    }
}

/// `2^e`.
pub open spec fn pow2n(e: nat) -> nat
    decreases e,
{
    if e == 0 {
        1
    } else {
        2 * pow2n((e - 1) as nat)
    }
}

/// Twice the distance of `a / b` from the nearest tie between two integers,
/// in units of `1 / b`.
pub open spec fn tie_gap(a: nat, b: nat) -> nat {
    let r = a % b;
    if 2 * r >= b {
        (2 * r - b) as nat
    } else {
        (b - 2 * r) as nat
    }
}

/// `a / b` lies within `(a / b) * 2^-e` of a tie between two integers, so a
/// float computation of it with relative error below `2^-e` may land on
/// either side of the tie.
pub open spec fn near_tie(a: nat, b: nat, e: nat) -> bool {
    tie_gap(a, b) * pow2n(e) <= 2 * a
}

/// What `q` can be when `a / b` is computed in floating point with relative
/// error below `2^-e` and then rounded to an integer: the nearest integer
/// unless `a / b` is near a tie; and, while that error stays below a half,
/// one of the integers next to `a / b`.
pub open spec fn float_round(q: nat, a: nat, b: nat, e: nat) -> bool {
    &&& !near_tie(a, b, e) ==> q == round_half_up(a, b)
    &&& 2 * a < b * pow2n(e) ==> (q == a / b || (q == a / b + 1 && a % b != 0))
}

/// Exact rounding half up is one of the roundings a float computation gives.
pub proof fn lemma_half_up_is_float_round(a: nat, b: nat, e: nat)
    requires
        b > 0,
    ensures
        float_round(round_half_up(a, b), a, b, e),
{
}

/// Exact rounding half to even is one of the roundings a float computation gives.
pub proof fn lemma_half_even_is_float_round(a: nat, b: nat, e: nat)
    requires
        b > 0,
    ensures
        float_round(round_half_even(a, b), a, b, e),
{
    if tie_gap(a, b) == 0 {
        assert(tie_gap(a, b) * pow2n(e) == 0);
        assert(near_tie(a, b, e));
    }
}

/// `n` rendered with at least two digits (`{:02}`).
pub open spec fn pad2(n: nat) -> Seq<char> {
    if n < 10 {
        seq!['0'] + dec(n)
    } else {
        dec(n)
    }
}

/// `c` repeated `n` times.
pub open spec fn repeat(c: char, n: nat) -> Seq<char> {
    Seq::new(n, |i: int| c)
}

/// ASCII lower-casing of one character; every other character is kept.
pub open spec fn ascii_lower_char(c: char) -> char {
    if 'A' <= c && c <= 'Z' {
        ((c as u32) + 32) as char
    } else {
        c
    }
}

/// ASCII lower-casing of a whole text.
pub open spec fn ascii_lower(s: Seq<char>) -> Seq<char> {
    s.map_values(|c: char| ascii_lower_char(c))
}

/// `needle` occurs in `hay` starting at position `i`.
pub open spec fn occurs_at(hay: Seq<char>, needle: Seq<char>, i: int) -> bool {
    0 <= i && i + needle.len() <= hay.len() && hay.subrange(i, i + needle.len()) == needle
}

/// `needle` occurs somewhere in `hay` (the empty needle occurs everywhere).
pub open spec fn contains_seq(hay: Seq<char>, needle: Seq<char>) -> bool {
    exists|i: int| occurs_at(hay, needle, i)
}

/// Appends one character to a `String` (a call of `String::push`).
#[verifier::external_body]
pub(crate) fn push_char(s: &mut String, c: char)
    ensures
        final(s)@ == old(s)@.push(c),
{
    s.push(c);
}

/// Appends a text to a `String`.
pub(crate) fn push_str(s: &mut String, t: &str)
    ensures
        final(s)@ == old(s)@ + t@,
{
    s.append(t);
}

/// The characters of `s`, in order.
pub fn chars_of(s: &str) -> (v: Vec<char>)
    ensures
        v@ == s@,
{
    let mut v: Vec<char> = Vec::new();
    for c in it: s.chars()
        invariant
            it.seq() == s@,
            v@ == it.seq().take(it.index() as int),
    {
        assert(it.seq().take(it.index() as int + 1) == v@.push(c));
        v.push(c);
    }
    assert(s@.take(s@.len() as int) == s@);
    v
}


/// The digit character for `d < 10`.
pub(crate) fn digit(d: u64) -> (c: char)
    requires
        d < 10,
    ensures
        c == digit_char(d as nat),
{
    let b: u8 = 48u8 + (d as u8);
    b as char
}

/// Appends the decimal rendering of `n`.
pub fn push_dec(s: &mut String, n: u64)
    ensures
        final(s)@ == old(s)@ + dec(n as nat),
    decreases n,
{
    if n >= 10 {
        push_dec(s, n / 10);
    }
    push_char(s, digit(n % 10));
    proof {
        if n >= 10 {
            assert(dec(n as nat) == dec((n / 10) as nat).push(digit_char((n % 10) as nat)));
        }
    }
}

/// Appends the last `k` decimal digits of `n`, zero-padded to exactly `k` characters.
pub fn push_digits_fixed(s: &mut String, n: u64, k: u32)
    ensures
        final(s)@ == old(s)@ + digits_fixed(n as nat, k as nat),
    decreases k,
{
    if k > 0 {
        push_digits_fixed(s, n / 10, k - 1);
        push_char(s, digit(n % 10));
    }
}

/// The `k`-digit fraction `f` with its trailing zeros dropped.
pub open spec fn frac_trimmed(f: nat, k: nat) -> Seq<char>
    decreases k,
{
    if k > 0 && f % 10 == 0 {
        frac_trimmed(f / 10, (k - 1) as nat)
    } else {
        digits_fixed(f, k)
    }
}

/// A frequency in Hz written in MHz the shortest exact way: whole megahertz
/// alone, otherwise with the decimals it needs (`433920000` is `433.92`).
pub open spec fn mhz_text(hz: nat) -> Seq<char> {
    if hz % 1_000_000 == 0 {
        dec(hz / 1_000_000)
    } else {
        dec(hz / 1_000_000).push('.') + frac_trimmed(hz % 1_000_000, 6)
    }
}

/// Appends `hz` written in MHz (see [`mhz_text`]).
pub fn push_mhz(s: &mut String, hz: u64)
    ensures
        final(s)@ == old(s)@ + mhz_text(hz as nat),
{
    push_dec(s, hz / 1_000_000);
    let mut f: u64 = hz % 1_000_000;
    if f != 0 {
        push_char(s, '.');
        let mut k: u32 = 6;
        while k > 0 && f % 10 == 0
            invariant
                k <= 6,
                f < 1_000_000,
                frac_trimmed(f as nat, k as nat) == frac_trimmed((hz % 1_000_000) as nat, 6),
            decreases k,
        {
            f = f / 10;
            k = k - 1;
        }
        push_digits_fixed(s, f, k);
    }
}

/// `10^k` as a machine integer.
pub fn pow10_u64(k: u32) -> (r: u64)
    requires
        k <= 19,
    ensures
        r == pow10(k as nat),
    decreases k,
{
    if k == 0 {
        1
    } else {
        let p = pow10_u64(k - 1);
        proof { lemma_pow10_bound((k - 1) as nat); }
        10 * p
    }
}

/// `10^k <= 10^19` for `k <= 18`, so one more factor of ten still fits in a `u64`.
pub proof fn lemma_pow10_bound(k: nat)
    requires
        k <= 18,
    ensures
        pow10(k) <= 1_000_000_000_000_000_000,
        pow10(k) >= 1,
{
    lemma_pow10_mono(k, 18);
    lemma_pow10_pos(k);
    reveal_with_fuel(pow10, 19);
}

/// `10^i <= 10^j` when `i <= j`.
pub proof fn lemma_pow10_mono(i: nat, j: nat)
    requires
        i <= j,
    ensures
        pow10(i) <= pow10(j),
    decreases j,
{
    if i < j {
        lemma_pow10_mono(i, (j - 1) as nat);
        lemma_pow10_pos((j - 1) as nat);
    }
}

/// Appends `units / 10^k` with exactly `k` decimals.
pub fn push_fixed(s: &mut String, units: u64, k: u32)
    requires
        1 <= k <= 19,
    ensures
        final(s)@ == old(s)@ + fixed(units as nat, k as nat),
{
    let p = pow10_u64(k);
    proof { lemma_pow10_pos(k as nat); }
    push_dec(s, units / p);
    push_char(s, '.');
    push_digits_fixed(s, units % p, k);
}

/// `10^k` is positive.
pub proof fn lemma_pow10_pos(k: nat)
    ensures
        pow10(k) > 0,
    decreases k,
{
    if k > 0 {
        lemma_pow10_pos((k - 1) as nat);
    }
}

/// `a / b` rounded to nearest, ties to even.
pub fn div_round_half_even(a: u128, b: u128) -> (r: u128)
    requires
        b > 0,
    ensures
        r == round_half_even(a as nat, b as nat),
{
    let q = a / b;
    let rem = a % b;
    proof {
        assert(q * b + rem == a) by (nonlinear_arith)
            requires q == a / b, rem == a % b, b > 0;
        assert(rem < b);
        assert(rem > 0 ==> q < u128::MAX) by (nonlinear_arith)
            requires q * b + rem == a, rem < b, a <= u128::MAX;
    }
    if rem > b - rem {
        q + 1
    } else if rem == b - rem {
        if q % 2 == 1 {
            q + 1
        } else {
            q
        }
    } else {
        q
    }
}

/// `a / b` rounded to nearest, ties away from zero.
pub fn div_round_half_up(a: u128, b: u128) -> (r: u128)
    requires
        b > 0,
    ensures
        r == round_half_up(a as nat, b as nat),
{
    let q = a / b;
    let rem = a % b;
    proof {
        assert(q <= a) by (nonlinear_arith)
            requires q == a / b, b > 0;
        assert(q < u128::MAX || rem == 0) by (nonlinear_arith)
            requires q == a / b, rem == a % b, b > 0, a <= u128::MAX;
    }
    if rem >= b - rem {
        q + 1
    } else {
        q
    }
}

/// Appends `n` with at least two digits.
pub fn push_pad2(s: &mut String, n: u64)
    ensures
        final(s)@ == old(s)@ + pad2(n as nat),
{
    if n < 10 {
        push_char(s, '0');
    }
    push_dec(s, n);
    assert(seq!['0'] + dec(n as nat) == seq!['0'].add(dec(n as nat)));
}

/// Appends `c` repeated `n` times.
pub fn push_repeat(s: &mut String, c: char, n: usize)
    ensures
        final(s)@ == old(s)@ + repeat(c, n as nat),
{
    let ghost start = s@;
    let mut i: usize = 0;
    while i < n
        invariant
            i <= n,
            s@ == start + repeat(c, i as nat),
        decreases n - i,
    {
        push_char(s, c);
        i = i + 1;
        assert(repeat(c, i as nat) == repeat(c, (i - 1) as nat).push(c));
    }
}

/// A fresh string holding `c` repeated `n` times.
pub fn repeat_string(c: char, n: usize) -> (r: String)
    ensures
        r@ == repeat(c, n as nat),
{
    let mut r = String::new();
    push_repeat(&mut r, c, n);
    r
}

/// ASCII lower-casing of a character.
pub fn lower_char(c: char) -> (r: char)
    ensures
        r == ascii_lower_char(c),
{
    if 'A' <= c && c <= 'Z' {
        let u: u32 = (c as u32) + 32;
        proof { assert(u <= 0x7a); }
        char_from_ascii(u)
    } else {
        c
    }
}

/// The character for an ASCII code point.
fn char_from_ascii(u: u32) -> (c: char)
    requires
        u < 128,
    ensures
        c == u as char,
{
    let b: u8 = u as u8;
    b as char
}

/// The ASCII lower-cased characters of `s`.
pub fn ascii_lower_chars(s: &str) -> (v: Vec<char>)
    ensures
        v@ == ascii_lower(s@),
{
    let cs = chars_of(s);
    let mut v: Vec<char> = Vec::new();
    let mut i: usize = 0;
    while i < cs.len()
        invariant
            i <= cs.len(),
            cs@ == s@,
            v@ == ascii_lower(cs@.take(i as int)),
        decreases cs.len() - i,
    {
        let c = lower_char(cs[i]);
        v.push(c);
        i = i + 1;
        assert(ascii_lower(cs@.take(i as int)) == ascii_lower(cs@.take(i - 1 as int)).push(c));
    }
    assert(cs@.take(cs.len() as int) == cs@);
    v
}

/// Whether `needle` occurs in `hay` at position `at`.
fn matches_at(hay: &Vec<char>, needle: &Vec<char>, at: usize) -> (r: bool)
    requires
        at + needle.len() <= hay.len(),
    ensures
        r == occurs_at(hay@, needle@, at as int),
{
    let mut j: usize = 0;
    while j < needle.len()
        invariant
            j <= needle.len(),
            at + needle.len() <= hay.len(),
            forall|k: int| 0 <= k < j ==> hay@[at + k] == needle@[k],
        decreases needle.len() - j,
    {
        if hay[at + j] != needle[j] {
            proof {
                if occurs_at(hay@, needle@, at as int) {
                    assert(hay@.subrange(at as int, at + needle.len())[j as int] == hay@[at + j]);
                }
            }
            return false;
        }
        j = j + 1;
    }
    assert(hay@.subrange(at as int, at + needle.len()) =~= needle@);
    true
}

/// Whether `needle` occurs anywhere in `hay`.
pub fn contains_chars(hay: &Vec<char>, needle: &Vec<char>) -> (r: bool)
    ensures
        r == contains_seq(hay@, needle@),
{
    if needle.len() > hay.len() {
        proof {
            assert forall|i: int| !occurs_at(hay@, needle@, i) by {}
        }
        return false;
    }
    if needle.len() == 0 {
        assert(hay@.subrange(0, 0) =~= needle@);
        assert(occurs_at(hay@, needle@, 0));
        return true;
    }
    let last = hay.len() - needle.len();
    let mut i: usize = 0;
    while i < last + 1
        invariant
            last + needle.len() == hay.len(),
            needle.len() > 0,
            i <= last + 1,
            forall|k: int| 0 <= k < i ==> !occurs_at(hay@, needle@, k),
        decreases last + 1 - i,
    {
        if matches_at(hay, needle, i) {
            return true;
        }
        i = i + 1;
    }
    false
}

/// Whether two texts are equal, character for character.
pub fn str_eq(a: &str, b: &str) -> (r: bool)
    ensures
        r == (a@ == b@),
{
    let x = chars_of(a);
    let y = chars_of(b);
    if x.len() != y.len() {
        return false;
    }
    let mut i: usize = 0;
    while i < x.len()
        invariant
            i <= x.len(),
            x.len() == y.len(),
            x@ == a@,
            y@ == b@,
            forall|k: int| 0 <= k < i ==> x@[k] == y@[k],
        decreases x.len() - i,
    {
        if x[i] != y[i] {
            assert(x@[i as int] != y@[i as int]);
            return false;
        }
        i = i + 1;
    }
    assert(x@ =~= y@);
    true
}

/// Bytes taken by `c` in UTF-8.
pub open spec fn utf8_len(c: char) -> nat {
    let u = c as u32;
    if u < 0x80 {
        1
    } else if u < 0x800 {
        2
    } else if u < 0x10000 {
        3
    } else {
        4
    }
}

/// Bytes taken by `s` in UTF-8 (`str::len`).
pub open spec fn byte_len(s: Seq<char>) -> nat
    decreases s.len(),
{
    if s.len() == 0 {
        0
    } else {
        byte_len(s.drop_last()) + utf8_len(s.last())
    }
}

/// The UTF-8 length of `c`.
pub fn utf8_len_of(c: char) -> (n: usize)
    ensures
        n == utf8_len(c),
{
    let u = c as u32;
    if u < 0x80 {
        1
    } else if u < 0x800 {
        2
    } else if u < 0x10000 {
        3
    } else {
        4
    }
}

/// Byte length never shrinks as a text grows.
pub proof fn lemma_byte_len_prefix(s: Seq<char>, i: int)
    requires
        0 <= i <= s.len(),
    ensures
        byte_len(s.take(i)) <= byte_len(s),
    decreases s.len() - i,
{
    if i < s.len() {
        lemma_byte_len_prefix(s, i + 1);
        assert(s.take(i + 1).drop_last() =~= s.take(i));
    } else {
        assert(s.take(i) =~= s);
    }
}

/// `s` padded with spaces on the right to at least `w` characters (`{:<w}`).
pub open spec fn pad_right_spec(s: Seq<char>, w: nat) -> Seq<char> {
    if s.len() < w {
        s + repeat(' ', (w - s.len()) as nat)
    } else {
        s
    }
}

/// `s` left-aligned in a field `w` characters wide.
pub fn pad_right(s: &str, w: usize) -> (r: String)
    ensures
        r@ == pad_right_spec(s@, w as nat),
{
    let chars = chars_of(s);
    let mut r = String::from_str(s);
    if chars.len() < w {
        push_repeat(&mut r, ' ', w - chars.len());
    }
    r
}

/// Whether `s` takes more than `limit` bytes in UTF-8.
pub fn exceeds_bytes(s: &Vec<char>, limit: usize) -> (r: bool)
    ensures
        r == (byte_len(s@) > limit),
{
    let mut i: usize = 0;
    let mut bytes: u128 = 0;
    while i < s.len() && bytes <= limit as u128
        invariant
            i <= s@.len(),
            bytes == byte_len(s@.take(i as int)),
            bytes <= limit + 4,
        decreases s.len() - i,
    {
        assert(s@.take(i + 1 as int).drop_last() =~= s@.take(i as int));
        bytes = bytes + utf8_len_of(s[i]) as u128;
        i = i + 1;
    }
    proof {
        lemma_byte_len_prefix(s@, i as int);
        if i == s.len() {
            assert(s@.take(i as int) =~= s@);
        }
    }
    bytes > limit as u128
}

/// A text takes at least one byte per character.
pub proof fn lemma_byte_len_ge_len(s: Seq<char>)
    ensures
        byte_len(s) >= s.len(),
    decreases s.len(),
{
    if s.len() > 0 {
        lemma_byte_len_ge_len(s.drop_last());
    }
}

} // verus!
