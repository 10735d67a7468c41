//! Integer side of the spectrum pipeline: I/Q byte decoding and FFT bin order.

use vstd::prelude::*;

verus! {

/// Signed value of an 8-bit I/Q sample byte (two's complement).
pub open spec fn iq_value(b: u8) -> int {
    if b < 128 {
        b as int
    } else {
        b as int - 256
    }
}

/// Decodes one I/Q sample byte as a signed 8-bit value.
pub fn iq_sample(b: u8) -> (r: i8)
    ensures
        r as int == iq_value(b),
{
    if b < 128 {
        b as i8
    } else {
        ((b as i16) - 256) as i8
    }
}

/// A sample byte is read as two's complement: the value lies in −128..=127
/// and agrees with the byte modulo 256, so bytes below 0x80 are themselves
/// and the rest count down from −128 at 0x80 to −1 at 0xFF.
pub proof fn lemma_iq_value_twos_complement(b: u8)
    ensures
        -128 <= iq_value(b) <= 127,
        (iq_value(b) - b) % 256 == 0,
        b <= 0x7F ==> iq_value(b) == b,
        b >= 0x80 ==> iq_value(b) < 0,
{
}

/// The FFT output reordered so that the zero-frequency bin sits in the
/// middle: the upper half first, then the lower half.
pub open spec fn fft_shift_spec<T>(v: Seq<T>) -> Seq<T> {
    v.subrange((v.len() / 2) as int, v.len() as int) + v.subrange(0, (v.len() / 2) as int)
}

/// Rotates FFT bins by half their count so DC lands at the centre.
pub fn fft_shift<T: Copy>(v: &[T]) -> (r: Vec<T>)
    ensures
        r@ == fft_shift_spec(v@),
{
    let n = v.len();
    let half = n / 2;
    let mut r: Vec<T> = Vec::with_capacity(n);
    let mut i: usize = half;
    while i < n
        invariant
            half <= i <= n,
            n == v@.len(),
            half == n / 2,
            r@ == v@.subrange(half as int, i as int),
        decreases n - i,
    {
        r.push(v[i]);
        i = i + 1;
        assert(r@ =~= v@.subrange(half as int, i as int));
    }
    let mut j: usize = 0;
    while j < half
        invariant
            j <= half,
            n == v@.len(),
            half == n / 2,
            r@ == v@.subrange(half as int, n as int) + v@.subrange(0, j as int),
        decreases half - j,
    {
        r.push(v[j]);
        j = j + 1;
        assert(r@ =~= v@.subrange(half as int, n as int) + v@.subrange(0, j as int));
    }
    r
}

/// For at least two bins, after the shift the zero-frequency bin (input 0)
/// sits at index `n - n/2` (the centre, `n/2`, for even lengths), and for
/// even lengths the shift undoes itself.
pub proof fn lemma_fft_shift<T>(v: Seq<T>)
    requires
        v.len() >= 2,
    ensures
        fft_shift_spec(v)[v.len() - v.len() / 2] == v[0],
        v.len() % 2 == 0 ==> fft_shift_spec(v)[(v.len() / 2) as int] == v[0],
        v.len() % 2 == 0 ==> fft_shift_spec(fft_shift_spec(v)) == v,
        fft_shift_spec(v).len() == v.len(),
{
    let n = v.len();
    let s = fft_shift_spec(v);
    assert(s[n - n / 2] == v.subrange(0, (n / 2) as int)[0]);
    if n % 2 == 0 {
        assert(fft_shift_spec(s) =~= v);
    }
}

/// Number of lowest bins averaged for the noise-floor estimate: a tenth of
/// them, at least one.
pub fn noise_floor_count(bins: usize) -> (r: usize)
    ensures
        r == (if bins / 10 > 1 { bins / 10 } else { 1 }),
{
    let c = bins / 10;
    if c > 1 {
        c
    } else {
        1
    }
}

} // verus!
