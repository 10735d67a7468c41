//! Device selection, serial numbers, and per-transfer sample statistics.

use vstd::prelude::*;

use crate::dsp::{iq_sample, iq_value};
use crate::parse::{parse_bounded, parse_usize, trim, trim_chars};
use crate::text::{chars_of, push_char, push_str};

verus! {

/// A byte at either rail of the signed 8-bit ADC range (0x80 = −128, 0x7F = +127).
pub open spec fn is_rail_spec(b: u8) -> bool {
    b == 0x80 || b == 0x7F
}

/// Whether a sample byte sits at a rail of the ADC range.
pub fn is_rail_byte(b: u8) -> (r: bool)
    ensures
        r == is_rail_spec(b),
{
    b == 0x80 || b == 0x7F
}

/// Sample pairs the driver dropped from a transfer: half the shortfall of
/// valid bytes against the buffer length, none when nothing is missing.
pub fn dropped_pairs(buffer_length: i32, valid_length: i32) -> (r: u64)
    requires
        valid_length < buffer_length ==> buffer_length - valid_length <= i32::MAX,
    ensures
        r == if valid_length < buffer_length { ((buffer_length - valid_length) / 2) as int } else { 0 },
{
    if valid_length < buffer_length {
        ((buffer_length - valid_length) / 2) as u64
    } else {
        0
    }
}

/// Integer statistics of one transfer of interleaved I/Q bytes.
#[derive(Clone, Copy, Debug, PartialEq, Eq, Structural)]
pub struct TransferStats {
    /// Bytes (I or Q) at a rail of the ADC range.
    pub saturated: u64,
    pub i_sum: i64,
    pub q_sum: i64,
    pub i_sq_sum: i64,
    pub q_sq_sum: i64,
    /// Complete I/Q pairs.
    pub pairs: u64,
}

/// Rail bytes among the first `k` pairs.
pub open spec fn sat_count(buf: Seq<u8>, k: nat) -> nat
    decreases k,
{
    if k == 0 {
        0
    } else {
        sat_count(buf, (k - 1) as nat) + (if is_rail_spec(buf[2 * k - 2]) { 1nat } else { 0nat }) + (
        if is_rail_spec(buf[2 * k - 1]) { 1nat } else { 0nat })
    }
}

/// Sum of `f` over the I (`off = 0`) or Q (`off = 1`) samples of the first `k` pairs.
pub open spec fn comp_sum(buf: Seq<u8>, k: nat, off: int, square: bool) -> int
    decreases k,
{
    if k == 0 {
        0
    } else {
        let x = iq_value(buf[2 * k - 2 + off]);
        comp_sum(buf, (k - 1) as nat, off, square) + (if square { x * x } else { x })
    }
}

/// Bounds on the running sums: `|Σx| <= 128k`, `0 <= Σx² <= 16384k`, rails `<= 2k`.
pub proof fn lemma_sum_bounds(buf: Seq<u8>, k: nat, off: int)
    requires
        0 <= off <= 1,
        2 * k <= buf.len(),
    ensures
        -128 * k <= comp_sum(buf, k, off, false) <= 128 * k,
        0 <= comp_sum(buf, k, off, true) <= 16384 * k,
        sat_count(buf, k) <= 2 * k,
    decreases k,
{
    if k > 0 {
        lemma_sum_bounds(buf, (k - 1) as nat, off);
        let x = iq_value(buf[2 * k - 2 + off]);
        assert(0 <= x * x <= 16384) by (nonlinear_arith) requires -128 <= x <= 127;
    }
}

/// A byte counts as saturated exactly when its signed sample value sits at
/// an end of the 8-bit ADC range, +127 or −128.
pub proof fn lemma_rail_is_range_end(b: u8)
    ensures
        is_rail_spec(b) <==> (iq_value(b) == 127 || iq_value(b) == -128),
{
}

/// The saturation count of the first `k` pairs counts rail samples only: it
/// is zero when no sample there is at +127 or −128, it is every sample when
/// all are, and each further pair adds the number of its two samples that
/// are at a rail.
pub proof fn lemma_sat_count_counts_rails(buf: Seq<u8>, k: nat)
    requires
        2 * k <= buf.len(),
    ensures
        (forall|j: int| 0 <= j < 2 * k ==> iq_value(#[trigger] buf[j]) != 127 && iq_value(buf[j]) != -128)
            ==> sat_count(buf, k) == 0,
        (forall|j: int| 0 <= j < 2 * k ==> iq_value(#[trigger] buf[j]) == 127 || iq_value(buf[j]) == -128)
            ==> sat_count(buf, k) == 2 * k,
        k > 0 ==> sat_count(buf, k) == sat_count(buf, (k - 1) as nat)
            + (if iq_value(buf[2 * k - 2]) == 127 || iq_value(buf[2 * k - 2]) == -128 { 1nat } else { 0nat })
            + (if iq_value(buf[2 * k - 1]) == 127 || iq_value(buf[2 * k - 1]) == -128 { 1nat } else { 0nat }),
    decreases k,
{
    if k > 0 {
        lemma_sat_count_counts_rails(buf, (k - 1) as nat);
        lemma_rail_is_range_end(buf[2 * k - 2]);
        lemma_rail_is_range_end(buf[2 * k - 1]);
        let a = buf[2 * k - 2];
        let b = buf[2 * k - 1];
        if forall|j: int| 0 <= j < 2 * k ==> iq_value(#[trigger] buf[j]) != 127 && iq_value(buf[j]) != -128 {
            assert(iq_value(buf[2 * k - 2]) != 127);
            assert(iq_value(buf[2 * k - 1]) != 127);
        }
        if forall|j: int| 0 <= j < 2 * k ==> iq_value(#[trigger] buf[j]) == 127 || iq_value(buf[j]) == -128 {
            assert(iq_value(buf[2 * k - 2]) == 127 || iq_value(buf[2 * k - 2]) == -128);
            assert(iq_value(buf[2 * k - 1]) == 127 || iq_value(buf[2 * k - 1]) == -128);
        }
    }
}

/// Statistics of one transfer: rail bytes, sums and sums of squares of I
/// and Q, and the number of complete pairs (a trailing odd byte is ignored).
pub fn transfer_stats(buf: &[u8]) -> (r: TransferStats)
    requires
        (buf@.len() / 2) * 16384 <= i64::MAX,
    ensures
        r.pairs == buf@.len() / 2,
        r.saturated == sat_count(buf@, (buf@.len() / 2) as nat),
        r.i_sum == comp_sum(buf@, (buf@.len() / 2) as nat, 0, false),
        r.q_sum == comp_sum(buf@, (buf@.len() / 2) as nat, 1, false),
        r.i_sq_sum == comp_sum(buf@, (buf@.len() / 2) as nat, 0, true),
        r.q_sq_sum == comp_sum(buf@, (buf@.len() / 2) as nat, 1, true),
{
    let pairs = buf.len() / 2;
    let mut saturated: u64 = 0;
    let mut i_sum: i64 = 0;
    let mut q_sum: i64 = 0;
    let mut i_sq: i64 = 0;
    let mut q_sq: i64 = 0;
    let mut k: usize = 0;
    while k < pairs
        invariant
            k <= pairs,
            pairs == buf@.len() / 2,
            pairs * 16384 <= i64::MAX,
            saturated == sat_count(buf@, k as nat),
            i_sum == comp_sum(buf@, k as nat, 0, false),
            q_sum == comp_sum(buf@, k as nat, 1, false),
            i_sq == comp_sum(buf@, k as nat, 0, true),
            q_sq == comp_sum(buf@, k as nat, 1, true),
        decreases pairs - k,
    {
        proof {
            assert(2 * k + 1 < buf.len());
            lemma_sum_bounds(buf@, k as nat, 0);
            lemma_sum_bounds(buf@, k as nat, 1);
        }
        let bi = buf[2 * k];
        let bq = buf[2 * k + 1];
        let i = iq_sample(bi) as i64;
        let q = iq_sample(bq) as i64;
        proof {
            assert(0 <= i * i <= 16384) by (nonlinear_arith) requires -128 <= i <= 127;
            assert(0 <= q * q <= 16384) by (nonlinear_arith) requires -128 <= q <= 127;
        }
        i_sum = i_sum + i;
        q_sum = q_sum + q;
        i_sq = i_sq + i * i;
        q_sq = q_sq + q * q;
        if is_rail_byte(bi) {
            saturated = saturated + 1;
        }
        if is_rail_byte(bq) {
            saturated = saturated + 1;
        }
        k = k + 1;
    }
    TransferStats { saturated, i_sum, q_sum, i_sq_sum: i_sq, q_sq_sum: q_sq, pairs: pairs as u64 }
}

/// Lower-case hexadecimal digit for `d < 16`.
pub open spec fn hex_char(d: nat) -> char {
    if d < 10 {
        (48 + d) as char
    } else {
        (87 + d) as char
    }
}

/// The last `k` hexadecimal digits of `n`, zero-padded to exactly `k` characters.
pub open spec fn hex_fixed(n: nat, k: nat) -> Seq<char>
    decreases k,
{
    if k == 0 {
        Seq::empty()
    } else {
        hex_fixed(n / 16, (k - 1) as nat).push(hex_char(n % 16))
    }
}

/// `hex_fixed(n, k)` has exactly `k` characters, each a hexadecimal digit.
pub proof fn lemma_hex_fixed_len(n: nat, k: nat)
    ensures
        hex_fixed(n, k).len() == k,
        forall|i: int|
            0 <= i < k ==> {
                let c = #[trigger] hex_fixed(n, k)[i];
                ('0' <= c && c <= '9') || ('a' <= c && c <= 'f')
            },
    decreases k,
{
    if k > 0 {
        lemma_hex_fixed_len(n / 16, (k - 1) as nat);
    }
}

/// The hexadecimal digit character for `d < 16`.
fn hex_digit(d: u32) -> (c: char)
    requires
        d < 16,
    ensures
        c == hex_char(d as nat),
{
    let b: u8 = if d < 10 { 48u8 + (d as u8) } else { 87u8 + (d as u8) };
    b as char
}

/// Appends the last `k` hex digits of `n`, zero-padded.
pub(crate) fn push_hex_fixed(s: &mut String, n: u32, k: u32)
    ensures
        final(s)@ == old(s)@ + hex_fixed(n as nat, k as nat),
    decreases k,
{
    if k > 0 {
        push_hex_fixed(s, n / 16, k - 1);
        push_char(s, hex_digit(n % 16));
    }
}

/// The board serial number: its four 32-bit words as eight lower-case hex
/// digits each (`{:08x}` four times).
pub fn format_serial(words: &[u32; 4]) -> (r: String)
    ensures
        r@ == hex_fixed(words@[0] as nat, 8) + hex_fixed(words@[1] as nat, 8) + hex_fixed(
            words@[2] as nat,
            8,
        ) + hex_fixed(words@[3] as nat, 8),
        r@.len() == 32,
{
    proof {
        lemma_hex_fixed_len(words@[0] as nat, 8);
        lemma_hex_fixed_len(words@[1] as nat, 8);
        lemma_hex_fixed_len(words@[2] as nat, 8);
        lemma_hex_fixed_len(words@[3] as nat, 8);
    }
    let mut s = String::new();
    push_hex_fixed(&mut s, words[0], 8);
    push_hex_fixed(&mut s, words[1], 8);
    push_hex_fixed(&mut s, words[2], 8);
    push_hex_fixed(&mut s, words[3], 8);
    s
}

/// Why opening a device failed.
#[derive(Clone, Copy, Debug, PartialEq, Eq, Structural)]
pub enum OpenError {
    /// No device is connected.
    NoDevice,
    /// Several devices, none with a readable serial number.
    NoValidSerials,
    /// The index typed at the prompt is not a listed device.
    InvalidIndex,
}

/// What to do with the device list.
#[derive(Clone, Copy, Debug, PartialEq, Eq, Structural)]
pub enum Selection {
    /// Open the device at this index.
    Use(usize),
    /// List the serial numbers and ask which device to open.
    Ask,
    /// Give up with this error.
    Fail(OpenError),
}

/// The first step of opening a device given `count` connected devices of
/// which `valid_serials` report a serial number: none is an error, one is
/// opened directly, several need a choice — unless none has a serial.
pub fn device_selection(count: usize, valid_serials: usize) -> (r: Selection)
    ensures
        count == 0 ==> r == Selection::Fail(OpenError::NoDevice),
        count == 1 ==> r == Selection::Use(0),
        count > 1 && valid_serials == 0 ==> r == Selection::Fail(OpenError::NoValidSerials),
        count > 1 && valid_serials > 0 ==> r == Selection::Ask,
{
    if count == 0 {
        Selection::Fail(OpenError::NoDevice)
    } else if count == 1 {
        Selection::Use(0)
    } else if valid_serials == 0 {
        Selection::Fail(OpenError::NoValidSerials)
    } else {
        Selection::Ask
    }
}

/// The device index typed at the selection prompt: the text, trimmed, read
/// as an unsigned decimal, and accepted only if it names one of the `count`
/// listed devices.
pub open spec fn chosen_index(input: Seq<char>, count: nat) -> Option<nat> {
    match parse_bounded(trim(input), usize::MAX as nat) {
        Some(v) => if v < count { Some(v) } else { None },
        None => None,
    }
}

/// Reads the answer to the device prompt; anything but the index of a listed
/// device is [`OpenError::InvalidIndex`].
pub fn parse_device_index(input: &str, count: usize) -> (r: Result<usize, OpenError>)
    ensures
        r matches Ok(i) ==> chosen_index(input@, count as nat) == Some(i as nat),
        r is Err ==> chosen_index(input@, count as nat) is None && r == Err::<usize, OpenError>(
            OpenError::InvalidIndex,
        ),
{
    let chars = chars_of(input);
    let trimmed = trim_chars(&chars);
    match parse_usize(&trimmed) {
        Some(idx) => {
            if idx >= count {
                Err(OpenError::InvalidIndex)
            } else {
                Ok(idx)
            }
        },
        None => Err(OpenError::InvalidIndex),
    }
}

} // verus!
