//! Built-in colour themes, by name.

use vstd::prelude::*;

use crate::hardware::device::{hex_char, hex_fixed};
use crate::parse::{is_ws, sign_stripped, trim, trim_chars, trim_end, trim_start};
use crate::text::{byte_len, chars_of, lemma_byte_len_prefix, str_eq, utf8_len_of};

verus! {

/// The built-in themes.
#[derive(Clone, Copy, Debug, PartialEq, Eq, Structural)]
pub enum ThemeKind {
    Sdr,
    Nord,
    Dracula,
    Gruvbox,
    Catppuccin,
    Solarized,
}

impl ThemeKind {
    /// The configuration name of a theme.
    pub open spec fn name_spec(self) -> Seq<char> {
        match self {
            ThemeKind::Sdr => "sdr"@,
            ThemeKind::Nord => "nord"@,
            ThemeKind::Dracula => "dracula"@,
            ThemeKind::Gruvbox => "gruvbox"@,
            ThemeKind::Catppuccin => "catppuccin"@,
            ThemeKind::Solarized => "solarized"@,
        }
    }

    /// The theme a configuration name selects: one of the five named
    /// alternatives, `sdr` for every other name.
    pub open spec fn by_name_spec(name: Seq<char>) -> ThemeKind {
        if name == "nord"@ {
            ThemeKind::Nord
        } else if name == "dracula"@ {
            ThemeKind::Dracula
        } else if name == "gruvbox"@ {
            ThemeKind::Gruvbox
        } else if name == "catppuccin"@ {
            ThemeKind::Catppuccin
        } else if name == "solarized"@ {
            ThemeKind::Solarized
        } else {
            ThemeKind::Sdr
        }
    }

    /// The configuration name of a theme.
    pub fn name(self) -> (r: &'static str)
        ensures
            r@ == self.name_spec(),
    {
        match self {
            ThemeKind::Sdr => "sdr",
            ThemeKind::Nord => "nord",
            ThemeKind::Dracula => "dracula",
            ThemeKind::Gruvbox => "gruvbox",
            ThemeKind::Catppuccin => "catppuccin",
            ThemeKind::Solarized => "solarized",
        }
    }

    /// The built-in theme called `name`; unknown names fall back to `sdr`.
    pub fn by_name(name: &str) -> (r: ThemeKind)
        ensures
            r == ThemeKind::by_name_spec(name@),
    {
        if str_eq(name, "nord") {
            ThemeKind::Nord
        } else if str_eq(name, "dracula") {
            ThemeKind::Dracula
        } else if str_eq(name, "gruvbox") {
            ThemeKind::Gruvbox
        } else if str_eq(name, "catppuccin") {
            ThemeKind::Catppuccin
        } else if str_eq(name, "solarized") {
            ThemeKind::Solarized
        } else {
            ThemeKind::Sdr
        }
    }
}

/// The six theme names select their themes and every other name, in
/// particular an empty or misspelt one, falls back to `sdr`.
pub proof fn lemma_theme_names(name: Seq<char>)
    ensures
        name == "nord"@ ==> ThemeKind::by_name_spec(name) == ThemeKind::Nord,
        name == "dracula"@ ==> ThemeKind::by_name_spec(name) == ThemeKind::Dracula,
        name == "gruvbox"@ ==> ThemeKind::by_name_spec(name) == ThemeKind::Gruvbox,
        name == "catppuccin"@ ==> ThemeKind::by_name_spec(name) == ThemeKind::Catppuccin,
        name == "solarized"@ ==> ThemeKind::by_name_spec(name) == ThemeKind::Solarized,
        name != "nord"@ && name != "dracula"@ && name != "gruvbox"@ && name != "catppuccin"@ && name
            != "solarized"@ ==> ThemeKind::by_name_spec(name) == ThemeKind::Sdr,
{
    reveal_strlit("sdr");
    reveal_strlit("nord");
    reveal_strlit("dracula");
    reveal_strlit("gruvbox");
    reveal_strlit("catppuccin");
    reveal_strlit("solarized");
    assert("sdr"@[0] != "nord"@[0]);
    assert("sdr"@.len() != "dracula"@.len());
    assert("sdr"@.len() != "gruvbox"@.len());
    assert("sdr"@.len() != "catppuccin"@.len());
    assert("sdr"@.len() != "solarized"@.len());
    assert("nord"@.len() != "dracula"@.len());
    assert("nord"@.len() != "gruvbox"@.len());
    assert("nord"@.len() != "catppuccin"@.len());
    assert("nord"@.len() != "solarized"@.len());
    assert("dracula"@[0] != "gruvbox"@[0]);
    assert("dracula"@.len() != "catppuccin"@.len());
    assert("dracula"@.len() != "solarized"@.len());
    assert("gruvbox"@.len() != "catppuccin"@.len());
    assert("gruvbox"@.len() != "solarized"@.len());
    assert("catppuccin"@.len() != "solarized"@.len());
}

/// Looking a theme up by its own name gives that theme back.
pub proof fn lemma_theme_name_round_trip(k: ThemeKind)
    ensures
        ThemeKind::by_name_spec(k.name_spec()) == k,
{
    reveal_strlit("sdr");
    reveal_strlit("nord");
    reveal_strlit("dracula");
    reveal_strlit("gruvbox");
    reveal_strlit("catppuccin");
    reveal_strlit("solarized");
    assert("sdr"@[0] != "nord"@[0]);
    assert("sdr"@.len() != "dracula"@.len());
    assert("sdr"@.len() != "gruvbox"@.len());
    assert("sdr"@.len() != "catppuccin"@.len());
    assert("sdr"@.len() != "solarized"@.len());
    assert("nord"@.len() != "dracula"@.len());
    assert("nord"@.len() != "gruvbox"@.len());
    assert("nord"@.len() != "catppuccin"@.len());
    assert("nord"@.len() != "solarized"@.len());
    assert("dracula"@[0] != "gruvbox"@[0]);
    assert("dracula"@.len() != "catppuccin"@.len());
    assert("dracula"@.len() != "solarized"@.len());
    assert("gruvbox"@.len() != "catppuccin"@.len());
    assert("gruvbox"@.len() != "solarized"@.len());
    assert("catppuccin"@.len() != "solarized"@.len());
}

/// Byte offset `k` of `s` falls between two characters.
pub open spec fn is_boundary(s: Seq<char>, k: nat) -> bool {
    exists|i: int| 0 <= i <= s.len() && byte_len(#[trigger] s.take(i)) == k
}

/// Every character of `s` is ASCII.
pub open spec fn all_ascii(s: Seq<char>) -> bool {
    forall|i: int| 0 <= i < s.len() ==> (#[trigger] s[i] as u32) < 0x80
}

/// Whether `c` is a hexadecimal digit (either case).
pub open spec fn is_hex(c: char) -> bool {
    ('0' <= c && c <= '9') || ('a' <= c && c <= 'f') || ('A' <= c && c <= 'F')
}

/// The value of hexadecimal digit `c`.
pub open spec fn hex_val(c: char) -> nat {
    if '0' <= c && c <= '9' {
        (c as u32 - 48) as nat
    } else if 'a' <= c && c <= 'f' {
        (c as u32 - 87) as nat
    } else {
        (c as u32 - 55) as nat
    }
}

/// The value of a string of hexadecimal digits.
pub open spec fn hex_value(d: Seq<char>) -> nat
    decreases d.len(),
{
    if d.len() == 0 {
        0
    } else {
        16 * hex_value(d.drop_last()) + hex_val(d.last())
    }
}

/// A byte written in hexadecimal (`u8::from_str_radix(p, 16)`): an optional
/// `+`, then one or more hexadecimal digits, worth at most 255.
pub open spec fn hex_byte(p: Seq<char>) -> Option<nat> {
    let d = sign_stripped(p);
    if d.len() > 0 && (forall|i: int| 0 <= i < d.len() ==> is_hex(#[trigger] d[i])) && hex_value(d)
        <= 255 {
        Some(hex_value(d))
    } else {
        None
    }
}

/// The colour a `#rrggbb` text denotes: after trimming whitespace, a `#` and
/// six bytes, read as three two-byte hexadecimal pieces.  Six bytes that are
/// not all ASCII hold a character that is no hexadecimal digit.
pub open spec fn parse_hex_spec(s: Seq<char>) -> Option<(nat, nat, nat)> {
    let t = trim(s);
    if t.len() > 0 && t[0] == '#' {
        let b = t.drop_first();
        if byte_len(b) == 6 && all_ascii(b) {
            match (
                hex_byte(b.subrange(0, 2)),
                hex_byte(b.subrange(2, 4)),
                hex_byte(b.subrange(4, 6)),
            ) {
                (Some(r), Some(g), Some(bl)) => Some((r, g, bl)),
                _ => None,
            }
        } else {
            None
        }
    } else {
        None
    }
}

/// Cutting the six bytes after the `#` at byte offsets 2 and 4 falls between
/// characters (otherwise slicing the text there would panic).
pub open spec fn hex_slices_ok(s: Seq<char>) -> bool {
    let t = trim(s);
    let b = t.drop_first();
    t.len() > 0 && t[0] == '#' && byte_len(b) == 6 ==> is_boundary(b, 2) && is_boundary(b, 4)
}

/// Byte length equals character count exactly when every character is ASCII.
proof fn lemma_byte_len_ascii(s: Seq<char>)
    ensures
        byte_len(s) >= s.len(),
        byte_len(s) == s.len() <==> all_ascii(s),
    decreases s.len(),
{
    if s.len() > 0 {
        lemma_byte_len_ascii(s.drop_last());
        if all_ascii(s) {
            assert(all_ascii(s.drop_last())) by {
                assert forall|i: int| 0 <= i < s.drop_last().len() implies (
                #[trigger] s.drop_last()[i] as u32) < 0x80 by {
                    assert(s.drop_last()[i] == s[i]);
                }
            }
            assert((s[s.len() - 1] as u32) < 0x80);
        }
        if byte_len(s) == s.len() {
            assert forall|i: int| 0 <= i < s.len() implies (#[trigger] s[i] as u32) < 0x80 by {
                if i < s.len() - 1 {
                    assert(s.drop_last()[i] == s[i]);
                }
            }
        }
    }
}

/// Whether `c` is a hexadecimal digit, and its value.
fn hex_digit_value(c: char) -> (r: Option<u8>)
    ensures
        r matches Some(v) ==> is_hex(c) && v == hex_val(c),
        r is None ==> !is_hex(c),
{
    if '0' <= c && c <= '9' {
        Some((c as u32 - 48) as u8)
    } else if 'a' <= c && c <= 'f' {
        Some((c as u32 - 87) as u8)
    } else if 'A' <= c && c <= 'F' {
        Some((c as u32 - 55) as u8)
    } else {
        None
    }
}

/// Reads a two-character piece as a hexadecimal byte.
fn hex_pair(a: char, b: char) -> (r: Option<u8>)
    ensures
        r matches Some(v) ==> hex_byte(seq![a, b]) == Some(v as nat),
        r is None ==> hex_byte(seq![a, b]) is None,
{
    let ghost p = seq![a, b];
    assert(p.drop_last() =~= seq![a]);
    assert(seq![a].drop_last() =~= Seq::<char>::empty());
    let lo = hex_digit_value(b);
    if a == '+' {
        assert(sign_stripped(p) =~= seq![b]);
        match lo {
            Some(v) => {
                assert(hex_value(seq![b]) == hex_val(b)) by {
                    assert(seq![b].drop_last() =~= Seq::<char>::empty());
                    assert(seq![b].last() == b);
                    assert(hex_value(Seq::<char>::empty()) == 0);
                }
                assert(hex_val(b) < 16);
                Some(v)
            },
            None => None,
        }
    } else {
        assert(sign_stripped(p) == p);
        match (hex_digit_value(a), lo) {
            (Some(h), Some(l)) => {
                assert(hex_value(seq![a]) == hex_val(a)) by {
                    assert(seq![a].last() == a);
                    assert(hex_value(Seq::<char>::empty()) == 0);
                }
                assert(p.last() == b);
                assert(hex_value(p) == 16 * hex_val(a) + hex_val(b));
                assert(hex_val(a) < 16 && hex_val(b) < 16);
                Some(h * 16 + l)
            },
            (None, _) => {
                assert(!is_hex(p[0]));
                None
            },
            (_, None) => {
                assert(!is_hex(p[1]));
                None
            },
        }
    }
}

/// Reads a `#rrggbb` colour; `None` for anything else.
pub fn parse_hex(s: &str) -> (r: Option<(u8, u8, u8)>)
    requires
        hex_slices_ok(s@),
    ensures
        r matches Some((x, y, z)) ==> parse_hex_spec(s@) == Some((x as nat, y as nat, z as nat)),
        r is None ==> parse_hex_spec(s@) is None,
{
    let chars = chars_of(s);
    let t = trim_chars(&chars);
    if t.len() == 0 || t[0] != '#' {
        return None;
    }
    let ghost b = t@.drop_first();
    let n = t.len();
    let mut i: usize = 1;
    let mut bytes: usize = 0;
    while i < n && bytes <= 6
        invariant
            1 <= i <= n,
            n == t@.len(),
            b == t@.drop_first(),
            bytes == byte_len(b.take(i - 1)),
        decreases n - i,
    {
        assert(b.take(i as int).drop_last() =~= b.take(i - 1));
        bytes = bytes + utf8_len_of(t[i]);
        i = i + 1;
    }
    proof {
        lemma_byte_len_prefix(b, i - 1);
        if i == n {
            assert(b.take(i - 1) =~= b);
        }
        lemma_byte_len_ascii(b);
    }
    if bytes != 6 || i != n || n != 7 {
        return None;
    }
    assert(b.subrange(0, 2) =~= seq![t@[1], t@[2]]);
    assert(b.subrange(2, 4) =~= seq![t@[3], t@[4]]);
    assert(b.subrange(4, 6) =~= seq![t@[5], t@[6]]);
    match (hex_pair(t[1], t[2]), hex_pair(t[3], t[4]), hex_pair(t[5], t[6])) {
        (Some(x), Some(y), Some(z)) => Some((x, y, z)),
        _ => None,
    }
}

/// The two hexadecimal digits written for a byte read back as that byte.
proof fn lemma_hex_byte_digits(n: nat)
    requires
        n < 256,
    ensures
        hex_fixed(n, 2).len() == 2,
        hex_fixed(n, 2)[0] == hex_char(n / 16),
        hex_fixed(n, 2)[1] == hex_char(n % 16),
        hex_byte(hex_fixed(n, 2)) == Some(n),
{
    let h = hex_fixed(n, 2);
    assert(n / 16 / 16 == 0);
    assert((n / 16) % 16 == n / 16);
    assert(hex_fixed(n / 16, 1) == seq![hex_char((n / 16) % 16)]) by {
        assert(hex_fixed(n / 16 / 16, 0) == Seq::<char>::empty());
    }
    assert(h =~= seq![hex_char(n / 16), hex_char(n % 16)]);
    let hi = n / 16;
    let lo = n % 16;
    assert(hex_val(hex_char(hi)) == hi);
    assert(hex_val(hex_char(lo)) == lo);
    assert(sign_stripped(h) == h);
    assert(h.drop_last() =~= seq![hex_char(hi)]);
    assert(seq![hex_char(hi)].drop_last() =~= Seq::<char>::empty());
    assert(hex_value(seq![hex_char(hi)]) == hi) by {
        assert(seq![hex_char(hi)].last() == hex_char(hi));
        assert(hex_value(Seq::<char>::empty()) == 0);
    }
    assert(hex_value(h) == 16 * hi + lo);
    assert(16 * hi + lo == n);
    assert(forall|i: int| 0 <= i < h.len() ==> is_hex(#[trigger] h[i]));
}

/// A colour written as `#rrggbb` with lower-case hexadecimal digits reads
/// back as the same three bytes.
pub proof fn lemma_hex_round_trip(r: u8, g: u8, b: u8)
    ensures
        parse_hex_spec(seq!['#'] + hex_fixed(r as nat, 2) + hex_fixed(g as nat, 2) + hex_fixed(
            b as nat,
            2,
        )) == Some((r as nat, g as nat, b as nat)),
        hex_slices_ok(seq!['#'] + hex_fixed(r as nat, 2) + hex_fixed(g as nat, 2) + hex_fixed(
            b as nat,
            2,
        )),
{
    let hr = hex_fixed(r as nat, 2);
    let hg = hex_fixed(g as nat, 2);
    let hb = hex_fixed(b as nat, 2);
    lemma_hex_byte_digits(r as nat);
    lemma_hex_byte_digits(g as nat);
    lemma_hex_byte_digits(b as nat);
    let s = seq!['#'] + hr + hg + hb;
    let body = hr + hg + hb;
    assert(s.len() == 7);
    assert(s.drop_first() =~= body);
    assert(!is_ws(s[0]));
    assert(trim_start(s) == s);
    assert(s.last() == hb[1]);
    assert(!is_ws(s.last()));
    assert(trim_end(s) == s);
    assert(trim(s) == s);
    assert(all_ascii(body)) by {
        assert forall|i: int| 0 <= i < body.len() implies (#[trigger] body[i] as u32) < 0x80 by {
            if i < 2 {
                assert(body[i] == hr[i]);
            } else if i < 4 {
                assert(body[i] == hg[i - 2]);
            } else {
                assert(body[i] == hb[i - 4]);
            }
        }
    }
    lemma_byte_len_ascii(body);
    assert(body.subrange(0, 2) =~= hr);
    assert(body.subrange(2, 4) =~= hg);
    assert(body.subrange(4, 6) =~= hb);
    assert(is_boundary(body, 2)) by {
        assert(body.take(2) =~= hr);
        lemma_byte_len_ascii(hr);
        assert(all_ascii(hr));
    }
    assert(is_boundary(body, 4)) by {
        assert(body.take(4) =~= hr + hg);
        lemma_byte_len_ascii(hr + hg);
        assert forall|i: int| 0 <= i < (hr + hg).len() implies ((#[trigger] (hr + hg)[i]) as u32)
            < 0x80 by {
            assert((hr + hg)[i] == body[i]);
        }
    }
}

} // verus!
