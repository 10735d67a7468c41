//! Observer-mode view of a radio held by another program.

use vstd::prelude::*;

use crate::text::{byte_len, chars_of, dec, exceeds_bytes, lemma_byte_len_ge_len, push_char, push_dec, push_str};
use crate::ui::panel::Panel;

verus! {

/// Device identity and owning process, when another program holds the radio.
pub struct ObserverPanel;

impl Panel for ObserverPanel {
    fn name(&self) -> (r: &'static str)
        ensures
            r@ == "observer"@,
    {
        "observer"
    }

    fn min_size(&self) -> (r: (u16, u16))
        ensures
            r == (40u16, 10u16),
    {
        (40, 10)
    }
}


/// The owner's command line as shown on a panel `width` columns wide: indented
/// two columns, and cut to `width - 5` characters plus `…` when it is longer
/// than `width - 4` bytes.
pub open spec fn cmdline_spec(cmdline: Seq<char>, width: nat) -> Seq<char> {
    let limit = if width >= 4 { (width - 4) as nat } else { 0 };
    let keep = if width >= 5 { (width - 5) as nat } else { 0 };
    if byte_len(cmdline) > limit {
        "  "@ + cmdline.take(if keep < cmdline.len() { keep as int } else { cmdline.len() as int }) + "…"@
    } else {
        "  "@ + cmdline
    }
}

/// The indented, possibly shortened, command line of the owning process.
pub fn cmdline_line(cmdline: &str, width: u16) -> (r: String)
    ensures
        r@ == cmdline_spec(cmdline@, width as nat),
{
    let chars = chars_of(cmdline);
    let w = width as usize;
    let limit = if w >= 4 { w - 4 } else { 0 };
    let keep = if w >= 5 { w - 5 } else { 0 };
    let mut s = String::from_str("  ");
    if exceeds_bytes(&chars, limit) {
        let n = if keep < chars.len() { keep } else { chars.len() };
        let mut i: usize = 0;
        while i < n
            invariant
                i <= n <= chars@.len(),
                s@ == "  "@ + chars@.take(i as int),
            decreases n - i,
        {
            push_char(&mut s, chars[i]);
            i = i + 1;
            assert(chars@.take(i as int) =~= chars@.take(i - 1).push(chars@[i - 1]));
        }
        push_str(&mut s, "…");
    } else {
        push_str(&mut s, cmdline);
    }
    s
}

/// On a panel at least five columns wide the command line, indent and
/// ellipsis included, fits inside the borders (`width - 2` columns).
pub proof fn lemma_cmdline_fits(cmdline: Seq<char>, width: nat)
    requires
        width >= 5,
    ensures
        cmdline_spec(cmdline, width).len() <= width - 2,
{
    lemma_byte_len_ge_len(cmdline);
    reveal_strlit("  ");
    reveal_strlit("…");
}

/// The observed device line: `product · manufacturer`.
pub fn device_text(product: &str, manufacturer: &str) -> (r: String)
    ensures
        r@ == product@ + " · "@ + manufacturer@,
{
    let mut s = String::from_str(product);
    push_str(&mut s, " · ");
    push_str(&mut s, manufacturer);
    s
}

/// The observed USB line: link speed, power budget, bus and device number.
pub fn usb_text(speed_mbits: u32, max_power: &str, bus: u32, dev: u32) -> (r: String)
    ensures
        r@ == "High Speed ("@ + dec(speed_mbits as nat) + " Mbit/s) · "@ + max_power@ + " · Bus "@ + dec(
            bus as nat,
        ) + ", Dev "@ + dec(dev as nat),
{
    let mut s = String::from_str("High Speed (");
    push_dec(&mut s, speed_mbits as u64);
    push_str(&mut s, " Mbit/s) · ");
    push_str(&mut s, max_power);
    push_str(&mut s, " · Bus ");
    push_dec(&mut s, bus as u64);
    push_str(&mut s, ", Dev ");
    push_dec(&mut s, dev as u64);
    s
}

/// The owning process: `name (PID n)`.
pub fn owner_text(name: &str, pid: u32) -> (r: String)
    ensures
        r@ == name@ + " (PID "@ + dec(pid as nat) + ")"@,
{
    let mut s = String::from_str(name);
    push_str(&mut s, " (PID ");
    push_dec(&mut s, pid as u64);
    push_str(&mut s, ")");
    s
}

} // verus!
