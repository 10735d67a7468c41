//! The start-up device picker: its list text, dialog size and key handling.

use vstd::prelude::*;

use crate::text::{dec, push_dec, push_str};

verus! {

/// A key the picker reacts to.
#[derive(Clone, Copy, Debug, PartialEq, Eq, Structural)]
pub enum SelectorKey {
    /// Up arrow or `k`.
    Up,
    /// Down arrow or `j`.
    Down,
    /// Enter.
    Enter,
    /// `q` or Escape.
    Quit,
    /// Anything else.
    Other,
}

/// What the picker does after a key.
#[derive(Clone, Copy, Debug, PartialEq, Eq, Structural)]
pub enum SelectorStep {
    /// Highlight this row and keep asking.
    Select(usize),
    /// Finish with this choice (`None`: the user quit, or nothing was highlighted).
    Done(Option<usize>),
    /// Keep asking, nothing changes.
    Ignore,
}

/// The picker's answer to a key in a list of `count` devices with
/// `selected` highlighted: up and down move one row and stop at the ends,
/// Enter takes the highlighted row, quit gives up.
pub open spec fn selector_step_spec(selected: Option<usize>, count: usize, key: SelectorKey) -> SelectorStep {
    let cur: int = match selected {
        Some(i) => i as int,
        None => 0,
    };
    let last: int = if count > 0 { count - 1 } else { 0 };
    match key {
        SelectorKey::Up => SelectorStep::Select((if cur > 0 { cur - 1 } else { 0 }) as usize),
        SelectorKey::Down => SelectorStep::Select((if cur + 1 < last { cur + 1 } else { last }) as usize),
        SelectorKey::Enter => SelectorStep::Done(selected),
        SelectorKey::Quit => SelectorStep::Done(None),
        SelectorKey::Other => SelectorStep::Ignore,
    }
}

/// One key press in the picker.
pub fn selector_step(selected: Option<usize>, count: usize, key: SelectorKey) -> (r: SelectorStep)
    requires
        key == SelectorKey::Down ==> (match selected {
            Some(i) => i,
            None => 0,
        }) < usize::MAX,
    ensures
        r == selector_step_spec(selected, count, key),
{
    let cur: usize = match selected {
        Some(i) => i,
        None => 0,
    };
    match key {
        SelectorKey::Up => SelectorStep::Select(if cur > 0 { cur - 1 } else { 0 }),
        SelectorKey::Down => {
            let last: usize = if count > 0 { count - 1 } else { 0 };
            let next = cur + 1;
            SelectorStep::Select(if next < last { next } else { last })
        },
        SelectorKey::Enter => SelectorStep::Done(selected),
        SelectorKey::Quit => SelectorStep::Done(None),
        SelectorKey::Other => SelectorStep::Ignore,
    }
}

/// The picker's title: a one-device prompt, or the count.
pub open spec fn selector_title_spec(n: nat) -> Seq<char> {
    if n == 1 {
        " 1 device found — press Enter "@
    } else {
        " "@ + dec(n) + " devices found — select one "@
    }
}

/// The dialog title for `n` devices.
pub fn selector_title(n: usize) -> (r: String)
    ensures
        r@ == selector_title_spec(n as nat),
{
    if n == 1 {
        String::from_str(" 1 device found — press Enter ")
    } else {
        let mut s = String::from_str(" ");
        push_dec(&mut s, n as u64);
        push_str(&mut s, " devices found — select one ");
        s
    }
}

/// One list row: `  [i]  serial`.
pub fn selector_item(i: usize, serial: &str) -> (r: String)
    ensures
        r@ == "  ["@ + dec(i as nat) + "]  "@ + serial@,
{
    let mut s = String::from_str("  [");
    push_dec(&mut s, i as u64);
    push_str(&mut s, "]  ");
    push_str(&mut s, serial);
    s
}

/// Size (width, height) of the picker dialog on a `width` × `height` screen:
/// four rows more than the list (the count taken modulo 2^16), and at most
/// 64 columns, both leaving a margin of four.
pub fn dialog_size(count: usize, width: u16, height: u16) -> (r: (u16, u16))
    requires
        count % 0x10000 + 4 <= u16::MAX,
    ensures
        ({
            let h_want = count % 0x10000 + 4;
            let h_room = if height >= 4 { height - 4 } else { 0 };
            let w_room = if width >= 4 { width - 4 } else { 0 };
            &&& r.1 == (if h_want < h_room { h_want } else { h_room })
            &&& r.0 == (if 64 < w_room { 64 } else { w_room })
        }),
{
    let c: u16 = (count % 0x10000) as u16;
    let h_want: u16 = c + 4;
    let h_room: u16 = if height >= 4 { height - 4 } else { 0 };
    let w_room: u16 = if width >= 4 { width - 4 } else { 0 };
    let h = if h_want < h_room { h_want } else { h_room };
    let w = if 64 < w_room { 64 } else { w_room };
    (w, h)
}

/// While the highlight is on a listed device (or on none), every key keeps
/// it on a listed device, and a finished pick names a listed device or none.
pub proof fn lemma_selection_in_range(selected: Option<usize>, count: usize, key: SelectorKey)
    requires
        count > 0,
        selected matches Some(i) ==> i < count,
    ensures
        selector_step_spec(selected, count, key) matches SelectorStep::Select(i) ==> i < count,
        selector_step_spec(selected, count, key) matches SelectorStep::Done(Some(i)) ==> i < count,
{
}

/// The picker's keys move one row at a time: Up goes to the row above
/// (staying on the first), Down to the row below (staying on the last),
/// Enter finishes with the highlighted row, quitting finishes with none,
/// and other keys change nothing.
pub proof fn lemma_selector_moves(i: usize, count: usize)
    requires
        i < count,
    ensures
        selector_step_spec(Some(i), count, SelectorKey::Up) == SelectorStep::Select(
            if i > 0 { (i - 1) as usize } else { 0 },
        ),
        i + 1 < count ==> selector_step_spec(Some(i), count, SelectorKey::Down) == SelectorStep::Select(
            (i + 1) as usize,
        ),
        i + 1 == count ==> selector_step_spec(Some(i), count, SelectorKey::Down) == SelectorStep::Select(i),
        selector_step_spec(Some(i), count, SelectorKey::Enter) == SelectorStep::Done(Some(i)),
        selector_step_spec(Some(i), count, SelectorKey::Quit) == SelectorStep::Done(None),
        selector_step_spec(Some(i), count, SelectorKey::Other) == SelectorStep::Ignore,
{
}

} // verus!
