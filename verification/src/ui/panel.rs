//! What every panel declares about itself, independent of drawing.

use vstd::prelude::*;

verus! {

/// A panel's identity and sizing needs.
pub trait Panel {
    /// The name the layout presets refer to it by.
    fn name(&self) -> &'static str;

    /// Smallest useful size: (columns, rows).
    fn min_size(&self) -> (u16, u16);

    /// The key that focuses the panel, if it has one; a panel that does not
    /// say otherwise has none.
    fn focus_key(&self) -> (r: Option<char>)
        default_ensures
            r is None,
    {
        None
    }

    /// The key bindings the panel offers while focused: (key, action); a
    /// panel that does not say otherwise offers none.
    fn focus_bindings(&self) -> (r: &'static [(&'static str, &'static str)])
        default_ensures
            r@.len() == 0,
    {
        &[]
    }
}

/// Which border colour a panel frame takes.
#[derive(Clone, Copy, Debug, PartialEq, Eq, Structural)]
pub enum BorderTone {
    /// The panel has keyboard focus.
    Focused,
    /// The data shown is not live (RX stopped).
    Stale,
    /// Neither.
    Normal,
}

/// Focus wins over staleness.
pub fn border_tone(focused: bool, stale: bool) -> (r: BorderTone)
    ensures
        r == (if focused {
            BorderTone::Focused
        } else if stale {
            BorderTone::Stale
        } else {
            BorderTone::Normal
        }),
{
    if focused {
        BorderTone::Focused
    } else if stale {
        BorderTone::Stale
    } else {
        BorderTone::Normal
    }
}

} // verus!
