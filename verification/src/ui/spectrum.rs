//! Spectrum analyser trace.

use vstd::prelude::*;

use crate::ui::panel::Panel;

verus! {

/// Spectrum analyser trace.
pub struct SpectrumPanel;

impl Panel for SpectrumPanel {
    fn name(&self) -> (r: &'static str)
        ensures
            r@ == "spectrum"@,
    {
        "spectrum"
    }

    fn min_size(&self) -> (r: (u16, u16))
        ensures
            r == (40u16, 10u16),
    {
        (40, 10)
    }
}

} // verus!
