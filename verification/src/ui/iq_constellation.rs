//! Scatter of recent normalised I/Q samples.

use vstd::prelude::*;

use crate::ui::panel::Panel;

verus! {

/// Scatter of recent I/Q samples.
pub struct IqConstellationPanel;

/// Number of segments that draw the constellation's unit circle.
pub const CIRCLE_SEGS: usize = 48;

impl Panel for IqConstellationPanel {
    fn name(&self) -> (r: &'static str)
        ensures
            r@ == "iq_constellation"@,
    {
        "iq_constellation"
    }

    fn min_size(&self) -> (r: (u16, u16))
        ensures
            r == (18u16, 10u16),
    {
        (18, 10)
    }
}

} // verus!
