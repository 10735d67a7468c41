//! DC offset and I/Q imbalance readouts.

use vstd::prelude::*;

use crate::ui::panel::Panel;

verus! {

/// DC offset and amplitude imbalance readouts.
pub struct IqDiagnosticsPanel;

impl Panel for IqDiagnosticsPanel {
    fn name(&self) -> (r: &'static str)
        ensures
            r@ == "iq_diagnostics"@,
    {
        "iq_diagnostics"
    }

    fn min_size(&self) -> (r: (u16, u16))
        ensures
            r == (30u16, 6u16),
    {
        (30, 6)
    }
}

} // verus!
