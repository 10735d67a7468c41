//! Recent log lines.

use vstd::prelude::*;

use crate::ui::panel::Panel;

verus! {

/// Recent log lines.
pub struct LogPanel;

impl Panel for LogPanel {
    fn name(&self) -> (r: &'static str)
        ensures
            r@ == "log"@,
    {
        "log"
    }

    fn min_size(&self) -> (r: (u16, u16))
        ensures
            r == (20u16, 7u16),
    {
        (20, 7)
    }
}

} // verus!
