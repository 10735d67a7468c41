//! The lab instrument banner's measurement settings: averaging depth and
//! calibration.

use vstd::prelude::*;

use crate::text::{dec, push_char, push_dec};

verus! {

/// Averaging and calibration settings shown in the lab banner.
#[derive(Clone, Copy, Debug, PartialEq, Eq, Structural)]
pub struct LabState {
    /// Spectrum averaging depth; `1` means no averaging.
    pub avg_n: u16,
    /// Whether a calibration reference is active.
    pub cal: bool,
}

impl Default for LabState {
    fn default() -> (r: LabState)
        ensures
            r.avg_n == 1,
            !r.cal,
    {
        LabState { avg_n: 1, cal: false }
    }
}

impl LabState {
    /// The `AVG` field: `×` and the depth when averaging, else `OFF`.
    pub open spec fn avg_label_spec(self) -> Seq<char> {
        if self.avg_n > 1 {
            seq!['\u{00D7}'] + dec(self.avg_n as nat)
        } else {
            "OFF"@
        }
    }

    /// The `CAL` field: a check mark when calibrated, else a dash.
    pub open spec fn cal_label_spec(self) -> Seq<char> {
        if self.cal {
            "\u{2713}"@
        } else {
            "\u{2014}"@
        }
    }

    /// `AVG` banner field: `×8` when averaging, else `OFF`.
    pub fn avg_label(&self) -> (r: String)
        ensures
            r@ == self.avg_label_spec(),
    {
        if self.avg_n > 1 {
            let mut s = String::new();
            push_char(&mut s, '\u{00D7}');
            push_dec(&mut s, self.avg_n as u64);
            s
        } else {
            String::from_str("OFF")
        }
    }

    /// `CAL` banner field: `✓` when calibrated, else `—`.
    pub fn cal_label(&self) -> (r: &'static str)
        ensures
            r@ == self.cal_label_spec(),
    {
        if self.cal {
            "\u{2713}"
        } else {
            "\u{2014}"
        }
    }
}

} // verus!
