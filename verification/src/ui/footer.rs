//! Key hints and input prompt bar.

use vstd::prelude::*;

use crate::text::push_str;
use crate::ui::panel::Panel;

verus! {

/// Key hints / input prompt bar.
pub struct FooterPanel;

impl Panel for FooterPanel {
    fn name(&self) -> (r: &'static str)
        ensures
            r@ == "footer"@,
    {
        "footer"
    }

    fn min_size(&self) -> (r: (u16, u16))
        ensures
            r == (40u16, 3u16),
    {
        (40, 3)
    }
}


/// What the footer is showing: key hints, or one of the two value prompts.
#[derive(Clone, Copy, Debug, PartialEq, Eq, Structural)]
pub enum FooterMode {
    Normal,
    FrequencyInput,
    SampleRateInput,
}

/// The footer line: observer mode has its own notice; otherwise the key hints
/// or the prompt with what has been typed so far and a block cursor.
pub open spec fn footer_spec(observer_mode: bool, mode: FooterMode, input_buf: Seq<char>) -> Seq<char> {
    if observer_mode {
        " Observer Mode — Hardware controls disabled.  [Q] Quit  [?] Help "@
    } else {
        match mode {
            FooterMode::Normal => " [Q] Quit | [SPACE] RX | [↑↓] LNA | [[] VGA | [A] AMP | [F] Freq | [S] Rate | [R] Reset | [?] Help "@,
            FooterMode::FrequencyInput => " Frequency (MHz): ["@ + input_buf + "▌] | [Enter] confirm | [Esc] cancel "@,
            FooterMode::SampleRateInput => " Sample rate (2–20 MHz): ["@ + input_buf + "▌] | [Enter] confirm | [Esc] cancel "@,
        }
    }
}

/// The footer text.
pub fn footer_text(observer_mode: bool, mode: FooterMode, input_buf: &str) -> (r: String)
    ensures
        r@ == footer_spec(observer_mode, mode, input_buf@),
{
    if observer_mode {
        return String::from_str(" Observer Mode — Hardware controls disabled.  [Q] Quit  [?] Help ");
    }
    match mode {
        FooterMode::Normal => String::from_str(
            " [Q] Quit | [SPACE] RX | [↑↓] LNA | [[] VGA | [A] AMP | [F] Freq | [S] Rate | [R] Reset | [?] Help ",
        ),
        FooterMode::FrequencyInput => {
            let mut s = String::from_str(" Frequency (MHz): [");
            push_str(&mut s, input_buf);
            push_str(&mut s, "▌] | [Enter] confirm | [Esc] cancel ");
            s
        },
        FooterMode::SampleRateInput => {
            let mut s = String::from_str(" Sample rate (2–20 MHz): [");
            push_str(&mut s, input_buf);
            push_str(&mut s, "▌] | [Enter] confirm | [Esc] cancel ");
            s
        },
    }
}

} // verus!
