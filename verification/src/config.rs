//! Layout presets: which panels a screen shows and where.

use vstd::prelude::*;

use crate::text::str_eq;

verus! {

/// Where a panel sits on screen.
#[derive(Clone, Copy, Debug, PartialEq, Eq, Structural)]
pub enum Position {
    Top,
    Bottom,
    Left,
    Right,
    Body,
}

/// One panel of a preset.
#[derive(Clone, Debug)]
pub struct PanelSpec {
    pub name: String,
    pub position: Position,
    /// Height in terminal rows — used for Top and Bottom panels.
    pub height: Option<u16>,
    /// Width as a percentage of the body zone — used for Left and Right panels.
    pub width_pct: Option<u16>,
}

/// The panels of one preset, in drawing order.
#[derive(Clone, Debug)]
pub struct PresetConfig {
    pub panels: Vec<PanelSpec>,
}

/// A preset under its name.
#[derive(Clone, Debug)]
pub struct NamedPreset {
    pub name: String,
    pub preset: PresetConfig,
}

/// All presets by name, and which one is active.
#[derive(Clone, Debug)]
pub struct LayoutConfig {
    pub active_preset: String,
    pub presets: Vec<NamedPreset>,
}

/// `p` is the panel `name` at `position` with the given sizes.
pub open spec fn panel_is(
    p: PanelSpec,
    name: Seq<char>,
    position: Position,
    height: Option<u16>,
    width_pct: Option<u16>,
) -> bool {
    &&& p.name@ == name
    &&& p.position == position
    &&& p.height == height
    &&& p.width_pct == width_pct
}

/// Index of the first preset called `name`, if any.
pub open spec fn find_preset(presets: Seq<NamedPreset>, name: Seq<char>) -> Option<int> {
    if exists|i: int| 0 <= i < presets.len() && presets[i].name@ == name {
        Some(
            choose|i: int|
                0 <= i < presets.len() && presets[i].name@ == name && forall|j: int|
                    0 <= j < i ==> presets[j].name@ != name,
        )
    } else {
        None
    }
}

/// The first index holding `name` exists whenever some index does.
pub proof fn lemma_first_index(presets: Seq<NamedPreset>, name: Seq<char>, k: int)
    requires
        0 <= k < presets.len(),
        presets[k].name@ == name,
    ensures
        exists|i: int|
            0 <= i < presets.len() && presets[i].name@ == name && forall|j: int|
                0 <= j < i ==> presets[j].name@ != name,
    decreases k,
{
    if exists|j: int| 0 <= j < k && presets[j].name@ == name {
        let j = choose|j: int| 0 <= j < k && presets[j].name@ == name;
        lemma_first_index(presets, name, j);
    } else {
        assert(forall|j: int| 0 <= j < k ==> presets[j].name@ != name);
    }
}

/// The panels shown under `name`: those of the preset so called, or none.
pub open spec fn panels_of(presets: Seq<NamedPreset>, name: Seq<char>) -> Seq<PanelSpec> {
    match find_preset(presets, name) {
        Some(i) => presets[i].preset.panels@,
        None => Seq::empty(),
    }
}

/// No two presets share a name (a map from names to presets).
pub open spec fn names_unique(presets: Seq<NamedPreset>) -> bool {
    forall|i: int, j: int|
        0 <= i < presets.len() && 0 <= j < presets.len() && i != j ==> presets[i].name@
            != presets[j].name@
}

impl LayoutConfig {
    /// Preset names are unique.
    pub open spec fn wf(&self) -> bool {
        names_unique(self.presets@)
    }

    /// Built-in presets `minimal`, `monitoring`, `spectrum`, with `minimal` active.
    pub fn default_config() -> (cfg: LayoutConfig)
        ensures
            cfg.wf(),
            cfg.active_preset@ == "minimal"@,
            cfg.presets@.len() == 3,
            cfg.presets@[0].name@ == "minimal"@,
            cfg.presets@[1].name@ == "monitoring"@,
            cfg.presets@[2].name@ == "spectrum"@,
            cfg.presets@[0].preset.panels@.len() == 5,
            panel_is(cfg.presets@[0].preset.panels@[0], "header"@, Position::Top, Some(3u16), None),
            panel_is(cfg.presets@[0].preset.panels@[1], "telemetry"@, Position::Body, None, None),
            panel_is(cfg.presets@[0].preset.panels@[2], "gains"@, Position::Right, None, Some(50u16)),
            panel_is(cfg.presets@[0].preset.panels@[3], "log"@, Position::Bottom, Some(9u16), None),
            panel_is(cfg.presets@[0].preset.panels@[4], "footer"@, Position::Bottom, Some(3u16), None),
            cfg.presets@[1].preset.panels@.len() == 7,
            panel_is(cfg.presets@[1].preset.panels@[0], "header"@, Position::Top, Some(3u16), None),
            panel_is(cfg.presets@[1].preset.panels@[1], "hardware_health"@, Position::Left, None, Some(50u16)),
            panel_is(cfg.presets@[1].preset.panels@[2], "iq_diagnostics"@, Position::Left, None, Some(50u16)),
            panel_is(cfg.presets@[1].preset.panels@[3], "telemetry"@, Position::Right, None, Some(50u16)),
            panel_is(cfg.presets@[1].preset.panels@[4], "system_resources"@, Position::Right, None, Some(50u16)),
            panel_is(cfg.presets@[1].preset.panels@[5], "log"@, Position::Bottom, Some(7u16), None),
            panel_is(cfg.presets@[1].preset.panels@[6], "footer"@, Position::Bottom, Some(3u16), None),
            cfg.presets@[2].preset.panels@.len() == 4,
            panel_is(cfg.presets@[2].preset.panels@[0], "header"@, Position::Top, Some(3u16), None),
            panel_is(cfg.presets@[2].preset.panels@[1], "spectrum"@, Position::Body, None, None),
            panel_is(cfg.presets@[2].preset.panels@[2], "log"@, Position::Bottom, Some(5u16), None),
            panel_is(cfg.presets@[2].preset.panels@[3], "footer"@, Position::Bottom, Some(3u16), None),
    {
        let minimal = PresetConfig {
            panels: vec![
                panel("header", Position::Top, Some(3), None),
                panel("telemetry", Position::Body, None, None),
                panel("gains", Position::Right, None, Some(50)),
                panel("log", Position::Bottom, Some(9), None),
                panel("footer", Position::Bottom, Some(3), None),
            ],
        };
        let monitoring = PresetConfig {
            panels: vec![
                panel("header", Position::Top, Some(3), None),
                panel("hardware_health", Position::Left, None, Some(50)),
                panel("iq_diagnostics", Position::Left, None, Some(50)),
                panel("telemetry", Position::Right, None, Some(50)),
                panel("system_resources", Position::Right, None, Some(50)),
                panel("log", Position::Bottom, Some(7), None),
                panel("footer", Position::Bottom, Some(3), None),
            ],
        };
        let spectrum = PresetConfig {
            panels: vec![
                panel("header", Position::Top, Some(3), None),
                panel("spectrum", Position::Body, None, None),
                panel("log", Position::Bottom, Some(5), None),
                panel("footer", Position::Bottom, Some(3), None),
            ],
        };
        let presets = vec![
            NamedPreset { name: String::from_str("minimal"), preset: minimal },
            NamedPreset { name: String::from_str("monitoring"), preset: monitoring },
            NamedPreset { name: String::from_str("spectrum"), preset: spectrum },
        ];
        proof {
            reveal_strlit("minimal");
            reveal_strlit("monitoring");
            reveal_strlit("spectrum");
            assert("minimal"@[1] != "monitoring"@[1]);
            assert("minimal"@[0] != "spectrum"@[0]);
            assert(presets@[0].name@ != presets@[1].name@);
            assert(presets@[0].name@ != presets@[2].name@);
            assert(presets@[1].name@ != presets@[2].name@);
        }
        LayoutConfig { active_preset: String::from_str("minimal"), presets }
    }

    /// The panels of the active preset; empty when no preset has that name.
    pub fn active_panels(&self) -> (r: &[PanelSpec])
        ensures
            r@ == panels_of(self.presets@, self.active_preset@),
    {
        let mut i: usize = 0;
        while i < self.presets.len()
            invariant
                i <= self.presets@.len(),
                forall|j: int| 0 <= j < i ==> self.presets@[j].name@ != self.active_preset@,
            decreases self.presets.len() - i,
        {
            if str_eq(self.presets[i].name.as_str(), self.active_preset.as_str()) {
                proof {
                    lemma_first_index(self.presets@, self.active_preset@, i as int);
                    let k = choose|k: int|
                        0 <= k < self.presets@.len() && self.presets@[k].name@ == self.active_preset@
                            && forall|j: int| 0 <= j < k ==> self.presets@[j].name@ != self.active_preset@;
                    assert(k == i as int) by {
                        if k < i {
                        } else if k > i {
                            assert(self.presets@[i as int].name@ == self.active_preset@);
                        }
                    }
                }
                return self.presets[i].preset.panels.as_slice();
            }
            i = i + 1;
        }
        let empty: &[PanelSpec] = &[];
        assert(empty@ =~= Seq::<PanelSpec>::empty());
        empty
    }
}

/// A panel entry.
fn panel(name: &str, position: Position, height: Option<u16>, width_pct: Option<u16>) -> (p: PanelSpec)
    ensures
        panel_is(p, name@, position, height, width_pct),
{
    PanelSpec { name: String::from_str(name), position, height, width_pct }
}

/// In a well-formed layout the active panels are exactly those of the preset
/// named by `active_preset`, and none when there is no such preset.
pub proof fn lemma_active_panels_by_name(presets: Seq<NamedPreset>, name: Seq<char>, k: int)
    requires
        names_unique(presets),
        0 <= k < presets.len(),
        presets[k].name@ == name,
    ensures
        panels_of(presets, name) == presets[k].preset.panels@,
{
    lemma_first_index(presets, name, k);
}

} // verus!
