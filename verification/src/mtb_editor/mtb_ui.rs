//! The editor panel's choices: which picker selects vertices and which
//! modifier is applied.
use vstd::prelude::*;
use crate::text::{chars_eq, chars_of};

verus! {

/// How vertices are picked; `Point` at start.
#[derive(Debug, Clone, Copy, PartialEq, Eq, Structural)]
pub enum PickerState {
    Point,
    Brush,
    Box,
}

/// The modifier that the panel shows; `Color` at start.
#[derive(Debug, Clone, Copy, PartialEq, Eq, Structural)]
pub enum ModifierState {
    Color,
    Noise,
    Value,
    Wave,
    Terraces,
    Smoothing,
}

impl PickerState {
    /// The picker the editor starts with.
    pub fn default_state() -> (r: PickerState)
        ensures
            r == PickerState::Point,
    {
        PickerState::Point
    }

    /// Every picker, in the order the panel lists them.
    pub fn iterator() -> (r: Vec<PickerState>)
        ensures
            r@ == seq![PickerState::Box, PickerState::Point, PickerState::Brush],
    {
        vec![PickerState::Box, PickerState::Point, PickerState::Brush]
    }
}

/// The modifier a word names: the variant's own name.
pub open spec fn modifier_of(s: Seq<char>) -> Option<ModifierState> {
    if s == "Color"@ {
        Some(ModifierState::Color)
    } else if s == "Noise"@ {
        Some(ModifierState::Noise)
    } else if s == "Value"@ {
        Some(ModifierState::Value)
    } else if s == "Wave"@ {
        Some(ModifierState::Wave)
    } else if s == "Terraces"@ {
        Some(ModifierState::Terraces)
    } else if s == "Smoothing"@ {
        Some(ModifierState::Smoothing)
    } else {
        None
    }
}

/// The name the panel shows for a modifier: its variant's name.
pub open spec fn modifier_name(m: ModifierState) -> Seq<char> {
    match m {
        ModifierState::Color => "Color"@,
        ModifierState::Noise => "Noise"@,
        ModifierState::Value => "Value"@,
        ModifierState::Wave => "Wave"@,
        ModifierState::Terraces => "Terraces"@,
        ModifierState::Smoothing => "Smoothing"@,
    }
}

impl ModifierState {
    /// The modifier the editor starts with.
    pub fn default_state() -> (r: ModifierState)
        ensures
            r == ModifierState::Color,
    {
        ModifierState::Color
    }

    /// Every modifier, in the order the panel lists them.
    pub fn iterator() -> (r: Vec<ModifierState>)
        ensures
            r@ == seq![
                ModifierState::Color,
                ModifierState::Noise,
                ModifierState::Value,
                ModifierState::Wave,
                ModifierState::Terraces,
                ModifierState::Smoothing,
            ],
    {
        vec![
            ModifierState::Color,
            ModifierState::Noise,
            ModifierState::Value,
            ModifierState::Wave,
            ModifierState::Terraces,
            ModifierState::Smoothing,
        ]
    }

    /// The modifier named by `input`, exactly as a variant is written.
    pub fn from_str(input: &str) -> (r: Result<ModifierState, ()>)
        ensures
            r == match modifier_of(input@) {
                Some(m) => Ok::<ModifierState, ()>(m),
                None => Err(()),
            },
    {
        let w = chars_of(input);
        if chars_eq(&w, "Color") {
            Ok(ModifierState::Color)
        } else if chars_eq(&w, "Noise") {
            Ok(ModifierState::Noise)
        } else if chars_eq(&w, "Value") {
            Ok(ModifierState::Value)
        } else if chars_eq(&w, "Wave") {
            Ok(ModifierState::Wave)
        } else if chars_eq(&w, "Terraces") {
            Ok(ModifierState::Terraces)
        } else if chars_eq(&w, "Smoothing") {
            Ok(ModifierState::Smoothing)
        } else {
            Err(())
        }
    }
}


/// Reading back the name the panel shows for a modifier gives that modifier.
pub proof fn lemma_modifier_name_round_trip(m: ModifierState)
    ensures
        modifier_of(modifier_name(m)) == Some(m),
{
    reveal_strlit("Color");
    reveal_strlit("Noise");
    reveal_strlit("Value");
    reveal_strlit("Wave");
    reveal_strlit("Terraces");
    reveal_strlit("Smoothing");
    // the names differ in their first letter
    assert("Color"@[0] == 'C' && "Noise"@[0] == 'N' && "Value"@[0] == 'V');
    assert("Wave"@[0] == 'W' && "Terraces"@[0] == 'T' && "Smoothing"@[0] == 'S');
}

} // verus!
