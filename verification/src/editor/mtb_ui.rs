//! The editor panel's choices: which picker selects vertices and which
//! modifier is applied.
use vstd::prelude::*;

verus! {

/// How vertices are picked.
#[derive(Debug, Clone, Copy, PartialEq, Eq, Structural)]
pub enum PickerState {
    Point,
    Brush,
    Box,
}

/// The modifier that Apply uses.
#[derive(Debug, Clone, Copy, PartialEq, Eq, Structural)]
pub enum ModifierState {
    Color,
    ColorGradient,
    Noise,
    Offset,
    Value,
    Wave,
    Terrace,
}

impl PickerState {
    /// Every picker, in the order the panel lists them.
    pub fn iterator() -> (r: Vec<PickerState>)
        ensures
            r@ == seq![PickerState::Box, PickerState::Point, PickerState::Brush],
            forall|p: PickerState| #[trigger] r@.contains(p),
    {
        let r = vec![PickerState::Box, PickerState::Point, PickerState::Brush];
        proof {
            assert forall|p: PickerState| #[trigger] r@.contains(p) by {
                match p {
                    PickerState::Box => assert(r@[0] == p),
                    PickerState::Point => assert(r@[1] == p),
                    PickerState::Brush => assert(r@[2] == p),
                }
            }
        }
        r
    }
}

impl ModifierState {
    /// Every modifier, in the order the panel lists them.
    pub fn iterator() -> (r: Vec<ModifierState>)
        ensures
            r@ == seq![
                ModifierState::Color,
                ModifierState::ColorGradient,
                ModifierState::Noise,
                ModifierState::Offset,
                ModifierState::Value,
                ModifierState::Wave,
                ModifierState::Terrace,
            ],
            forall|m: ModifierState| #[trigger] r@.contains(m),
    {
        let r = vec![
            ModifierState::Color,
            ModifierState::ColorGradient,
            ModifierState::Noise,
            ModifierState::Offset,
            ModifierState::Value,
            ModifierState::Wave,
            ModifierState::Terrace,
        ];
        proof {
            assert forall|m: ModifierState| #[trigger] r@.contains(m) by {
                match m {
                    ModifierState::Color => assert(r@[0] == m),
                    ModifierState::ColorGradient => assert(r@[1] == m),
                    ModifierState::Noise => assert(r@[2] == m),
                    ModifierState::Offset => assert(r@[3] == m),
                    ModifierState::Value => assert(r@[4] == m),
                    ModifierState::Wave => assert(r@[5] == m),
                    ModifierState::Terrace => assert(r@[6] == m),
                }
            }
        }
        r
    }
}

/// The picker chosen by the number keys pressed this frame (1 box, 2 point,
/// 3 brush); when several are pressed the highest wins, as the last one set.
pub fn change_picker(key1: bool, key2: bool, key3: bool) -> (r: Option<PickerState>)
    ensures
        r == if key3 {
            Some(PickerState::Brush)
        } else if key2 {
            Some(PickerState::Point)
        } else if key1 {
            Some(PickerState::Box)
        } else {
            None::<PickerState>
        },
{
    let mut next: Option<PickerState> = None;
    if key1 {
        next = Some(PickerState::Box);
    }
    if key2 {
        next = Some(PickerState::Point);
    }
    if key3 {
        next = Some(PickerState::Brush);
    }
    next
}


/// Apply was pressed with modifier `mod_type` chosen.
#[derive(Debug, Clone, Copy, PartialEq, Eq, Structural)]
pub struct ApplyModifierEvent {
    pub mod_type: ModifierState,
}

/// Which colours of the chosen modifier join the recently used colours.
#[derive(Debug, Clone, Copy, PartialEq, Eq, Structural)]
pub enum RecordColors {
    Nothing,
    /// The colour modifier's colour.
    Single,
    /// The gradient's colours at its low and high ends.
    GradientEnds,
}

/// Pressing Apply: the chosen modifier is sent to the vertices, and a colour
/// modifier's colours are remembered.
pub fn apply_clicked(mod_type: ModifierState) -> (r: (ApplyModifierEvent, RecordColors))
    ensures
        r.0.mod_type == mod_type,
        r.1 == match mod_type {
            ModifierState::Color => RecordColors::Single,
            ModifierState::ColorGradient => RecordColors::GradientEnds,
            _ => RecordColors::Nothing,
        },
{
    let record = match mod_type {
        ModifierState::Color => RecordColors::Single,
        ModifierState::ColorGradient => RecordColors::GradientEnds,
        _ => RecordColors::Nothing,
    };
    (ApplyModifierEvent { mod_type }, record)
}

} // verus!
