//! Drop-down lists of the editor panel: a click on one opens or closes it.
use vstd::prelude::*;

verus! {

/// One entry of a drop-down list.
pub struct DropDownOption {
    pub index: u32,
    pub label: String,
    pub value: String,
}

/// A click flips every visible drop-down under the cursor between open and
/// closed; the others keep their state, and nothing changes without a
/// cursor. Slot `i` stands for drop-down `i`; its options are shown exactly
/// while it is open.
pub fn update_dropdown(has_cursor: bool, expanded: &mut Vec<bool>, visible: &Vec<bool>, hit: &Vec<bool>)
    requires
        old(expanded)@.len() == visible@.len(),
        visible@.len() == hit@.len(),
    ensures
        final(expanded)@.len() == old(expanded)@.len(),
        forall|i: int|
            0 <= i < visible@.len() ==> #[trigger] final(expanded)@[i] == if has_cursor && visible@[i] && hit@[i] {
                !old(expanded)@[i]
            } else {
                old(expanded)@[i]
            },
{
    if !has_cursor {
        return;
    }
    let mut i: usize = 0;
    while i < expanded.len()
        invariant
            i <= expanded@.len(),
            has_cursor,
            expanded@.len() == old(expanded)@.len(),
            old(expanded)@.len() == visible@.len(),
            visible@.len() == hit@.len(),
            forall|j: int|
                0 <= j < i ==> #[trigger] expanded@[j] == if visible@[j] && hit@[j] {
                    !old(expanded)@[j]
                } else {
                    old(expanded)@[j]
                },
            forall|j: int| i <= j < expanded@.len() ==> #[trigger] expanded@[j] == old(expanded)@[j],
        decreases expanded@.len() - i,
    {
        if visible[i] && hit[i] {
            let was = expanded[i];
            expanded[i] = !was;
        }
        i += 1;
    }
}

} // verus!
