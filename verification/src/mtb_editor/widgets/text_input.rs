//! A text box of the editor panel: which box has focus, and typing into it.
use vstd::prelude::*;
use crate::mtb_editor::mtb_console::{accepted_char, edit_chars, edit_text, lemma_typing_is_filter, pop_last};
use crate::text::{chars_of, string_of};

verus! {

/// Whether a text box has the keyboard; off at start.
#[derive(Debug, Clone, Copy, PartialEq, Eq, Structural)]
pub enum FocusTextState {
    Off,
    On,
}

impl FocusTextState {
    /// The focus state the panel starts with.
    pub fn default_state() -> (r: FocusTextState)
        ensures
            r == FocusTextState::Off,
    {
        FocusTextState::Off
    }
}

/// The text typed into a box, under the box's id. (The timer that repeats a
/// held Backspace stays with the application.)
pub struct TextInput {
    pub id: String,
    pub text: String,
}

impl TextInput {
    /// An empty input under `id`.
    pub fn new(id: String) -> (r: TextInput)
        ensures
            r.id == id,
            r.text@ == Seq::<char>::empty(),
    {
        TextInput { id, text: String::new() }
    }
}

/// What a text box shows: the id and text of its input.
pub struct TextInputBox {
    pub id: String,
    pub text: String,
}

impl TextInputBox {
    /// A box with no id and no text.
    pub fn new() -> (r: TextInputBox)
        ensures
            r.id@ == Seq::<char>::empty(),
            r.text@ == Seq::<char>::empty(),
    {
        TextInputBox { id: String::new(), text: String::new() }
    }
}

/// The keys of one frame that a focused text box reacts to.
pub struct TextKeys {
    /// Characters typed this frame, in order.
    pub typed: Vec<char>,
    /// Backspace was just pressed.
    pub back: bool,
    /// Delete was just pressed.
    pub delete: bool,
    /// Backspace is held and its repeat delay has run out.
    pub back_repeat: bool,
}

/// The text of a box after one frame of keys.
pub open spec fn text_after_keys(keys: TextKeys, text: Seq<char>) -> Seq<char> {
    let t = edit_text(text, keys.typed@, keys.back, keys.delete);
    if keys.back_repeat {
        pop_last(t)
    } else {
        t
    }
}

/// Some box of `focused` has the keyboard.
pub open spec fn any_focused(focused: Seq<bool>) -> bool {
    exists|j: int| 0 <= j < focused.len() && #[trigger] focused[j]
}

/// A left click gives the keyboard to every visible box under the cursor
/// (`hit`) and takes it from all others; without a cursor no box has it.
/// Returns which boxes are focused and the focus state.
pub fn try_focus(has_cursor: bool, visible: &Vec<bool>, hit: &Vec<bool>) -> (r: (Vec<bool>, FocusTextState))
    requires
        visible@.len() == hit@.len(),
    ensures
        r.0@.len() == visible@.len(),
        forall|i: int| 0 <= i < visible@.len() ==> #[trigger] r.0@[i] == (has_cursor && visible@[i] && hit@[i]),
        r.1 == if any_focused(r.0@) {
            FocusTextState::On
        } else {
            FocusTextState::Off
        },
{
    let mut focused: Vec<bool> = Vec::new();
    let mut state = FocusTextState::Off;
    let mut i: usize = 0;
    while i < visible.len()
        invariant
            i <= visible@.len(),
            visible@.len() == hit@.len(),
            focused@.len() == i,
            forall|j: int| 0 <= j < i ==> #[trigger] focused@[j] == (has_cursor && visible@[j] && hit@[j]),
            state == if any_focused(focused@) {
                FocusTextState::On
            } else {
                FocusTextState::Off
            },
        decreases visible@.len() - i,
    {
        let f = has_cursor && visible[i] && hit[i];
        let ghost before = focused@;
        focused.push(f);
        proof {
            if any_focused(before) {
                let w = choose|w: int| 0 <= w < before.len() && #[trigger] before[w];
                assert(focused@[w]);
            }
            if f {
                assert(focused@[i as int]);
            } else if any_focused(focused@) {
                let w = choose|w: int| 0 <= w < focused@.len() && #[trigger] focused@[w];
                assert(w < i);
                assert(before[w]);
            }
        }
        if f {
            state = FocusTextState::On;
        }
        i += 1;
    }
    (focused, state)
}

/// One frame of typing into the focused box: accepted characters are
/// appended, Backspace removes the last character, Delete clears the text, and
/// a held Backspace repeats; the box then shows the input's id and text.
pub fn update_text_input(keys: &TextKeys, text_input: &mut TextInput, textbox: &mut TextInputBox)
    ensures
        final(text_input).id == old(text_input).id,
        final(text_input).text@ == text_after_keys(*keys, old(text_input).text@),
        final(textbox).id == final(text_input).id,
        final(textbox).text@ == final(text_input).text@,
{
    let cur = chars_of(text_input.text.as_str());
    let mut edited = edit_chars(&cur, &keys.typed, keys.back, keys.delete);
    if keys.back_repeat {
        if edited.len() > 0 {
            edited.pop();
        }
    }
    text_input.text = string_of(&edited);
    textbox.id = text_input.id.clone();
    textbox.text = string_of(&edited);
}


/// A frame without Backspace or Delete appends, in order, every typed
/// character that the console accepts; Delete empties the box.
pub proof fn lemma_text_box_typing(keys: TextKeys, text: Seq<char>)
    ensures
        !keys.back && !keys.delete && !keys.back_repeat ==> text_after_keys(keys, text) == text
            + keys.typed@.filter(|c: char| accepted_char(c)),
        keys.delete && !keys.back_repeat ==> text_after_keys(keys, text) == Seq::<char>::empty(),
{
    lemma_typing_is_filter(text, keys.typed@);
}

} // verus!
