//! Caret state of the focused single-line text field.

use vstd::prelude::*;

use crate::text::char_count;

verus! {

/// Whether a text field has the keyboard, where its caret stands (in
/// characters) and where a selection started.
#[derive(Clone, Copy, Debug, PartialEq, Eq, Structural)]
pub struct TextInputState {
    pub active: bool,
    pub cursor: usize,
    pub anchor: Option<usize>,
}

impl TextInputState {
    /// An inactive field with the caret at the start.
    pub fn new() -> (r: Self)
        ensures
            !r.active,
            r.cursor == 0,
            r.anchor is None,
    {
        TextInputState { active: false, cursor: 0, anchor: None }
    }

    /// Gives the keyboard to a field showing `text`, caret at its end.
    pub fn activate(&mut self, text: &str)
        ensures
            final(self).active,
            final(self).cursor == text@.len(),
            final(self).anchor is None,
    {
        self.active = true;
        self.cursor = char_count(text);
        self.anchor = None;
    }

    /// Takes the keyboard away from the field.
    pub fn deactivate(&mut self)
        ensures
            !final(self).active,
            final(self).cursor == old(self).cursor,
            final(self).anchor is None,
    {
        self.active = false;
        self.anchor = None;
    }
}

} // verus!
