//! The settings dialog: which field is selected, and the text being edited.
use vstd::prelude::*;
use vstd::string::*;

use crate::text::{chars_of, push_char, string_from_chars};

verus! {

/// The setting field that is selected or being edited.
#[derive(Clone, Copy, Debug, PartialEq, Eq, Structural)]
pub enum SettingField {
    DefaultCtfDirectory,
    UiTickRate,
}

/// The other field: with two fields, moving forward or backward both land
/// on it.
pub open spec fn other_field(f: SettingField) -> SettingField {
    match f {
        SettingField::DefaultCtfDirectory => SettingField::UiTickRate,
        SettingField::UiTickRate => SettingField::DefaultCtfDirectory,
    }
}

/// State of the settings dialog.
#[derive(Debug)]
pub struct SettingsState {
    /// The selected field.
    pub selected_field: SettingField,
    /// Whether the selected field is being edited.
    pub editing: bool,
    /// The text being edited.
    pub input_buffer: String,
}

impl SettingsState {
    /// A closed editor on the first field.
    pub fn new() -> (r: SettingsState)
        ensures
            r.selected_field == SettingField::DefaultCtfDirectory,
            !r.editing,
            r.input_buffer@.len() == 0,
    {
        SettingsState {
            selected_field: SettingField::DefaultCtfDirectory,
            editing: false,
            input_buffer: String::new(),
        }
    }

    /// The state after `next_field`: the other field, unless editing.
    pub open spec fn after_next_field(self) -> SettingsState {
        if !self.editing {
            SettingsState { selected_field: other_field(self.selected_field), ..self }
        } else {
            self
        }
    }

    /// Moves to the next field, unless a field is being edited.
    pub fn next_field(&mut self)
        ensures
            *final(self) == old(self).after_next_field(),
    {
        if !self.editing {
            self.selected_field =
            match self.selected_field {
                SettingField::DefaultCtfDirectory => SettingField::UiTickRate,
                SettingField::UiTickRate => SettingField::DefaultCtfDirectory,
            };
        }
    }

    /// Moves to the previous field, unless a field is being edited.
    pub fn previous_field(&mut self)
        ensures
            *final(self) == old(self).after_next_field(),
    {
        if !self.editing {
            self.selected_field =
            match self.selected_field {
                SettingField::DefaultCtfDirectory => SettingField::UiTickRate,
                SettingField::UiTickRate => SettingField::DefaultCtfDirectory,
            };
        }
    }

    /// Starts editing the selected field with the given text.
    pub fn start_editing(&mut self, initial_value: String)
        ensures
            final(self).editing,
            final(self).input_buffer == initial_value,
            final(self).selected_field == old(self).selected_field,
    {
        self.editing = true;
        self.input_buffer = initial_value;
    }

    /// Stops editing and gives back the edited text (which stays in the buffer).
    pub fn finish_editing(&mut self) -> (r: String)
        ensures
            !final(self).editing,
            r@ == old(self).input_buffer@,
            final(self).input_buffer == old(self).input_buffer,
            final(self).selected_field == old(self).selected_field,
    {
        self.editing = false;
        self.input_buffer.clone()
    }

    /// Stops editing and empties the buffer.
    pub fn cancel_editing(&mut self)
        ensures
            !final(self).editing,
            final(self).input_buffer@.len() == 0,
            final(self).selected_field == old(self).selected_field,
    {
        self.editing = false;
        self.input_buffer = String::new();
    }

    /// `next` is this editor after typing `c`: appended while editing,
    /// nothing otherwise.
    pub open spec fn pushed(self, c: char, next: SettingsState) -> bool {
        &&& next.input_buffer@ == if self.editing {
            self.input_buffer@.push(c)
        } else {
            self.input_buffer@
        }
        &&& next.editing == self.editing
        &&& next.selected_field == self.selected_field
    }

    /// Appends a character while editing; does nothing otherwise.
    pub fn push_char(&mut self, c: char)
        ensures
            old(self).pushed(c, *final(self)),
    {
        if self.editing {
            push_char(&mut self.input_buffer, c);
        }
    }

    /// Removes the last character while editing; does nothing otherwise.
    pub fn pop_char(&mut self)
        ensures
            final(self).input_buffer@ == if old(self).editing && old(self).input_buffer@.len() > 0 {
                old(self).input_buffer@.drop_last()
            } else {
                old(self).input_buffer@
            },
            final(self).editing == old(self).editing,
            final(self).selected_field == old(self).selected_field,
    {
        if self.editing {
            let mut chars = chars_of(self.input_buffer.as_str());
            if chars.len() > 0 {
                chars.pop();
                self.input_buffer = string_from_chars(&chars);
            }
        }
    }
}

impl Default for SettingsState {
    fn default() -> (r: SettingsState)
        ensures
            r.selected_field == SettingField::DefaultCtfDirectory,
            !r.editing,
            r.input_buffer@.len() == 0,
    {
        SettingsState::new()
    }
}

/// Moving to the next field and then to the previous one gives back the
/// field that was selected, whether or not a field was being edited.
pub proof fn lemma_previous_undoes_next(s: SettingsState)
    ensures
        s.after_next_field().after_next_field() == s,
{
}

/// While a field is being edited, typing a character and then deleting it
/// gives back the text that was there.
pub proof fn lemma_pop_undoes_push(
    before: SettingsState,
    mid: SettingsState,
    after: SettingsState,
    c: char,
)
    requires
        before.editing,
        mid.editing == before.editing,
        mid.input_buffer@ == before.input_buffer@.push(c),
        after.input_buffer@ == if mid.editing && mid.input_buffer@.len() > 0 {
            mid.input_buffer@.drop_last()
        } else {
            mid.input_buffer@
        },
    ensures
        after.input_buffer@ == before.input_buffer@,
{
    assert(before.input_buffer@.push(c).drop_last() =~= before.input_buffer@);
}

/// Typing appends: once editing has started with the text `v`, typing the
/// characters `cs` one by one leaves `v` followed by `cs` in the editor
/// (which `finish_editing` then gives back), still editing the same field.
pub proof fn lemma_typing_appends(states: Seq<SettingsState>, v: Seq<char>, cs: Seq<char>)
    requires
        states.len() == cs.len() + 1,
        states[0].editing,
        states[0].input_buffer@ == v,
        forall|i: int| 0 <= i < cs.len() ==> (#[trigger] states[i]).pushed(cs[i], states[i + 1]),
    ensures
        states.last().input_buffer@ == v + cs,
        states.last().editing,
        states.last().selected_field == states[0].selected_field,
    decreases cs.len(),
{
    if cs.len() == 0 {
        assert(v + cs =~= v);
    } else {
        let n = cs.len() - 1;
        let front = states.take(n + 1);
        assert forall|i: int| 0 <= i < cs.take(n).len() implies (#[trigger] front[i]).pushed(
            cs.take(n)[i],
            front[i + 1],
        ) by {
            assert(front[i] == states[i]);
            assert(front[i + 1] == states[i + 1]);
        }
        lemma_typing_appends(front, v, cs.take(n));
        assert(front.last() == states[n]);
        assert(states[n].pushed(cs[n], states[n + 1]));
        assert(v + cs =~= (v + cs.take(n)).push(cs[n]));
    }
}

} // verus!
