//! Pop-up pickers: the model list and interview questions.
use vstd::prelude::*;

verus! {

/// Picker over the models the server offers.
pub struct ModelPickerState {
    pub models: Vec<String>,
    pub selected: usize,
}

impl ModelPickerState {
    pub fn move_up(&mut self)
        ensures
            final(self).models == old(self).models,
            final(self).selected == if old(self).selected == 0 {
                0
            } else {
                (old(self).selected - 1) as usize
            },
    {
        if self.selected > 0 {
            self.selected -= 1;
        }
    }

    pub fn move_down(&mut self)
        ensures
            final(self).models == old(self).models,
            final(self).selected == if old(self).selected + 1 < old(self).models@.len() {
                (old(self).selected + 1) as usize
            } else {
                old(self).selected
            },
    {
        if self.selected < self.models.len() && self.selected + 1 < self.models.len() {
            self.selected += 1;
        }
    }

    /// The highlighted model, if the highlight is on one.
    pub fn selected(&self) -> (r: Option<&str>)
        ensures
            self.selected < self.models@.len() ==> (r matches Some(s) && s@
                == self.models@[self.selected as int]@),
            self.selected >= self.models@.len() ==> r is None,
    {
        if self.selected < self.models.len() {
            Some(self.models[self.selected].as_str())
        } else {
            None
        }
    }
}

/// Picker for a question the agent asks the user: pick a suggestion or type
/// a custom answer. Delivering the answer to the waiting agent is up to the caller.
pub struct InterviewPickerState {
    pub question: String,
    pub suggestions: Vec<String>,
    pub selected: usize,
    pub custom_input: String,
    pub custom_mode: bool,
}

impl InterviewPickerState {
    pub fn move_up(&mut self)
        ensures
            final(self).suggestions == old(self).suggestions,
            final(self).custom_mode == old(self).custom_mode,
            final(self).selected == if !old(self).custom_mode && old(self).selected > 0 {
                (old(self).selected - 1) as usize
            } else {
                old(self).selected
            },
    {
        if !self.custom_mode && self.selected > 0 {
            self.selected -= 1;
        }
    }

    pub fn move_down(&mut self)
        ensures
            final(self).suggestions == old(self).suggestions,
            final(self).custom_mode == old(self).custom_mode,
            final(self).selected == if !old(self).custom_mode && old(self).selected + 1 < old(self).suggestions@.len() {
                (old(self).selected + 1) as usize
            } else {
                old(self).selected
            },
    {
        if !self.custom_mode && self.selected < self.suggestions.len() && self.selected + 1
            < self.suggestions.len() {
            self.selected += 1;
        }
    }

    /// The answer: the typed text in custom mode when it is not empty, else the
    /// highlighted suggestion; `None` when neither exists.
    pub fn submit(&mut self) -> (r: Option<String>)
        ensures
            *final(self) == *old(self),
            old(self).custom_mode && old(self).custom_input@.len() > 0 ==> (r matches Some(a)
                && a@ == old(self).custom_input@),
            !(old(self).custom_mode && old(self).custom_input@.len() > 0) ==> if old(self).selected < old(self).suggestions@.len() {
                r matches Some(a) && a@ == old(self).suggestions@[old(self).selected as int]@
            } else {
                r is None
            },
    {
        if self.custom_mode && !self.custom_input.as_str().is_empty() {
            Some(self.custom_input.clone())
        } else if self.selected < self.suggestions.len() {
            Some(self.suggestions[self.selected].clone())
        } else {
            None
        }
    }
}

} // verus!
