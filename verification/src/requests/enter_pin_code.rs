//! The EnterPinCode prompt: the operator types a PIN of 1 to 16 characters.

use vstd::prelude::*;
use vstd::string::StrSliceExecFns;

use crate::address::Address;
use crate::agent::AuthAgent;
use crate::app::{AppError, AppResult};
use crate::channels::{send_unbounded, try_send_on};
use crate::event::Event;
use crate::requests::{InputError, InputKey, UserInputField};
use crate::strings::{pop_char, push_char};

verus! {

/// Which half of the modal the operator is on.
#[derive(Debug, Clone, Copy, PartialEq, Eq, Structural)]
pub enum FocusedSection {
    Input,
    Submit,
}

pub open spec fn toggled(f: FocusedSection) -> FocusedSection {
    match f {
        FocusedSection::Input => FocusedSection::Submit,
        FocusedSection::Submit => FocusedSection::Input,
    }
}

/// A PIN code is valid when it is 1 to 16 characters long.
pub open spec fn pin_code_validation(s: Seq<char>) -> Option<InputError> {
    if s.len() == 0 {
        Some(InputError::Required)
    } else if s.len() > 16 {
        Some(InputError::InvalidPinCode)
    } else {
        None
    }
}

/// An open "enter the PIN code" prompt.
#[derive(Debug, Clone)]
pub struct EnterPinCode {
    pub adapter: String,
    pub device: Address,
    pub focused_section: FocusedSection,
    pub pin_code: UserInputField,
}

impl EnterPinCode {
    /// Everything but the typed text and the error verdict is the same.
    pub open spec fn same_frame(self, other: EnterPinCode) -> bool {
        self.adapter == other.adapter && self.device == other.device && self.focused_section
            == other.focused_section
    }

    pub fn new(adapter: String, device: Address) -> (r: Self)
        ensures
            r.adapter == adapter,
            r.device == device,
            r.focused_section == FocusedSection::Input,
            r.pin_code.text@ == Seq::<char>::empty(),
            r.pin_code.error is None,
    {
        EnterPinCode {
            adapter,
            device,
            focused_section: FocusedSection::Input,
            pin_code: UserInputField::default(),
        }
    }

    /// Re-checks the typed text and stores the verdict in the error field.
    pub fn validate(&mut self)
        ensures
            old(self).same_frame(*final(self)),
            final(self).pin_code.text == old(self).pin_code.text,
            final(self).pin_code.error == pin_code_validation(old(self).pin_code.text@),
    {
        let n = self.pin_code.text.as_str().unicode_len();
        if n == 0 {
            self.pin_code.error = Some(InputError::Required);
        } else if n > 16 {
            self.pin_code.error = Some(InputError::InvalidPinCode);
        } else {
            self.pin_code.error = None;
        }
    }

    /// Validates, and only on success sends the PIN on the response channel
    /// and emits the clearing event. A failing validation keeps the modal
    /// open: the error is set and nothing is sent.
    pub fn submit(&mut self, agent: &AuthAgent) -> (r: AppResult<()>)
        ensures
            old(self).same_frame(*final(self)),
            final(self).pin_code.text == old(self).pin_code.text,
            final(self).pin_code.error == pin_code_validation(old(self).pin_code.text@),
            pin_code_validation(old(self).pin_code.text@) is Some ==> r == Ok::<(), AppError>(()),
            r matches Err(e) ==> e == AppError::ChannelClosed,
    {
        self.validate();
        if self.pin_code.error.is_some() {
            return Ok(());
        }
        if !try_send_on(&agent.tx_pin_code, self.pin_code.text.clone()) {
            return Err(AppError::ChannelClosed);
        }
        if send_unbounded(&agent.event_sender, Event::PinCodeSubmitted) {
            Ok(())
        } else {
            Err(AppError::ChannelClosed)
        }
    }

    /// Signals the shared cancellation channel and emits the clearing event.
    pub fn cancel(&self, agent: &AuthAgent) -> (r: AppResult<()>)
        ensures
            r matches Err(e) ==> e == AppError::ChannelClosed,
    {
        if !try_send_on(&agent.tx_cancel, ()) {
            return Err(AppError::ChannelClosed);
        }
        if send_unbounded(&agent.event_sender, Event::PinCodeSubmitted) {
            Ok(())
        } else {
            Err(AppError::ChannelClosed)
        }
    }

    /// What one key press does to the prompt state.
    pub open spec fn key_step(pre: EnterPinCode, post: EnterPinCode, key: InputKey) -> bool {
        match key {
            InputKey::Tab | InputKey::BackTab => post == (EnterPinCode {
                focused_section: toggled(pre.focused_section),
                ..pre
            }),
            InputKey::Enter => if pre.focused_section == FocusedSection::Submit {
                pre.same_frame(post) && post.pin_code.text == pre.pin_code.text
                    && post.pin_code.error == pin_code_validation(pre.pin_code.text@)
            } else {
                post == pre
            },
            InputKey::Char(c) => if pre.focused_section == FocusedSection::Input {
                pre.same_frame(post) && post.pin_code.error == pre.pin_code.error
                    && post.pin_code.text@ == pre.pin_code.text@.push(c)
            } else {
                post == pre
            },
            InputKey::Backspace => if pre.focused_section == FocusedSection::Input {
                pre.same_frame(post) && post.pin_code.error == pre.pin_code.error
                    && post.pin_code.text@ == (if pre.pin_code.text@.len() == 0 {
                    pre.pin_code.text@
                } else {
                    pre.pin_code.text@.drop_last()
                })
            } else {
                post == pre
            },
            _ => post == pre,
        }
    }

    /// Routes one key press: Tab switches between input and submit, Enter on
    /// the submit button submits, Esc cancels the prompt, and printable keys
    /// edit the text.
    pub fn handle_key_events(&mut self, key: InputKey, agent: &AuthAgent) -> (r: AppResult<()>)
        ensures
            Self::key_step(*old(self), *final(self), key),
            !(key == InputKey::Enter && old(self).focused_section == FocusedSection::Submit)
                && key != InputKey::Esc ==> r == Ok::<(), AppError>(()),
            key == InputKey::Enter && old(self).focused_section == FocusedSection::Submit
                && pin_code_validation(old(self).pin_code.text@) is Some ==> r == Ok::<
                (),
                AppError,
            >(()),
            r matches Err(e) ==> e == AppError::ChannelClosed,
    {
        match key {
            InputKey::Tab | InputKey::BackTab => {
                if self.focused_section == FocusedSection::Input {
                    self.focused_section = FocusedSection::Submit;
                } else {
                    self.focused_section = FocusedSection::Input;
                }
                Ok(())
            },
            InputKey::Esc => self.cancel(agent),
            _ => {
                match self.focused_section {
                    FocusedSection::Submit => {
                        if key == InputKey::Enter {
                            self.submit(agent)
                        } else {
                            Ok(())
                        }
                    },
                    FocusedSection::Input => {
                        match key {
                            InputKey::Char(c) => {
                                push_char(&mut self.pin_code.text, c);
                            },
                            InputKey::Backspace => {
                                let _ = pop_char(&mut self.pin_code.text);
                            },
                            _ => {},
                        }
                        Ok(())
                    },
                }
            },
        }
    }
}

} // verus!
