//! The UI-owned pairing prompts: one optional slot per interaction shape.
//!
//! A slot is filled when the agent bridge publishes the matching prompt
//! event, mutated by operator key presses, and emptied again by the clearing
//! event its `submit`/`cancel` emits. At most one prompt per shape is open at
//! a time; the slot itself is that invariant. A prompt whose session the
//! stack already resolved is dismissed the same way — its cancel or
//! acknowledgement still clears the slot, and whatever it sent on the dead
//! session's channel is discarded before the next prompt of that shape.

pub mod confirmation;
pub mod display_passkey;
pub mod display_pin_code;
pub mod enter_passkey;
pub mod enter_pin_code;

use vstd::prelude::*;

use crate::app::FocusedBlock;
use crate::event::Event;
use crate::requests::confirmation::Confirmation;
use crate::requests::display_passkey::{DisplayPasskey, PASSKEY_DIGITS};
use crate::requests::display_pin_code::DisplayPinCode;
use crate::requests::enter_passkey::EnterPasskey;
use crate::requests::enter_pin_code::EnterPinCode;

verus! {

/// A key press, reduced to what the prompt state machines react to.
#[derive(Debug, Clone, Copy, PartialEq, Eq, Structural)]
pub enum InputKey {
    Tab,
    BackTab,
    Enter,
    Backspace,
    Char(char),
    Esc,
    Other,
}

/// Why a typed input was rejected.
#[derive(Debug, Clone, Copy, PartialEq, Eq, Structural)]
pub enum InputError {
    /// The field is empty.
    Required,
    /// A PIN code must be 1 to 16 characters long.
    InvalidPinCode,
    /// A passkey must be a number between 0 and 999999.
    InvalidPasskey,
}

impl InputError {
    /// The line shown under the input field.
    pub fn message(&self) -> (r: &'static str)
        ensures
            *self == InputError::Required ==> r@ == "Required field."@,
            *self == InputError::InvalidPinCode ==> r@
                == "Pin Code should be a string of 1-16 characters length"@,
            *self == InputError::InvalidPasskey ==> r@
                == "Passkey should be a numeric value between 0-999999"@,
    {
        match self {
            InputError::Required => "Required field.",
            InputError::InvalidPinCode => "Pin Code should be a string of 1-16 characters length",
            InputError::InvalidPasskey => "Passkey should be a numeric value between 0-999999",
        }
    }
}

/// A text field the operator types into, with its current validation error.
/// Editing is modelled as appending and removing at the end of the text;
/// cursor movement and mid-string edits are presentation concerns left to
/// the terminal layer.
#[derive(Debug, Clone)]
pub struct UserInputField {
    pub text: String,
    pub error: Option<InputError>,
}

impl Default for UserInputField {
    fn default() -> (r: Self)
        ensures
            r.text@ == Seq::<char>::empty(),
            r.error is None,
    {
        UserInputField { text: String::new(), error: None }
    }
}

/// The single-slot containers, one per interaction shape.
#[derive(Debug)]
pub struct Requests {
    pub confirmation: Option<Confirmation>,
    pub enter_pin_code: Option<EnterPinCode>,
    pub enter_passkey: Option<EnterPasskey>,
    pub display_pin_code: Option<DisplayPinCode>,
    pub display_passkey: Option<DisplayPasskey>,
}

impl Default for Requests {
    fn default() -> (r: Self)
        ensures
            r.confirmation is None,
            r.enter_pin_code is None,
            r.enter_passkey is None,
            r.display_pin_code is None,
            r.display_passkey is None,
    {
        Requests {
            confirmation: None,
            enter_pin_code: None,
            enter_passkey: None,
            display_pin_code: None,
            display_passkey: None,
        }
    }
}

impl Requests {
    pub fn init_confirmation(&mut self, req: Confirmation)
        ensures
            *final(self) == (Requests { confirmation: Some(req), ..*old(self) }),
    {
        self.confirmation = Some(req);
    }

    pub fn init_enter_pin_code(&mut self, req: EnterPinCode)
        ensures
            *final(self) == (Requests { enter_pin_code: Some(req), ..*old(self) }),
    {
        self.enter_pin_code = Some(req);
    }

    pub fn init_enter_passkey(&mut self, req: EnterPasskey)
        ensures
            *final(self) == (Requests { enter_passkey: Some(req), ..*old(self) }),
    {
        self.enter_passkey = Some(req);
    }

    pub fn init_display_pin_code(&mut self, req: DisplayPinCode)
        ensures
            *final(self) == (Requests { display_pin_code: Some(req), ..*old(self) }),
    {
        self.display_pin_code = Some(req);
    }

    pub fn init_display_passkey(&mut self, req: DisplayPasskey)
        ensures
            *final(self) == (Requests { display_passkey: Some(req), ..*old(self) }),
    {
        self.display_passkey = Some(req);
    }
}

/// When a shown passkey counts as finished. The stack's own signal and the
/// digit count disagree across observed behaviours, so the choice is an
/// explicit knob rather than a guess.
#[derive(Debug, Clone, Copy, PartialEq, Eq, Structural)]
pub enum DisplayPasskeyPolicy {
    /// Close the prompt as soon as all six digits were typed.
    AutoCloseWhenComplete,
    /// Keep the prompt until the stack sends its completion event.
    AwaitStackSignal,
}

/// What one UI event does to the slots, and which block takes the focus.
pub open spec fn event_step(
    pre: Requests,
    ev: Event,
    policy: DisplayPasskeyPolicy,
) -> (Requests, Option<FocusedBlock>) {
    match ev {
        Event::RequestConfirmation(req) => (
            Requests { confirmation: Some(req), ..pre },
            Some(FocusedBlock::RequestConfirmation),
        ),
        Event::ConfirmationSubmitted => (
            Requests { confirmation: None, ..pre },
            Some(FocusedBlock::PairedDevices),
        ),
        Event::RequestEnterPinCode(req) => (
            Requests { enter_pin_code: Some(req), ..pre },
            Some(FocusedBlock::EnterPinCode),
        ),
        Event::PinCodeSubmitted => (
            Requests { enter_pin_code: None, ..pre },
            Some(FocusedBlock::PairedDevices),
        ),
        Event::RequestEnterPasskey(req) => (
            Requests { enter_passkey: Some(req), ..pre },
            Some(FocusedBlock::EnterPasskey),
        ),
        Event::PasskeySubmitted => (
            Requests { enter_passkey: None, ..pre },
            Some(FocusedBlock::PairedDevices),
        ),
        Event::RequestDisplayPinCode(req) => (
            Requests { display_pin_code: Some(req), ..pre },
            Some(FocusedBlock::DisplayPinCode),
        ),
        Event::DisplayPinCodeSeen => (
            Requests { display_pin_code: None, ..pre },
            Some(FocusedBlock::PairedDevices),
        ),
        Event::RequestDisplayPasskey(req) => {
            let (updated, focus) = match pre.display_passkey {
                Some(cur) => (
                    DisplayPasskey { entered: req.entered, ..cur },
                    None,
                ),
                None => (req, Some(FocusedBlock::DisplayPasskey)),
            };
            if policy == DisplayPasskeyPolicy::AutoCloseWhenComplete && updated.entered
                >= PASSKEY_DIGITS {
                (Requests { display_passkey: None, ..pre }, Some(FocusedBlock::PairedDevices))
            } else {
                (Requests { display_passkey: Some(updated), ..pre }, focus)
            }
        },
        Event::DisplayPasskeySeen => (
            Requests { display_passkey: None, ..pre },
            Some(FocusedBlock::PairedDevices),
        ),
        Event::DisplayPasskeyCanceled => (
            Requests { display_passkey: None, ..pre },
            Some(FocusedBlock::PairedDevices),
        ),
        Event::Notification(_) => (pre, None),
        Event::NewPairedDevice(_) => (pre, Some(FocusedBlock::PairedDevices)),
    }
}

impl Requests {
    /// Runs one step of the UI loop's reaction to an agent or clearing
    /// event: prompts fill their slot and take the focus, clearing events
    /// empty it and hand the focus back to the device list, and a repeated
    /// DisplayPasskey prompt only updates the digit count of the open one.
    pub fn apply_event(&mut self, event: Event, policy: DisplayPasskeyPolicy) -> (focus: Option<
        FocusedBlock,
    >)
        ensures
            (*final(self), focus) == event_step(*old(self), event, policy),
    {
        match event {
            Event::RequestConfirmation(req) => {
                self.confirmation = Some(req);
                Some(FocusedBlock::RequestConfirmation)
            },
            Event::ConfirmationSubmitted => {
                self.confirmation = None;
                Some(FocusedBlock::PairedDevices)
            },
            Event::RequestEnterPinCode(req) => {
                self.enter_pin_code = Some(req);
                Some(FocusedBlock::EnterPinCode)
            },
            Event::PinCodeSubmitted => {
                self.enter_pin_code = None;
                Some(FocusedBlock::PairedDevices)
            },
            Event::RequestEnterPasskey(req) => {
                self.enter_passkey = Some(req);
                Some(FocusedBlock::EnterPasskey)
            },
            Event::PasskeySubmitted => {
                self.enter_passkey = None;
                Some(FocusedBlock::PairedDevices)
            },
            Event::RequestDisplayPinCode(req) => {
                self.display_pin_code = Some(req);
                Some(FocusedBlock::DisplayPinCode)
            },
            Event::DisplayPinCodeSeen => {
                self.display_pin_code = None;
                Some(FocusedBlock::PairedDevices)
            },
            Event::RequestDisplayPasskey(req) => {
                let (updated, focus) = match self.display_passkey.take() {
                    Some(mut cur) => {
                        cur.entered = req.entered;
                        (cur, None)
                    },
                    None => {
                        let focus = Some(FocusedBlock::DisplayPasskey);
                        (req, focus)
                    },
                };
                if policy == DisplayPasskeyPolicy::AutoCloseWhenComplete && updated.entered
                    >= PASSKEY_DIGITS {
                    self.display_passkey = None;
                    Some(FocusedBlock::PairedDevices)
                } else {
                    self.display_passkey = Some(updated);
                    focus
                }
            },
            Event::DisplayPasskeySeen => {
                self.display_passkey = None;
                Some(FocusedBlock::PairedDevices)
            },
            Event::DisplayPasskeyCanceled => {
                self.display_passkey = None;
                Some(FocusedBlock::PairedDevices)
            },
            Event::Notification(_) => None,
            Event::NewPairedDevice(_) => Some(FocusedBlock::PairedDevices),
        }
    }
}

/// Law: every clearing event leaves its shape's slot empty, whatever was in
/// it and whatever the completion policy.
pub proof fn lemma_clearing_event_empties_slot(pre: Requests, policy: DisplayPasskeyPolicy)
    ensures
        event_step(pre, Event::ConfirmationSubmitted, policy).0.confirmation is None,
        event_step(pre, Event::PinCodeSubmitted, policy).0.enter_pin_code is None,
        event_step(pre, Event::PasskeySubmitted, policy).0.enter_passkey is None,
        event_step(pre, Event::DisplayPinCodeSeen, policy).0.display_pin_code is None,
        event_step(pre, Event::DisplayPasskeyCanceled, policy).0.display_passkey is None,
{
}

/// Law: while a DisplayPasskey prompt is open, a repeated prompt for the
/// shape does not replace it: only the count of typed digits changes, and no
/// focus change announces a new modal. (Under the auto-close policy a full
/// count closes the prompt instead.)
pub proof fn lemma_display_passkey_updates_in_place(pre: Requests, update: DisplayPasskey)
    requires
        pre.display_passkey is Some,
    ensures
        pre.display_passkey matches Some(cur) ==> event_step(
            pre,
            Event::RequestDisplayPasskey(update),
            DisplayPasskeyPolicy::AwaitStackSignal,
        ) == (
            Requests {
                display_passkey: Some(DisplayPasskey { entered: update.entered, ..cur }),
                ..pre
            },
            None::<FocusedBlock>,
        ),
{
}

/// `input` left-padded with spaces to `length` characters; text already that
/// long comes back unchanged.
pub open spec fn padded(s: Seq<char>, length: int) -> Seq<char>
    decreases length - s.len(),
{
    if s.len() >= length {
        s
    } else {
        padded(s.push(' '), length)
    }
}

pub fn pad_str(input: &str, length: usize) -> (r: String)
    ensures
        r@ == padded(input@, length as int),
{
    let mut s = input.to_owned();
    pad_in_place(&mut s, length);
    s
}

pub fn pad_string(input: String, length: usize) -> (r: String)
    ensures
        r@ == padded(input@, length as int),
{
    let mut s = input;
    pad_in_place(&mut s, length);
    s
}

fn pad_in_place(s: &mut String, length: usize)
    ensures
        final(s)@ == padded(old(s)@, length as int),
{
    let mut n = s.unicode_len();
    while n < length
        invariant
            n == s@.len(),
            padded(s@, length as int) == padded(old(s)@, length as int),
        decreases length - n,
    {
        crate::strings::push_char(s, ' ');
        n += 1;
    }
}

} // verus!
