//! The EnterPasskey prompt: the operator types a number between 0 and
//! 999999, at most six decimal digits.

use vstd::prelude::*;
use vstd::string::StrSliceExecFns;

use crate::address::Address;
use crate::agent::AuthAgent;
use crate::app::{AppError, AppResult};
use crate::channels::{send_unbounded, try_send_on};
use crate::event::Event;
use crate::requests::{InputError, InputKey, UserInputField};
use crate::strings::{pop_char, push_char};

verus! {

/// Which half of the modal the operator is on.
#[derive(Debug, Clone, Copy, PartialEq, Eq, Structural)]
pub enum FocusedSection {
    Input,
    Submit,
}

pub open spec fn toggled(f: FocusedSection) -> FocusedSection {
    match f {
        FocusedSection::Input => FocusedSection::Submit,
        FocusedSection::Submit => FocusedSection::Input,
    }
}

pub open spec fn is_decimal_digit(c: char) -> bool {
    '0' <= c && c <= '9'
}

pub open spec fn digit_value(c: char) -> int {
    c as int - '0' as int
}

pub open spec fn all_decimal_digits(s: Seq<char>) -> bool {
    forall|i: int| 0 <= i < s.len() ==> is_decimal_digit(#[trigger] s[i])
}

/// The number a digit string denotes, most significant digit first.
pub open spec fn decimal_value(s: Seq<char>) -> int
    decreases s.len(),
{
    if s.len() == 0 {
        0
    } else {
        decimal_value(s.drop_last()) * 10 + digit_value(s.last())
    }
}

pub open spec fn pow10(n: nat) -> int
    decreases n,
{
    if n == 0 {
        1
    } else {
        10 * pow10((n - 1) as nat)
    }
}

pub proof fn lemma_pow10_pos(n: nat)
    ensures
        pow10(n) >= 1,
    decreases n,
{
    if n > 0 {
        lemma_pow10_pos((n - 1) as nat);
    }
}

pub proof fn lemma_pow10_monotonic(a: nat, b: nat)
    requires
        a <= b,
    ensures
        pow10(a) <= pow10(b),
    decreases b,
{
    if a < b {
        lemma_pow10_monotonic(a, (b - 1) as nat);
        lemma_pow10_pos((b - 1) as nat);
    }
}

/// A digit string's value is below ten to its length.
pub proof fn lemma_decimal_value_bound(s: Seq<char>)
    requires
        all_decimal_digits(s),
    ensures
        0 <= decimal_value(s) < pow10(s.len()),
    decreases s.len(),
{
    if s.len() > 0 {
        assert(all_decimal_digits(s.drop_last())) by {
            assert(forall|i: int|
                0 <= i < s.len() - 1 ==> s.drop_last()[i] == #[trigger] s[i]);
        }
        lemma_decimal_value_bound(s.drop_last());
        assert(0 <= digit_value(s.last()) <= 9);
    }
}

/// A passkey is valid when it is one to six decimal digits.
pub open spec fn passkey_validation(s: Seq<char>) -> Option<InputError> {
    if s.len() == 0 {
        Some(InputError::Required)
    } else if s.len() > 6 {
        Some(InputError::InvalidPasskey)
    } else if !all_decimal_digits(s) {
        Some(InputError::InvalidPasskey)
    } else {
        None
    }
}

/// An open "enter the passkey" prompt.
#[derive(Debug, Clone)]
pub struct EnterPasskey {
    pub adapter: String,
    pub device: Address,
    pub focused_section: FocusedSection,
    pub passkey: UserInputField,
}

impl EnterPasskey {
    /// Everything but the typed text and the error verdict is the same.
    pub open spec fn same_frame(self, other: EnterPasskey) -> bool {
        self.adapter == other.adapter && self.device == other.device && self.focused_section
            == other.focused_section
    }

    pub fn new(adapter: String, device: Address) -> (r: Self)
        ensures
            r.adapter == adapter,
            r.device == device,
            r.focused_section == FocusedSection::Input,
            r.passkey.text@ == Seq::<char>::empty(),
            r.passkey.error is None,
    {
        EnterPasskey {
            adapter,
            device,
            focused_section: FocusedSection::Input,
            passkey: UserInputField::default(),
        }
    }

    /// Re-checks the typed text and stores the verdict in the error field.
    pub fn validate(&mut self)
        ensures
            old(self).same_frame(*final(self)),
            final(self).passkey.text == old(self).passkey.text,
            final(self).passkey.error == passkey_validation(old(self).passkey.text@),
    {
        let n = self.passkey.text.as_str().unicode_len();
        if n == 0 {
            self.passkey.error = Some(InputError::Required);
            return;
        }
        if n > 6 {
            self.passkey.error = Some(InputError::InvalidPasskey);
            return;
        }
        let mut i: usize = 0;
        let mut all_digits = true;
        while i < n
            invariant
                n == self.passkey.text@.len(),
                i <= n,
                all_digits == all_decimal_digits(self.passkey.text@.subrange(0, i as int)),
            decreases n - i,
        {
            let c = self.passkey.text.as_str().get_char(i);
            let digit = '0' <= c && c <= '9';
            proof {
                let pre = self.passkey.text@.subrange(0, i as int);
                let nxt = self.passkey.text@.subrange(0, i + 1 as int);
                assert(nxt.drop_last() == pre);
                assert(nxt.last() == self.passkey.text@[i as int]);
                assert(all_decimal_digits(nxt) == (all_decimal_digits(pre) && is_decimal_digit(
                    self.passkey.text@[i as int],
                ))) by {
                    if all_decimal_digits(pre) && is_decimal_digit(self.passkey.text@[i as int]) {
                        assert(forall|j: int| 0 <= j < nxt.len() - 1 ==> nxt[j] == pre[j]);
                    }
                }
            }
            all_digits = all_digits && digit;
            i += 1;
        }
        proof {
            assert(self.passkey.text@.subrange(0, n as int) == self.passkey.text@);
        }
        if all_digits {
            self.passkey.error = None;
        } else {
            self.passkey.error = Some(InputError::InvalidPasskey);
        }
    }

    /// Validates, and only on success sends the parsed number on the
    /// response channel and emits the clearing event. A failing validation
    /// keeps the modal open: the error is set and nothing is sent.
    pub fn submit(&mut self, agent: &AuthAgent) -> (r: AppResult<()>)
        ensures
            old(self).same_frame(*final(self)),
            final(self).passkey.text == old(self).passkey.text,
            final(self).passkey.error == passkey_validation(old(self).passkey.text@),
            passkey_validation(old(self).passkey.text@) is Some ==> r == Ok::<(), AppError>(()),
            r matches Err(e) ==> e == AppError::ChannelClosed,
    {
        self.validate();
        if self.passkey.error.is_some() {
            return Ok(());
        }
        let value = parse_passkey(self.passkey.text.as_str());
        if !try_send_on(&agent.tx_passkey, value) {
            return Err(AppError::ChannelClosed);
        }
        if send_unbounded(&agent.event_sender, Event::PasskeySubmitted) {
            Ok(())
        } else {
            Err(AppError::ChannelClosed)
        }
    }

    /// Signals the shared cancellation channel and emits the clearing event.
    pub fn cancel(&self, agent: &AuthAgent) -> (r: AppResult<()>)
        ensures
            r matches Err(e) ==> e == AppError::ChannelClosed,
    {
        if !try_send_on(&agent.tx_cancel, ()) {
            return Err(AppError::ChannelClosed);
        }
        if send_unbounded(&agent.event_sender, Event::PasskeySubmitted) {
            Ok(())
        } else {
            Err(AppError::ChannelClosed)
        }
    }

    /// What one key press does to the prompt state.
    pub open spec fn key_step(pre: EnterPasskey, post: EnterPasskey, key: InputKey) -> bool {
        match key {
            InputKey::Tab | InputKey::BackTab => post == (EnterPasskey {
                focused_section: toggled(pre.focused_section),
                ..pre
            }),
            InputKey::Enter => if pre.focused_section == FocusedSection::Submit {
                pre.same_frame(post) && post.passkey.text == pre.passkey.text
                    && post.passkey.error == passkey_validation(pre.passkey.text@)
            } else {
                post == pre
            },
            InputKey::Char(c) => if pre.focused_section == FocusedSection::Input {
                pre.same_frame(post) && post.passkey.error == pre.passkey.error
                    && post.passkey.text@ == pre.passkey.text@.push(c)
            } else {
                post == pre
            },
            InputKey::Backspace => if pre.focused_section == FocusedSection::Input {
                pre.same_frame(post) && post.passkey.error == pre.passkey.error
                    && post.passkey.text@ == (if pre.passkey.text@.len() == 0 {
                    pre.passkey.text@
                } else {
                    pre.passkey.text@.drop_last()
                })
            } else {
                post == pre
            },
            _ => post == pre,
        }
    }

    /// Routes one key press: Tab switches between input and submit, Enter on
    /// the submit button submits, Esc cancels the prompt, and printable keys
    /// edit the text.
    pub fn handle_key_events(&mut self, key: InputKey, agent: &AuthAgent) -> (r: AppResult<()>)
        ensures
            Self::key_step(*old(self), *final(self), key),
            !(key == InputKey::Enter && old(self).focused_section == FocusedSection::Submit)
                && key != InputKey::Esc ==> r == Ok::<(), AppError>(()),
            key == InputKey::Enter && old(self).focused_section == FocusedSection::Submit
                && passkey_validation(old(self).passkey.text@) is Some ==> r == Ok::<
                (),
                AppError,
            >(()),
            r matches Err(e) ==> e == AppError::ChannelClosed,
    {
        match key {
            InputKey::Tab | InputKey::BackTab => {
                if self.focused_section == FocusedSection::Input {
                    self.focused_section = FocusedSection::Submit;
                } else {
                    self.focused_section = FocusedSection::Input;
                }
                Ok(())
            },
            InputKey::Esc => self.cancel(agent),
            _ => {
                match self.focused_section {
                    FocusedSection::Submit => {
                        if key == InputKey::Enter {
                            self.submit(agent)
                        } else {
                            Ok(())
                        }
                    },
                    FocusedSection::Input => {
                        match key {
                            InputKey::Char(c) => {
                                push_char(&mut self.passkey.text, c);
                            },
                            InputKey::Backspace => {
                                let _ = pop_char(&mut self.passkey.text);
                            },
                            _ => {},
                        }
                        Ok(())
                    },
                }
            },
        }
    }
}

/// Reads a validated passkey: at most six decimal digits, so the result is
/// at most 999999.
pub fn parse_passkey(text: &str) -> (r: u32)
    requires
        passkey_validation(text@) is None,
    ensures
        r as int == decimal_value(text@),
        r <= 999999,
{
    let n = text.unicode_len();
    let mut acc: u32 = 0;
    let mut i: usize = 0;
    proof {
        assert(pow10(0) == 1);
        assert(pow10(1) == 10);
        assert(pow10(2) == 100);
        assert(pow10(3) == 1000);
        assert(pow10(4) == 10000);
        assert(pow10(5) == 100000);
        assert(pow10(6) == 1000000);
    }
    while i < n
        invariant
            n == text@.len(),
            1 <= n <= 6,
            i <= n,
            all_decimal_digits(text@),
            acc as int == decimal_value(text@.subrange(0, i as int)),
            (acc as int) < pow10(i as nat),
            pow10(5) == 100000,
            pow10(6) == 1000000,
        decreases n - i,
    {
        let c = text.get_char(i);
        let d = (c as u32) - ('0' as u32);
        proof {
            let pre = text@.subrange(0, i as int);
            let nxt = text@.subrange(0, i + 1 as int);
            assert(nxt.drop_last() == pre);
            assert(nxt.last() == text@[i as int]);
            assert(is_decimal_digit(text@[i as int]));
            lemma_decimal_value_bound(pre);
            lemma_pow10_monotonic(i as nat, 5);
        }
        acc = acc * 10 + d;
        i += 1;
    }
    proof {
        assert(text@.subrange(0, n as int) == text@);
    }
    acc
}

} // verus!
