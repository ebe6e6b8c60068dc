//! Validation rules of the typed prompts, and the key handling around them.

use bluetui::address::Address;
use bluetui::agent::AuthAgent;
use bluetui::event::Event;
use bluetui::requests::enter_passkey::{self, EnterPasskey};
use bluetui::requests::enter_pin_code::{self, EnterPinCode};
use bluetui::requests::{InputError, InputKey};

fn new_agent() -> (AuthAgent, tokio::sync::mpsc::UnboundedReceiver<Event>) {
    let (tx, rx) = tokio::sync::mpsc::unbounded_channel();
    (AuthAgent::new(tx), rx)
}

fn typed_pin(text: &str) -> (EnterPinCode, AuthAgent, tokio::sync::mpsc::UnboundedReceiver<Event>) {
    let (agent, rx) = new_agent();
    let mut prompt = EnterPinCode::new("hci0".to_string(), Address::new(1));
    for c in text.chars() {
        prompt.handle_key_events(InputKey::Char(c), &agent).unwrap();
    }
    (prompt, agent, rx)
}

fn typed_passkey(
    text: &str,
) -> (EnterPasskey, AuthAgent, tokio::sync::mpsc::UnboundedReceiver<Event>) {
    let (agent, rx) = new_agent();
    let mut prompt = EnterPasskey::new("hci0".to_string(), Address::new(1));
    for c in text.chars() {
        prompt.handle_key_events(InputKey::Char(c), &agent).unwrap();
    }
    (prompt, agent, rx)
}

#[test]
fn pin_code_of_length_17_fails_and_sends_nothing() {
    let (mut prompt, agent, _rx) = typed_pin("01234567890123456");
    prompt.submit(&agent).unwrap();
    assert_eq!(prompt.pin_code.error, Some(InputError::InvalidPinCode));
    assert!(agent.rx_pin_code.try_recv().is_err());
}

#[test]
fn pin_code_of_length_16_passes() {
    let (mut prompt, agent, _rx) = typed_pin("0123456789012345");
    prompt.submit(&agent).unwrap();
    assert_eq!(prompt.pin_code.error, None);
    assert_eq!(agent.rx_pin_code.try_recv().unwrap(), "0123456789012345".to_string());
}

#[test]
fn empty_pin_code_is_required() {
    let (mut prompt, agent, _rx) = typed_pin("");
    prompt.submit(&agent).unwrap();
    assert_eq!(prompt.pin_code.error, Some(InputError::Required));
    assert_eq!(prompt.pin_code.error.unwrap().message(), "Required field.");
    assert!(agent.rx_pin_code.try_recv().is_err());
}

#[test]
fn passkey_with_seven_digits_fails() {
    let (mut prompt, agent, _rx) = typed_passkey("1000000");
    prompt.submit(&agent).unwrap();
    assert_eq!(prompt.passkey.error, Some(InputError::InvalidPasskey));
    assert!(agent.rx_passkey.try_recv().is_err());
}

#[test]
fn passkey_999999_passes_and_parses() {
    let (mut prompt, agent, _rx) = typed_passkey("999999");
    prompt.submit(&agent).unwrap();
    assert_eq!(prompt.passkey.error, None);
    assert_eq!(agent.rx_passkey.try_recv().unwrap(), 999999u32);
}

#[test]
fn passkey_with_a_letter_fails() {
    let (mut prompt, agent, _rx) = typed_passkey("12a");
    prompt.submit(&agent).unwrap();
    assert_eq!(prompt.passkey.error, Some(InputError::InvalidPasskey));
    assert_eq!(
        prompt.passkey.error.unwrap().message(),
        "Passkey should be a numeric value between 0-999999"
    );
    assert!(agent.rx_passkey.try_recv().is_err());
}

#[test]
fn passkey_zero_parses() {
    let (mut prompt, agent, _rx) = typed_passkey("0");
    prompt.submit(&agent).unwrap();
    assert_eq!(prompt.passkey.error, None);
    assert_eq!(agent.rx_passkey.try_recv().unwrap(), 0u32);
}

#[test]
fn validation_error_clears_after_editing() {
    let (mut prompt, agent, _rx) = typed_passkey("12a");
    prompt.submit(&agent).unwrap();
    assert_eq!(prompt.passkey.error, Some(InputError::InvalidPasskey));
    prompt.handle_key_events(InputKey::Backspace, &agent).unwrap();
    prompt.submit(&agent).unwrap();
    assert_eq!(prompt.passkey.error, None);
    assert_eq!(agent.rx_passkey.try_recv().unwrap(), 12u32);
}

#[test]
fn tab_moves_focus_and_enter_submits() {
    let (mut prompt, agent, _rx) = typed_pin("77");
    assert_eq!(prompt.focused_section, enter_pin_code::FocusedSection::Input);
    prompt.handle_key_events(InputKey::Tab, &agent).unwrap();
    assert_eq!(prompt.focused_section, enter_pin_code::FocusedSection::Submit);
    // Characters no longer edit the field on the submit button.
    prompt.handle_key_events(InputKey::Char('9'), &agent).unwrap();
    prompt.handle_key_events(InputKey::Enter, &agent).unwrap();
    assert_eq!(agent.rx_pin_code.try_recv().unwrap(), "77".to_string());
}

#[test]
fn backtab_moves_focus_back() {
    let (mut prompt, agent, _rx) = typed_passkey("5");
    prompt.handle_key_events(InputKey::Tab, &agent).unwrap();
    assert_eq!(prompt.focused_section, enter_passkey::FocusedSection::Submit);
    prompt.handle_key_events(InputKey::BackTab, &agent).unwrap();
    assert_eq!(prompt.focused_section, enter_passkey::FocusedSection::Input);
}

#[test]
fn parse_passkey_reads_decimal() {
    assert_eq!(enter_passkey::parse_passkey("482913"), 482913);
    assert_eq!(enter_passkey::parse_passkey("7"), 7);
    assert_eq!(enter_passkey::parse_passkey("000000"), 0);
}
