//! The UI loop's reaction to agent events: slots fill and clear, and a
//! repeated DisplayPasskey prompt updates the open one in place.

use bluetui::address::Address;
use bluetui::app::FocusedBlock;
use bluetui::event::Event;
use bluetui::requests::confirmation::Confirmation;
use bluetui::requests::display_passkey::DisplayPasskey;
use bluetui::requests::{DisplayPasskeyPolicy, Requests};

fn shown_passkey(entered: u16) -> DisplayPasskey {
    DisplayPasskey::new("hci0".to_string(), Address::new(77), 482913, entered)
}

#[test]
fn display_passkey_updates_count_in_place() {
    // The prompt arrives with no digits typed; two updates stream in; the
    // open prompt keeps its identity and only the count moves.
    let policy = DisplayPasskeyPolicy::AwaitStackSignal;
    let mut requests = Requests::default();

    let focus = requests.apply_event(Event::RequestDisplayPasskey(shown_passkey(0)), policy);
    assert_eq!(focus, Some(FocusedBlock::DisplayPasskey));
    assert_eq!(requests.display_passkey.as_ref().unwrap().entered, 0);

    let focus = requests.apply_event(
        Event::RequestDisplayPasskey(DisplayPasskey::new(
            "other".to_string(),
            Address::new(1),
            482913,
            3,
        )),
        policy,
    );
    // No focus change: no new modal was created.
    assert_eq!(focus, None);
    let open = requests.display_passkey.as_ref().unwrap();
    assert_eq!(open.entered, 3);
    // Identity of the open prompt is untouched by the update.
    assert_eq!(open.adapter, "hci0");
    assert_eq!(open.device, Address::new(77));

    let focus = requests.apply_event(Event::RequestDisplayPasskey(shown_passkey(6)), policy);
    assert_eq!(focus, None);
    assert_eq!(requests.display_passkey.as_ref().unwrap().entered, 6);

    // Under this policy only the stack's signal closes the prompt.
    let focus = requests.apply_event(Event::DisplayPasskeySeen, policy);
    assert_eq!(focus, Some(FocusedBlock::PairedDevices));
    assert!(requests.display_passkey.is_none());
}

#[test]
fn display_passkey_auto_close_policy_closes_at_full_count() {
    let policy = DisplayPasskeyPolicy::AutoCloseWhenComplete;
    let mut requests = Requests::default();

    requests.apply_event(Event::RequestDisplayPasskey(shown_passkey(0)), policy);
    let focus = requests.apply_event(Event::RequestDisplayPasskey(shown_passkey(3)), policy);
    assert_eq!(focus, None);
    assert_eq!(requests.display_passkey.as_ref().unwrap().entered, 3);

    let focus = requests.apply_event(Event::RequestDisplayPasskey(shown_passkey(6)), policy);
    assert_eq!(focus, Some(FocusedBlock::PairedDevices));
    assert!(requests.display_passkey.is_none());
}

#[test]
fn prompts_take_focus_and_clearing_events_return_it() {
    let policy = DisplayPasskeyPolicy::AwaitStackSignal;
    let mut requests = Requests::default();

    let prompt = Confirmation::new("hci0".to_string(), Address::new(5), 13);
    let focus = requests.apply_event(Event::RequestConfirmation(prompt), policy);
    assert_eq!(focus, Some(FocusedBlock::RequestConfirmation));
    assert!(requests.confirmation.is_some());

    let focus = requests.apply_event(Event::ConfirmationSubmitted, policy);
    assert_eq!(focus, Some(FocusedBlock::PairedDevices));
    assert!(requests.confirmation.is_none());

    // Clearing an already empty slot is harmless.
    let focus = requests.apply_event(Event::PinCodeSubmitted, policy);
    assert_eq!(focus, Some(FocusedBlock::PairedDevices));
    assert!(requests.enter_pin_code.is_none());
}

#[test]
fn new_paired_device_refocuses_the_list() {
    let policy = DisplayPasskeyPolicy::AwaitStackSignal;
    let mut requests = Requests::default();
    let focus = requests.apply_event(Event::NewPairedDevice(Address::new(3)), policy);
    assert_eq!(focus, Some(FocusedBlock::PairedDevices));
}
