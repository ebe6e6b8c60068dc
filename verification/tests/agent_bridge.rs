//! The pairing handshake end to end, over the real channels: operator
//! responses resolve the bridge with the operator's value, cancellation wins
//! from either side, a dead channel never panics, and a response left over
//! from a resolved attempt is never replayed into the next one.

use std::sync::Arc;

use bluetui::address::Address;
use bluetui::agent::{
    display_passkey, display_pin_code, request_confirmation, request_passkey, request_pin_code,
    AuthAgent, ConfirmationRequest, DisplayPasskeyRequest, DisplayPinCodeRequest, PasskeyRequest,
    PinCodeRequest, ReqError,
};
use bluetui::app::FocusedBlock;
use bluetui::event::Event;
use bluetui::requests::confirmation::Confirmation;
use bluetui::requests::display_pin_code::DisplayPinCode;
use bluetui::requests::enter_passkey::EnterPasskey;
use bluetui::requests::enter_pin_code::EnterPinCode;
use bluetui::requests::{DisplayPasskeyPolicy, InputKey, Requests};
use tokio::sync::mpsc::UnboundedReceiver;

fn new_agent() -> (Arc<AuthAgent>, UnboundedReceiver<Event>) {
    let (tx, rx) = tokio::sync::mpsc::unbounded_channel();
    (Arc::new(AuthAgent::new(tx)), rx)
}

fn addr(bits: u64) -> Address {
    Address::new(bits)
}

/// Runs a blocking bridge call on its own thread while the closure plays the
/// UI loop: it gets the prompt event first, answers through the agent, and
/// the bridge's result comes back.
fn run_session<R, F>(
    agent: &Arc<AuthAgent>,
    rx: &mut UnboundedReceiver<Event>,
    bridge: impl FnOnce(Arc<AuthAgent>) -> R + Send + 'static,
    operator: F,
) -> R
where
    R: Send + 'static,
    F: FnOnce(&Arc<AuthAgent>, Event),
{
    let rt = tokio::runtime::Runtime::new().unwrap();
    rt.block_on(async {
        let bridge_agent = agent.clone();
        let handle = tokio::task::spawn_blocking(move || bridge(bridge_agent));
        let prompt = rx.recv().await.unwrap();
        operator(agent, prompt);
        handle.await.unwrap()
    })
}

#[test]
fn confirmation_accept_resolves_ok() {
    let (agent, mut rx) = new_agent();
    let result = run_session(
        &agent,
        &mut rx,
        |agent| {
            let req = ConfirmationRequest {
                adapter: "hci0".to_string(),
                device: addr(1),
                passkey: 123456,
            };
            request_confirmation(req, &agent)
        },
        |agent, prompt| {
            let Event::RequestConfirmation(prompt) = prompt else {
                panic!("wrong prompt");
            };
            assert!(prompt.confirmed);
            prompt.submit(agent).unwrap();
        },
    );
    assert_eq!(result, Ok(()));
}

#[test]
fn confirmation_reject_scenario() {
    // A confirmation prompt with passkey 482913 is rejected by the operator
    // and the slot is empty afterwards.
    let (agent, mut rx) = new_agent();
    let agent2 = agent.clone();

    let rt = tokio::runtime::Runtime::new().unwrap();
    rt.block_on(async {
        let bridge = tokio::task::spawn_blocking(move || {
            let req = ConfirmationRequest {
                adapter: "hci0".to_string(),
                device: addr(0xAA_BB_CC_DD_EE_FF),
                passkey: 482913,
            };
            request_confirmation(req, &agent2)
        });

        let mut requests = Requests::default();
        let event = rx.recv().await.unwrap();
        let focus = requests.apply_event(event, DisplayPasskeyPolicy::AwaitStackSignal);
        assert_eq!(focus, Some(FocusedBlock::RequestConfirmation));
        {
            let prompt = requests.confirmation.as_mut().unwrap();
            assert_eq!(prompt.passkey, 482913);
            prompt.toggle_select();
            assert!(!prompt.confirmed);
            prompt.submit(&agent).unwrap();
        }
        assert_eq!(bridge.await.unwrap(), Err(ReqError::Rejected));

        let event = rx.recv().await.unwrap();
        let focus = requests.apply_event(event, DisplayPasskeyPolicy::AwaitStackSignal);
        assert_eq!(focus, Some(FocusedBlock::PairedDevices));
        assert!(requests.confirmation.is_none());
    });
}

#[test]
fn pin_code_submit_resolves_with_typed_text() {
    let (agent, mut rx) = new_agent();
    let result = run_session(
        &agent,
        &mut rx,
        |agent| {
            let req = PinCodeRequest { adapter: "hci0".to_string(), device: addr(2) };
            request_pin_code(req, &agent)
        },
        |agent, prompt| {
            let Event::RequestEnterPinCode(mut prompt) = prompt else {
                panic!("wrong prompt");
            };
            for c in "4921".chars() {
                prompt.handle_key_events(InputKey::Char(c), agent).unwrap();
            }
            prompt.submit(agent).unwrap();
        },
    );
    assert_eq!(result, Ok("4921".to_string()));
}

#[test]
fn passkey_submit_resolves_with_typed_number() {
    let (agent, mut rx) = new_agent();
    let result = run_session(
        &agent,
        &mut rx,
        |agent| {
            let req = PasskeyRequest { adapter: "hci0".to_string(), device: addr(3) };
            request_passkey(req, &agent)
        },
        |agent, prompt| {
            let Event::RequestEnterPasskey(mut prompt) = prompt else {
                panic!("wrong prompt");
            };
            for c in "999999".chars() {
                prompt.handle_key_events(InputKey::Char(c), agent).unwrap();
            }
            prompt.submit(agent).unwrap();
        },
    );
    assert_eq!(result, Ok(999999u32));
}

#[test]
fn display_pin_code_acknowledge_resolves_ok() {
    let (agent, mut rx) = new_agent();
    let result = run_session(
        &agent,
        &mut rx,
        |agent| {
            let req = DisplayPinCodeRequest {
                adapter: "hci0".to_string(),
                device: addr(4),
                pincode: "0000".to_string(),
            };
            display_pin_code(req, &agent)
        },
        |agent, prompt| {
            let Event::RequestDisplayPinCode(prompt) = prompt else {
                panic!("wrong prompt");
            };
            prompt.submit(agent).unwrap();
        },
    );
    assert_eq!(result, Ok(()));
}

#[test]
fn display_passkey_resolves_when_handled() {
    let (agent, mut rx) = new_agent();
    let result = run_session(
        &agent,
        &mut rx,
        |agent| {
            let req = DisplayPasskeyRequest {
                adapter: "hci0".to_string(),
                device: addr(5),
                passkey: 321654,
                entered: 0,
            };
            display_passkey(req, &agent)
        },
        |agent, _prompt| {
            // The stack-side completion is a unit message on the shape's
            // channel.
            agent.tx_display_passkey.try_send(()).unwrap();
        },
    );
    assert_eq!(result, Ok(()));
}

#[test]
fn esc_key_cancels_a_typed_prompt() {
    let (agent, mut rx) = new_agent();
    let result = run_session(
        &agent,
        &mut rx,
        |agent| {
            let req = PinCodeRequest { adapter: "hci0".to_string(), device: addr(2) };
            request_pin_code(req, &agent)
        },
        |agent, prompt| {
            let Event::RequestEnterPinCode(mut prompt) = prompt else {
                panic!("wrong prompt");
            };
            prompt.handle_key_events(InputKey::Char('1'), agent).unwrap();
            prompt.handle_key_events(InputKey::Esc, agent).unwrap();
        },
    );
    assert_eq!(result, Err(ReqError::Canceled));
}

#[test]
fn stale_response_from_a_resolved_attempt_is_not_replayed() {
    let (agent, mut rx) = new_agent();

    // First attempt: cancelled from outside before the operator answers.
    agent.tx_cancel.try_send(()).unwrap();
    let req = ConfirmationRequest { adapter: "hci0".to_string(), device: addr(9), passkey: 1 };
    assert_eq!(request_confirmation(req, &agent), Err(ReqError::Canceled));
    let _prompt = rx.blocking_recv().unwrap();

    // The operator answers the dead prompt anyway: the accept is buffered
    // (and must not panic).
    let late = Confirmation::new("hci0".to_string(), addr(9), 1);
    late.submit(&agent).unwrap();
    let _cleared = rx.blocking_recv().unwrap();

    // The next attempt must not resolve from that buffered accept: the
    // operator rejects, and that answer is authoritative.
    let result = run_session(
        &agent,
        &mut rx,
        |agent| {
            let req = ConfirmationRequest {
                adapter: "hci0".to_string(),
                device: addr(9),
                passkey: 2,
            };
            request_confirmation(req, &agent)
        },
        |agent, prompt| {
            let Event::RequestConfirmation(mut prompt) = prompt else {
                panic!("wrong prompt");
            };
            prompt.toggle_select();
            prompt.submit(agent).unwrap();
        },
    );
    assert_eq!(result, Err(ReqError::Rejected));
}

#[test]
fn cancel_resolves_confirmation_as_cancelled() {
    let (agent, _rx) = new_agent();
    let prompt = Confirmation::new("hci0".to_string(), addr(1), 111111);
    prompt.cancel(&agent).unwrap();
    let req = ConfirmationRequest { adapter: "hci0".to_string(), device: addr(1), passkey: 111111 };
    assert_eq!(request_confirmation(req, &agent), Err(ReqError::Canceled));
}

#[test]
fn cancel_resolves_pin_code_as_cancelled() {
    let (agent, _rx) = new_agent();
    let prompt = EnterPinCode::new("hci0".to_string(), addr(2));
    prompt.cancel(&agent).unwrap();
    let req = PinCodeRequest { adapter: "hci0".to_string(), device: addr(2) };
    assert_eq!(request_pin_code(req, &agent), Err(ReqError::Canceled));
}

#[test]
fn cancel_resolves_passkey_as_cancelled() {
    let (agent, _rx) = new_agent();
    let prompt = EnterPasskey::new("hci0".to_string(), addr(3));
    prompt.cancel(&agent).unwrap();
    let req = PasskeyRequest { adapter: "hci0".to_string(), device: addr(3) };
    assert_eq!(request_passkey(req, &agent), Err(ReqError::Canceled));
}

#[test]
fn cancel_resolves_display_passkey_as_cancelled() {
    let (agent, _rx) = new_agent();
    let prompt = bluetui::requests::display_passkey::DisplayPasskey::new(
        "hci0".to_string(),
        addr(5),
        222222,
        0,
    );
    prompt.cancel(&agent).unwrap();
    let req = DisplayPasskeyRequest {
        adapter: "hci0".to_string(),
        device: addr(5),
        passkey: 222222,
        entered: 0,
    };
    assert_eq!(display_passkey(req, &agent), Err(ReqError::Canceled));
}

#[test]
fn cancel_resolves_display_pin_code_as_cancelled() {
    let (agent, _rx) = new_agent();
    // The universal cancellation signal also covers the shown PIN.
    agent.tx_cancel.try_send(()).unwrap();
    let req = DisplayPinCodeRequest {
        adapter: "hci0".to_string(),
        device: addr(4),
        pincode: "1234".to_string(),
    };
    assert_eq!(display_pin_code(req, &agent), Err(ReqError::Canceled));
}

#[test]
fn closed_channel_resolves_cancelled_and_late_submit_does_not_panic() {
    let (agent, _rx) = new_agent();

    agent.rx_request_confirmation.close();
    let req = ConfirmationRequest { adapter: "hci0".to_string(), device: addr(1), passkey: 424242 };
    assert_eq!(request_confirmation(req, &agent), Err(ReqError::Canceled));

    // The operator's later submit lands on the closed channel: it reports an
    // error instead of panicking.
    let prompt = Confirmation::new("hci0".to_string(), addr(1), 424242);
    assert!(prompt.submit(&agent).is_err());
}

#[test]
fn closed_channels_resolve_every_shape_as_cancelled() {
    let (agent, _rx) = new_agent();
    agent.rx_pin_code.close();
    agent.rx_passkey.close();
    agent.rx_display_pin_code.close();
    agent.rx_display_passkey.close();

    let pin = PinCodeRequest { adapter: "hci0".to_string(), device: addr(2) };
    assert_eq!(request_pin_code(pin, &agent), Err(ReqError::Canceled));

    let passkey = PasskeyRequest { adapter: "hci0".to_string(), device: addr(3) };
    assert_eq!(request_passkey(passkey, &agent), Err(ReqError::Canceled));

    let shown_pin = DisplayPinCodeRequest {
        adapter: "hci0".to_string(),
        device: addr(4),
        pincode: "9".to_string(),
    };
    assert_eq!(display_pin_code(shown_pin, &agent), Err(ReqError::Canceled));

    let shown_passkey = DisplayPasskeyRequest {
        adapter: "hci0".to_string(),
        device: addr(5),
        passkey: 1,
        entered: 0,
    };
    assert_eq!(display_passkey(shown_passkey, &agent), Err(ReqError::Canceled));

    let mut late_pin = EnterPinCode::new("hci0".to_string(), addr(2));
    for c in "17".chars() {
        late_pin.handle_key_events(InputKey::Char(c), &agent).unwrap();
    }
    assert!(late_pin.submit(&agent).is_err());
}

#[test]
fn submitting_each_shape_clears_its_slot() {
    let (agent, mut rx) = new_agent();
    let policy = DisplayPasskeyPolicy::AwaitStackSignal;
    let mut requests = Requests::default();

    requests.init_confirmation(Confirmation::new("hci0".to_string(), addr(1), 1));
    requests.confirmation.as_ref().unwrap().submit(&agent).unwrap();
    let event = rx.try_recv().unwrap();
    requests.apply_event(event, policy);
    assert!(requests.confirmation.is_none());

    let mut pin = EnterPinCode::new("hci0".to_string(), addr(2));
    pin.handle_key_events(InputKey::Char('1'), &agent).unwrap();
    requests.init_enter_pin_code(pin);
    requests.enter_pin_code.as_mut().unwrap().submit(&agent).unwrap();
    let event = rx.try_recv().unwrap();
    requests.apply_event(event, policy);
    assert!(requests.enter_pin_code.is_none());

    let mut passkey = EnterPasskey::new("hci0".to_string(), addr(3));
    passkey.handle_key_events(InputKey::Char('7'), &agent).unwrap();
    requests.init_enter_passkey(passkey);
    requests.enter_passkey.as_mut().unwrap().submit(&agent).unwrap();
    let event = rx.try_recv().unwrap();
    requests.apply_event(event, policy);
    assert!(requests.enter_passkey.is_none());

    requests.init_display_pin_code(DisplayPinCode::new(
        "hci0".to_string(),
        addr(4),
        "55".to_string(),
    ));
    requests.display_pin_code.as_ref().unwrap().submit(&agent).unwrap();
    let event = rx.try_recv().unwrap();
    requests.apply_event(event, policy);
    assert!(requests.display_pin_code.is_none());

    requests.init_display_passkey(bluetui::requests::display_passkey::DisplayPasskey::new(
        "hci0".to_string(),
        addr(5),
        9,
        0,
    ));
    requests.display_passkey.as_ref().unwrap().cancel(&agent).unwrap();
    let event = rx.try_recv().unwrap();
    requests.apply_event(event, policy);
    assert!(requests.display_passkey.is_none());
}

#[test]
fn agent_keeps_the_given_event_sender() {
    let (tx, mut rx) = tokio::sync::mpsc::unbounded_channel::<Event>();
    let agent = AuthAgent::new(tx);
    let note = bluetui::notification::Notification::new(
        "hello".to_string(),
        bluetui::notification::NotificationLevel::Info,
    );
    assert_eq!(note.ttl, 3);
    agent.event_sender.send(Event::Notification(note)).unwrap();
    assert!(matches!(rx.try_recv().unwrap(), Event::Notification(_)));
}
