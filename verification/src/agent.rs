//! The pairing agent bridge: the five entry points the Bluetooth stack
//! invokes when a handshake needs the operator.
//!
//! Each entry point first discards any response left over from an earlier,
//! already-resolved attempt — each prompt starts its session clean — then
//! publishes the prompt on the UI event channel and suspends on a race
//! between "operator responded" and "cancelled". The race itself is a
//! trusted channel primitive; what every possible outcome resolves to is
//! decided by the verified resolution functions below.

use vstd::prelude::*;

use crate::address::Address;
use crate::channels::{drain_channel, new_channel, race_response, send_unbounded, RaceOutcome};
use crate::event::Event;
use crate::requests::confirmation::Confirmation;
use crate::requests::display_passkey::DisplayPasskey;
use crate::requests::display_pin_code::DisplayPinCode;
use crate::requests::enter_passkey::EnterPasskey;
use crate::requests::enter_pin_code::EnterPinCode;

verus! {

/// How a pairing request ends when the operator does not hand the stack a
/// value: rejected by choice, or cancelled by either side.
#[derive(Debug, Clone, Copy, PartialEq, Eq, Structural)]
pub enum ReqError {
    Rejected,
    Canceled,
}

pub type ReqResult<T> = Result<T, ReqError>;

/// What the stack supplies with a confirmation request.
#[derive(Debug, Clone)]
pub struct ConfirmationRequest {
    pub adapter: String,
    pub device: Address,
    pub passkey: u32,
}

/// What the stack supplies when it needs a typed PIN code.
#[derive(Debug, Clone)]
pub struct PinCodeRequest {
    pub adapter: String,
    pub device: Address,
}

/// What the stack supplies when it needs a typed passkey.
#[derive(Debug, Clone)]
pub struct PasskeyRequest {
    pub adapter: String,
    pub device: Address,
}

/// What the stack supplies with a PIN to display.
#[derive(Debug, Clone)]
pub struct DisplayPinCodeRequest {
    pub adapter: String,
    pub device: Address,
    pub pincode: String,
}

/// What the stack supplies with a passkey to display, including how many
/// digits the remote side has typed so far.
#[derive(Debug, Clone)]
pub struct DisplayPasskeyRequest {
    pub adapter: String,
    pub device: Address,
    pub passkey: u32,
    pub entered: u16,
}

/// The channel ends shared between the UI loop and the bridge: one response
/// channel per shape, one broadcast cancellation channel, and the UI event
/// channel the prompts are published on.
#[derive(Debug)]
pub struct AuthAgent {
    pub event_sender: tokio::sync::mpsc::UnboundedSender<Event>,
    pub tx_cancel: async_channel::Sender<()>,
    pub rx_cancel: async_channel::Receiver<()>,
    pub tx_pin_code: async_channel::Sender<String>,
    pub rx_pin_code: async_channel::Receiver<String>,
    pub tx_display_pin_code: async_channel::Sender<()>,
    pub rx_display_pin_code: async_channel::Receiver<()>,
    pub tx_display_passkey: async_channel::Sender<()>,
    pub rx_display_passkey: async_channel::Receiver<()>,
    pub tx_passkey: async_channel::Sender<u32>,
    pub rx_passkey: async_channel::Receiver<u32>,
    pub tx_request_confirmation: async_channel::Sender<bool>,
    pub rx_request_confirmation: async_channel::Receiver<bool>,
}

impl AuthAgent {
    /// Builds the channel plumbing of one agent: the given UI event sender,
    /// and six fresh unbounded channels — one response channel per shape and
    /// the shared cancellation channel. Beyond the stored sender, the
    /// contract cannot speak: the channel types are opaque here, so that
    /// each `tx` is paired with its own `rx` (every value sent arrives
    /// there, in order, and the six channels are independent and start
    /// empty) rests on the trusted `new_channel` and is exercised by the
    /// crate's tests.
    pub fn new(sender: tokio::sync::mpsc::UnboundedSender<Event>) -> (r: Self)
        ensures
            r.event_sender == sender,
    {
        let (tx_passkey, rx_passkey) = new_channel();
        let (tx_display_passkey, rx_display_passkey) = new_channel();
        let (tx_pin_code, rx_pin_code) = new_channel();
        let (tx_display_pin_code, rx_display_pin_code) = new_channel();
        let (tx_request_confirmation, rx_request_confirmation) = new_channel();
        let (tx_cancel, rx_cancel) = new_channel();
        AuthAgent {
            event_sender: sender,
            tx_cancel,
            rx_cancel,
            tx_pin_code,
            rx_pin_code,
            tx_display_pin_code,
            rx_display_pin_code,
            tx_display_passkey,
            rx_display_passkey,
            tx_passkey,
            rx_passkey,
            tx_request_confirmation,
            rx_request_confirmation,
        }
    }
}

/// What each race outcome of a confirmation request resolves to: the
/// operator's yes is accepted, a no is rejected, everything else cancels.
pub open spec fn confirmation_resolution(o: RaceOutcome<bool>) -> ReqResult<()> {
    match o {
        RaceOutcome::Response(choice) => if choice {
            Ok(())
        } else {
            Err(ReqError::Rejected)
        },
        RaceOutcome::ResponseClosed => Err(ReqError::Canceled),
        RaceOutcome::Cancelled => Err(ReqError::Canceled),
    }
}

/// What each race outcome of a PIN request resolves to: a typed PIN is the
/// success value, everything else cancels.
pub open spec fn pin_code_resolution(o: RaceOutcome<String>) -> ReqResult<String> {
    match o {
        RaceOutcome::Response(pin) => Ok(pin),
        RaceOutcome::ResponseClosed => Err(ReqError::Canceled),
        RaceOutcome::Cancelled => Err(ReqError::Canceled),
    }
}

/// What each race outcome of a passkey request resolves to.
pub open spec fn passkey_resolution(o: RaceOutcome<u32>) -> ReqResult<u32> {
    match o {
        RaceOutcome::Response(passkey) => Ok(passkey),
        RaceOutcome::ResponseClosed => Err(ReqError::Canceled),
        RaceOutcome::Cancelled => Err(ReqError::Canceled),
    }
}

/// What each race outcome of a displayed PIN or passkey resolves to: an
/// acknowledgement succeeds, everything else cancels.
pub open spec fn acknowledge_resolution(o: RaceOutcome<()>) -> ReqResult<()> {
    match o {
        RaceOutcome::Response(_) => Ok(()),
        RaceOutcome::ResponseClosed => Err(ReqError::Canceled),
        RaceOutcome::Cancelled => Err(ReqError::Canceled),
    }
}

pub fn resolve_confirmation(o: RaceOutcome<bool>) -> (r: ReqResult<()>)
    ensures
        r == confirmation_resolution(o),
{
    match o {
        RaceOutcome::Response(choice) => if choice {
            Ok(())
        } else {
            Err(ReqError::Rejected)
        },
        _ => Err(ReqError::Canceled),
    }
}

pub fn resolve_pin_code(o: RaceOutcome<String>) -> (r: ReqResult<String>)
    ensures
        r == pin_code_resolution(o),
{
    match o {
        RaceOutcome::Response(pin) => Ok(pin),
        _ => Err(ReqError::Canceled),
    }
}

pub fn resolve_passkey(o: RaceOutcome<u32>) -> (r: ReqResult<u32>)
    ensures
        r == passkey_resolution(o),
{
    match o {
        RaceOutcome::Response(passkey) => Ok(passkey),
        _ => Err(ReqError::Canceled),
    }
}

pub fn resolve_acknowledge(o: RaceOutcome<()>) -> (r: ReqResult<()>)
    ensures
        r == acknowledge_resolution(o),
{
    match o {
        RaceOutcome::Response(_) => Ok(()),
        _ => Err(ReqError::Canceled),
    }
}

/// Asks the operator to confirm a passkey: discards any stale response,
/// publishes the prompt and resolves the first of response or cancellation.
/// The result is always the resolution of some race outcome; which one
/// depends on the operator and on scheduling.
pub fn request_confirmation(request: ConfirmationRequest, agent: &AuthAgent) -> (r: ReqResult<()>)
    ensures
        exists|o: RaceOutcome<bool>| r == #[trigger] confirmation_resolution(o),
{
    drain_channel(&agent.rx_request_confirmation);
    let prompt = Confirmation::new(request.adapter, request.device, request.passkey);
    let _ = send_unbounded(&agent.event_sender, Event::RequestConfirmation(prompt));
    let outcome = race_response(&agent.rx_request_confirmation, &agent.rx_cancel);
    let r = resolve_confirmation(outcome);
    proof {
        assert(r == confirmation_resolution(outcome));
    }
    r
}

/// Asks the operator to type a PIN code.
pub fn request_pin_code(request: PinCodeRequest, agent: &AuthAgent) -> (r: ReqResult<String>)
    ensures
        exists|o: RaceOutcome<String>| r == #[trigger] pin_code_resolution(o),
{
    drain_channel(&agent.rx_pin_code);
    let prompt = EnterPinCode::new(request.adapter, request.device);
    let _ = send_unbounded(&agent.event_sender, Event::RequestEnterPinCode(prompt));
    let outcome = race_response(&agent.rx_pin_code, &agent.rx_cancel);
    let r = resolve_pin_code(outcome);
    proof {
        assert(r == pin_code_resolution(outcome));
    }
    r
}

/// Asks the operator to type a passkey.
pub fn request_passkey(request: PasskeyRequest, agent: &AuthAgent) -> (r: ReqResult<u32>)
    ensures
        exists|o: RaceOutcome<u32>| r == #[trigger] passkey_resolution(o),
{
    drain_channel(&agent.rx_passkey);
    let prompt = EnterPasskey::new(request.adapter, request.device);
    let _ = send_unbounded(&agent.event_sender, Event::RequestEnterPasskey(prompt));
    let outcome = race_response(&agent.rx_passkey, &agent.rx_cancel);
    let r = resolve_passkey(outcome);
    proof {
        assert(r == passkey_resolution(outcome));
    }
    r
}

/// Shows a PIN for the remote side and waits for the acknowledgement.
pub fn display_pin_code(request: DisplayPinCodeRequest, agent: &AuthAgent) -> (r: ReqResult<()>)
    ensures
        exists|o: RaceOutcome<()>| r == #[trigger] acknowledge_resolution(o),
{
    drain_channel(&agent.rx_display_pin_code);
    let prompt = DisplayPinCode::new(request.adapter, request.device, request.pincode);
    let _ = send_unbounded(&agent.event_sender, Event::RequestDisplayPinCode(prompt));
    let outcome = race_response(&agent.rx_display_pin_code, &agent.rx_cancel);
    let r = resolve_acknowledge(outcome);
    proof {
        assert(r == acknowledge_resolution(outcome));
    }
    r
}

/// Shows a passkey for the remote side to type and waits until it is
/// handled or cancelled.
pub fn display_passkey(request: DisplayPasskeyRequest, agent: &AuthAgent) -> (r: ReqResult<()>)
    ensures
        exists|o: RaceOutcome<()>| r == #[trigger] acknowledge_resolution(o),
{
    drain_channel(&agent.rx_display_passkey);
    let prompt = DisplayPasskey::new(
        request.adapter,
        request.device,
        request.passkey,
        request.entered,
    );
    let _ = send_unbounded(&agent.event_sender, Event::RequestDisplayPasskey(prompt));
    let outcome = race_response(&agent.rx_display_passkey, &agent.rx_cancel);
    let r = resolve_acknowledge(outcome);
    proof {
        assert(r == acknowledge_resolution(outcome));
    }
    r
}

/// Law: an operator response delivered to the bridge resolves each shape's
/// call to exactly the operator's value — yes accepts, no rejects, and a
/// typed PIN or passkey comes back unchanged.
pub proof fn lemma_response_resolves_to_input(choice: bool, pin: String, passkey: u32)
    ensures
        confirmation_resolution(RaceOutcome::Response(choice)) == (if choice {
            Ok::<(), ReqError>(())
        } else {
            Err::<(), ReqError>(ReqError::Rejected)
        }),
        pin_code_resolution(RaceOutcome::Response(pin)) == Ok::<String, ReqError>(pin),
        passkey_resolution(RaceOutcome::Response(passkey)) == Ok::<u32, ReqError>(passkey),
        acknowledge_resolution(RaceOutcome::Response(())) == Ok::<(), ReqError>(()),
{
}

/// Law: a cancellation, from either side, resolves every shape's call as
/// `Canceled` and never as a success value.
pub proof fn lemma_cancellation_resolves_cancelled()
    ensures
        confirmation_resolution(RaceOutcome::Cancelled) == Err::<(), ReqError>(ReqError::Canceled),
        pin_code_resolution(RaceOutcome::Cancelled) == Err::<String, ReqError>(ReqError::Canceled),
        passkey_resolution(RaceOutcome::Cancelled) == Err::<u32, ReqError>(ReqError::Canceled),
        acknowledge_resolution(RaceOutcome::Cancelled) == Err::<(), ReqError>(ReqError::Canceled),
{
}

/// Law: a response channel that closes before any submit resolves every
/// shape's call as `Canceled`, exactly like an explicit cancellation.
pub proof fn lemma_closed_channel_resolves_cancelled()
    ensures
        confirmation_resolution(RaceOutcome::ResponseClosed) == Err::<(), ReqError>(
            ReqError::Canceled,
        ),
        pin_code_resolution(RaceOutcome::ResponseClosed) == Err::<String, ReqError>(
            ReqError::Canceled,
        ),
        passkey_resolution(RaceOutcome::ResponseClosed) == Err::<u32, ReqError>(ReqError::Canceled),
        acknowledge_resolution(RaceOutcome::ResponseClosed) == Err::<(), ReqError>(
            ReqError::Canceled,
        ),
{
}

} // verus!
