//! Events on the UI channel: prompts published by the agent bridge, the
//! clearing events the request state machines answer them with, and a few
//! notifications from background work.

use vstd::prelude::*;

use crate::address::Address;
use crate::notification::Notification;
use crate::requests::confirmation::Confirmation;
use crate::requests::display_passkey::DisplayPasskey;
use crate::requests::display_pin_code::DisplayPinCode;
use crate::requests::enter_passkey::EnterPasskey;
use crate::requests::enter_pin_code::EnterPinCode;

verus! {

/// One message on the UI event channel.
#[derive(Debug)]
pub enum Event {
    /// The stack asks the operator to confirm a passkey.
    RequestConfirmation(Confirmation),
    /// The confirmation slot resolved; clear it.
    ConfirmationSubmitted,
    /// The stack asks the operator to type a PIN code.
    RequestEnterPinCode(EnterPinCode),
    /// The PIN code slot resolved; clear it.
    PinCodeSubmitted,
    /// The stack asks the operator to type a passkey.
    RequestEnterPasskey(EnterPasskey),
    /// The passkey slot resolved; clear it.
    PasskeySubmitted,
    /// The stack shows a PIN for the remote side to type.
    RequestDisplayPinCode(DisplayPinCode),
    /// The shown PIN was acknowledged; clear the slot.
    DisplayPinCodeSeen,
    /// The stack shows a passkey, or updates how much of it was typed.
    RequestDisplayPasskey(DisplayPasskey),
    /// The stack reports the shown passkey was fully handled.
    DisplayPasskeySeen,
    /// The operator cancelled the shown passkey; clear the slot.
    DisplayPasskeyCanceled,
    /// A transient message for the notification area.
    Notification(Notification),
    /// A pairing finished; the device list should refocus.
    NewPairedDevice(Address),
}

} // verus!
