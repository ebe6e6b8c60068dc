//! The DisplayPinCode prompt: a PIN is shown for the remote side to type;
//! the operator only acknowledges it.

use vstd::prelude::*;

use crate::address::Address;
use crate::agent::AuthAgent;
use crate::app::{AppError, AppResult};
use crate::channels::{send_unbounded, try_send_on};
use crate::event::Event;

verus! {

/// An open "type this PIN on the remote device" prompt.
#[derive(Debug, Clone)]
pub struct DisplayPinCode {
    pub adapter: String,
    pub device: Address,
    pub pin_code: String,
}

impl DisplayPinCode {
    pub fn new(adapter: String, device: Address, pin_code: String) -> (r: Self)
        ensures
            r.adapter == adapter,
            r.device == device,
            r.pin_code == pin_code,
    {
        DisplayPinCode { adapter, device, pin_code }
    }

    /// Acknowledges the prompt: sends the unit response and emits the
    /// clearing event. No validation is involved.
    pub fn submit(&self, agent: &AuthAgent) -> (r: AppResult<()>)
        ensures
            r matches Err(e) ==> e == AppError::ChannelClosed,
    {
        if !try_send_on(&agent.tx_display_pin_code, ()) {
            return Err(AppError::ChannelClosed);
        }
        if send_unbounded(&agent.event_sender, Event::DisplayPinCodeSeen) {
            Ok(())
        } else {
            Err(AppError::ChannelClosed)
        }
    }
}

} // verus!
