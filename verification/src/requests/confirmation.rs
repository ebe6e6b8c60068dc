//! The Confirmation prompt: the stack shows a passkey and the operator
//! answers yes or no.

use vstd::prelude::*;

use crate::address::Address;
use crate::agent::AuthAgent;
use crate::app::{AppError, AppResult};
use crate::channels::{send_unbounded, try_send_on};
use crate::event::Event;

verus! {

/// An open "is this passkey correct?" prompt.
#[derive(Debug, Clone)]
pub struct Confirmation {
    pub adapter: String,
    pub device: Address,
    pub passkey: u32,
    /// The operator's current choice; starts on "accept".
    pub confirmed: bool,
}

impl Confirmation {
    pub fn new(adapter: String, device: Address, passkey: u32) -> (r: Self)
        ensures
            r.adapter == adapter,
            r.device == device,
            r.passkey == passkey,
            r.confirmed,
    {
        Confirmation { adapter, device, passkey, confirmed: true }
    }

    /// Flips the choice between accept and reject.
    pub fn toggle_select(&mut self)
        ensures
            *final(self) == (Confirmation { confirmed: !old(self).confirmed, ..*old(self) }),
    {
        self.confirmed = !self.confirmed;
    }

    /// Sends the current choice on the confirmation response channel and
    /// emits the clearing event. Fails only when a channel is closed, which
    /// the bridge treats as cancellation.
    pub fn submit(&self, agent: &AuthAgent) -> (r: AppResult<()>)
        ensures
            r matches Err(e) ==> e == AppError::ChannelClosed,
    {
        if !try_send_on(&agent.tx_request_confirmation, self.confirmed) {
            return Err(AppError::ChannelClosed);
        }
        if send_unbounded(&agent.event_sender, Event::ConfirmationSubmitted) {
            Ok(())
        } else {
            Err(AppError::ChannelClosed)
        }
    }

    /// Signals the shared cancellation channel and emits the clearing event.
    pub fn cancel(&self, agent: &AuthAgent) -> (r: AppResult<()>)
        ensures
            r matches Err(e) ==> e == AppError::ChannelClosed,
    {
        if !try_send_on(&agent.tx_cancel, ()) {
            return Err(AppError::ChannelClosed);
        }
        if send_unbounded(&agent.event_sender, Event::ConfirmationSubmitted) {
            Ok(())
        } else {
            Err(AppError::ChannelClosed)
        }
    }
}

} // verus!
