//! The DisplayPasskey prompt: a passkey is shown while the remote side types
//! it; the stack streams how many digits were entered so far. The operator
//! can only cancel.

use vstd::prelude::*;

use crate::address::Address;
use crate::agent::AuthAgent;
use crate::app::{AppError, AppResult};
use crate::channels::{send_unbounded, try_send_on};
use crate::event::Event;

verus! {

/// A passkey has six digits, so `entered` never needs to exceed this.
pub const PASSKEY_DIGITS: u16 = 6;

/// An open "enter this passkey on the remote device" prompt.
#[derive(Debug, Clone)]
pub struct DisplayPasskey {
    pub adapter: String,
    pub device: Address,
    pub passkey: u32,
    /// How many digits the remote side has typed so far (0 to 6).
    pub entered: u16,
}

impl DisplayPasskey {
    pub fn new(adapter: String, device: Address, passkey: u32, entered: u16) -> (r: Self)
        ensures
            r.adapter == adapter,
            r.device == device,
            r.passkey == passkey,
            r.entered == entered,
    {
        DisplayPasskey { adapter, device, passkey, entered }
    }

    /// Signals the shared cancellation channel and emits the clearing event.
    /// There is no operator-initiated submit for this shape.
    pub fn cancel(&self, agent: &AuthAgent) -> (r: AppResult<()>)
        ensures
            r matches Err(e) ==> e == AppError::ChannelClosed,
    {
        if !try_send_on(&agent.tx_cancel, ()) {
            return Err(AppError::ChannelClosed);
        }
        if send_unbounded(&agent.event_sender, Event::DisplayPasskeyCanceled) {
            Ok(())
        } else {
            Err(AppError::ChannelClosed)
        }
    }
}

} // verus!
