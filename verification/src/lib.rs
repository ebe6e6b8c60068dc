//! Core logic of a terminal Bluetooth manager: the pairing-agent bridge
//! between the Bluetooth stack and the operator, the per-shape request
//! state machines driven by the UI, and the peripheral battery cache.

pub mod address;
pub mod agent;
pub mod alias_filter;
pub mod app;
pub mod battery;
pub mod bluetooth;
pub mod channels;
pub mod config;
pub mod event;
pub mod help;
pub mod keybindings;
pub mod notification;
pub mod requests;
pub mod rfkill;
pub mod spinner;
pub mod string_ref;
pub mod strings;

use vstd::prelude::*;

verus! {

pub use crate::address::Address;

} // verus!
