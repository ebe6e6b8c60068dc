//! Trusted boundary around the channel primitives that carry operator
//! responses and prompts between the UI loop and the agent bridge.
//!
//! The channels themselves come from outside crates; their delivery
//! behaviour is not modelled here. Every decision taken on what a channel
//! hands back is made by verified code that receives the outcome as a value.

use vstd::prelude::*;

verus! {

#[verifier::external_type_specification]
#[verifier::external_body]
#[verifier::reject_recursive_types(T)]
pub struct ExSender<T>(async_channel::Sender<T>);

#[verifier::external_type_specification]
#[verifier::external_body]
#[verifier::reject_recursive_types(T)]
pub struct ExReceiver<T>(async_channel::Receiver<T>);

#[verifier::external_type_specification]
#[verifier::external_body]
#[verifier::reject_recursive_types(T)]
pub struct ExUnboundedSender<T>(tokio::sync::mpsc::UnboundedSender<T>);

/// What the race between "operator responded" and "cancelled" came back with.
///
/// Which variant comes back depends on scheduling and on the other side of
/// the channels, so nothing more is promised about it; the resolution
/// functions in `agent` say exactly what each variant turns into.
#[derive(Debug, Clone, PartialEq, Eq)]
pub enum RaceOutcome<T> {
    /// The operator's response arrived first.
    Response(T),
    /// The response channel was closed with nothing buffered.
    ResponseClosed,
    /// The shared cancellation channel fired first (or was closed).
    Cancelled,
}

/// Relies on async_channel::unbounded: returns the two endpoints of a fresh
/// unbounded channel.
#[verifier::external_body]
pub fn new_channel<T>() -> (async_channel::Sender<T>, async_channel::Receiver<T>) {
    async_channel::unbounded()
}

/// Relies on async_channel::Sender::try_send: on an unbounded channel the
/// send is buffered and succeeds unless the channel is closed; it never
/// blocks and never panics.
#[verifier::external_body]
pub fn try_send_on<T>(tx: &async_channel::Sender<T>, value: T) -> (ok: bool) {
    tx.try_send(value).is_ok()
}

/// Relies on async_channel::Receiver::try_recv: pops buffered messages, one
/// per call and without ever blocking, until the channel reports itself
/// empty or closed. The bridge uses this to discard responses left over from
/// an attempt that already resolved; the loop ends because the buffer is
/// finite and the bridge is the only reader while no session is open.
#[verifier::external_body]
pub(crate) fn drain_channel<T>(rx: &async_channel::Receiver<T>) {
    while rx.try_recv().is_ok() {}
}

/// Relies on async_channel::Receiver::recv and futures::future::select:
/// suspends until one of the two receivers yields, and reports which.
/// A closed response channel with nothing buffered yields `ResponseClosed`;
/// anything from the cancellation side yields `Cancelled`. Which side wins
/// when both are ready is left open.
#[verifier::external_body]
pub fn race_response<T>(
    response: &async_channel::Receiver<T>,
    cancel: &async_channel::Receiver<()>,
) -> (r: RaceOutcome<T>) {
    let response_recv = Box::pin(response.recv());
    let cancel_recv = Box::pin(cancel.recv());
    match futures::executor::block_on(futures::future::select(response_recv, cancel_recv)) {
        futures::future::Either::Left((Ok(v), _)) => RaceOutcome::Response(v),
        futures::future::Either::Left((Err(_), _)) => RaceOutcome::ResponseClosed,
        futures::future::Either::Right(_) => RaceOutcome::Cancelled,
    }
}

/// Relies on tokio::sync::mpsc::UnboundedSender::send: the message is
/// buffered without blocking; the send fails only when the receiver is gone.
#[verifier::external_body]
pub fn send_unbounded<T>(tx: &tokio::sync::mpsc::UnboundedSender<T>, value: T) -> (ok: bool) {
    tx.send(value).is_ok()
}

} // verus!
