//! Transient notifications shown beside the device tables.

use vstd::prelude::*;

use crate::app::{AppError, AppResult};
use crate::channels::send_unbounded;
use crate::event::Event;

verus! {

/// How loudly a notification is displayed.
#[derive(Debug, Clone, Copy, PartialEq, Eq, Structural)]
pub enum NotificationLevel {
    Error,
    Warning,
    Info,
}

/// A message shown for a fixed number of ticks.
#[derive(Debug, Clone)]
pub struct Notification {
    pub message: String,
    pub level: NotificationLevel,
    pub ttl: u16,
}

/// Number of ticks a fresh notification stays on screen.
pub const NOTIFICATION_TTL: u16 = 3;

impl Notification {
    /// A fresh notification: the given message and level, with the standard
    /// time-to-live.
    pub fn new(message: String, level: NotificationLevel) -> (r: Notification)
        ensures
            r.message == message,
            r.level == level,
            r.ttl == NOTIFICATION_TTL,
    {
        Notification { message, level, ttl: NOTIFICATION_TTL }
    }

    /// Builds a fresh notification (as `new` states it) and publishes it on
    /// the UI event channel. The send fails only when the loop is gone.
    pub fn send(
        message: String,
        level: NotificationLevel,
        sender: &tokio::sync::mpsc::UnboundedSender<Event>,
    ) -> (r: AppResult<()>)
        ensures
            r matches Err(e) ==> e == AppError::ChannelClosed,
    {
        let notification = Notification::new(message, level);
        if send_unbounded(sender, Event::Notification(notification)) {
            Ok(())
        } else {
            Err(AppError::ChannelClosed)
        }
    }
}

/// One tick's worth of ageing: `s` without the expired entries, each
/// survivor one tick older.
pub open spec fn aged(s: Seq<Notification>) -> Seq<Notification>
    decreases s.len(),
{
    if s.len() == 0 {
        Seq::empty()
    } else {
        aged(s.drop_last()) + if s.last().ttl > 0 {
            seq![Notification { ttl: (s.last().ttl - 1) as u16, ..s.last() }]
        } else {
            Seq::empty()
        }
    }
}

/// Drops the notifications whose time is up and ages the rest by one tick,
/// as each refresh tick does.
pub fn age_notifications(notifications: &mut Vec<Notification>)
    ensures
        final(notifications)@ == aged(old(notifications)@),
{
    let ghost orig = notifications@;
    let mut kept: Vec<Notification> = Vec::new();
    let mut i: usize = 0;
    while i < notifications.len()
        invariant
            i <= notifications@.len(),
            notifications@ == orig,
            kept@ == aged(orig.subrange(0, i as int)),
        decreases notifications@.len() - i,
    {
        let n = &notifications[i];
        if n.ttl > 0 {
            kept.push(Notification { message: n.message.clone(), level: n.level, ttl: n.ttl - 1 });
        }
        proof {
            assert(orig.subrange(0, i + 1 as int).drop_last() == orig.subrange(0, i as int));
        }
        i += 1;
    }
    proof {
        assert(orig.subrange(0, orig.len() as int) == orig);
    }
    *notifications = kept;
}

} // verus!
