use vstd::prelude::*;

use crate::notification::Notification;

verus! {

/// Close reason: the pop-up's display time ran out.
pub const CLOSE_REASON_EXPIRED: u32 = 1;

/// Close reason: the user dismissed the pop-up.
pub const CLOSE_REASON_DISMISSED: u32 = 2;

/// Close reason: the sender asked for the close.
pub const CLOSE_REASON_CLOSED: u32 = 3;

/// Close reason: none of the above.
pub const CLOSE_REASON_UNDEFINED: u32 = 4;

/// A signal to be emitted on the bus.
#[derive(Debug)]
#[allow(inconsistent_fields)]
pub enum DbusSignal {
    ActionInvoked { notification_id: i32 },
    NotificationClosed { notification_id: u32, reason: u32 },
}

/// A bus method call handed from the bus side to the display side.
#[derive(Debug)]
pub enum DbusMethod {
    CloseNotification { notification_id: u32 },
    Notify { notification: Notification },
}

} // verus!
