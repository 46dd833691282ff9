use vstd::prelude::*;

use crate::notification::Notification;
use crate::notification_spawner::new_guid;
use crate::settings::DoNotDisturb;
use std::collections::HashMap;

verus! {

broadcast use vstd::std_specs::hash::group_hash_axioms;

/// Notifications on their way from the bus side to the display side, each under a
/// random key. Each entry is taken out once.
pub struct NotificationRegistry {
    list: HashMap<u128, Notification>,
}

impl View for NotificationRegistry {
    type V = Map<u128, Notification>;

    closed spec fn view(&self) -> Map<u128, Notification> {
        self.list@
    }
}

impl NotificationRegistry {
    pub fn new() -> (r: NotificationRegistry)
        ensures
            r@ == Map::<u128, Notification>::empty(),
    {
        NotificationRegistry { list: HashMap::new() }
    }

    /// Puts `notification` under `guid`, in place of what was there.
    pub fn insert_with_guid(&mut self, guid: u128, notification: Notification)
        ensures
            final(self)@ == old(self)@.insert(guid, notification),
    {
        self.list.insert(guid, notification);
    }

    /// Puts `notification` under a fresh random key and returns the key.
    pub fn insert(&mut self, notification: Notification) -> (r: u128)
        ensures
            final(self)@ == old(self)@.insert(r, notification),
    {
        let guid = new_guid();
        self.insert_with_guid(guid, notification);
        guid
    }

    /// Takes out the notification under `guid`, if any.
    pub fn take(&mut self, guid: u128) -> (r: Option<Notification>)
        ensures
            final(self)@ == old(self)@.remove(guid),
            match r {
                Some(n) => old(self)@.contains_key(guid) && n == old(self)@[guid],
                None => !old(self)@.contains_key(guid),
            },
    {
        self.list.remove(&guid)
    }

    /// Hands `notification` on to the display side, unless do-not-disturb is on: then it
    /// is dropped. Returns the key it waits under.
    pub fn hand_on(&mut self, notification: Notification, do_not_disturb: &DoNotDisturb) -> (r: Option<
        u128,
    >)
        ensures
            do_not_disturb.value ==> r is None && final(self)@ == old(self)@,
            !do_not_disturb.value ==> r is Some && final(self)@ == old(self)@.insert(
                r.unwrap(),
                notification,
            ),
    {
        if do_not_disturb.value {
            None
        } else {
            Some(self.insert(notification))
        }
    }
}

} // verus!
