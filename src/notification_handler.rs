use vstd::prelude::*;

use crate::dbus_signal::DbusMethod;
use crate::errors::KrustifyError;
use crate::hints::{parse_error, parse_hints, parsed_matches, Hint, ParsedHints};
use crate::notification::Notification;

verus! {

/// The capabilities the daemon announces, in order.
pub open spec fn capabilities() -> Seq<Seq<char>> {
    seq![
        "action-icons"@,
        "actions"@,
        "body"@,
        "body-hyperlinks"@,
        "body-images"@,
        "body-markup"@,
        "icon-multi"@,
        "icon-static"@,
        "persistence"@,
        "sound"@,
    ]
}

/// The daemon's name, as the bus reports it.
pub open spec fn server_name() -> Seq<char> {
    "Notification Daemon"@
}

/// The version of the notification protocol the daemon follows.
pub open spec fn protocol_version() -> Seq<char> {
    "1.2"@
}

/// The bus side of the daemon: decodes requests and hands out notification ids.
pub struct NotificationHandler {
    count: u32,
    /// The ids handed out to requests that asked for a new one.
    issued: Ghost<Set<u32>>,
}

impl NotificationHandler {
    /// The last id handed out to a request that asked for a new one, or 0.
    pub closed spec fn count(&self) -> u32 {
        self.count
    }

    /// The ids handed out so far to requests that asked for a new one.
    pub closed spec fn issued(&self) -> Set<u32> {
        self.issued@
    }

    pub open spec fn wf(&self) -> bool {
        forall|x: u32| #[trigger] self.issued().contains(x) ==> 1 <= x <= self.count()
    }

    pub fn new() -> (r: NotificationHandler)
        ensures
            r.wf(),
            r.count() == 0,
            r.issued() == Set::<u32>::empty(),
    {
        NotificationHandler { count: 0, issued: Ghost(Set::empty()) }
    }

    /// The id to use for a request: a new one, above every id handed out before, when
    /// `replaces_id` is 0; else `replaces_id`.
    fn allocate_id(&mut self, replaces_id: u32) -> (r: Result<u32, KrustifyError>)
        requires
            old(self).wf(),
        ensures
            final(self).wf(),
            replaces_id == 0 && old(self).count() < u32::MAX ==> {
                &&& r == Ok::<u32, KrustifyError>((old(self).count() + 1) as u32)
                &&& final(self).count() == old(self).count() + 1
                &&& final(self).issued() == old(self).issued().insert((old(self).count() + 1) as u32)
            },
            replaces_id == 0 && old(self).count() == u32::MAX ==> r == Err::<u32, KrustifyError>(
                KrustifyError::IdsExhausted,
            ) && *final(self) == *old(self),
            replaces_id != 0 ==> r == Ok::<u32, KrustifyError>(replaces_id) && *final(self)
                == *old(self),
    {
        if replaces_id != 0 {
            return Ok(replaces_id);
        }
        if self.count == u32::MAX {
            return Err(KrustifyError::IdsExhausted);
        }
        let ghost prev = self.issued@;
        let ghost c = self.count;
        self.count = self.count + 1;
        self.issued = Ghost(self.issued@.insert(self.count));
        proof {
            assert forall|x: u32| #[trigger] self.issued@.contains(x) implies 1 <= x <= self.count by {
                if x != self.count {
                    assert(prev.contains(x));
                    assert(old(self).issued().contains(x));
                }
            }
        }
        Ok(self.count)
    }

    /// Serves a Notify request: decodes the hints, then settles the id. A request with
    /// `replaces_id` 0 gets a new id, above every id handed out before.
    pub fn notify(
        &mut self,
        app_name: String,
        replaces_id: u32,
        app_icon: String,
        summary: String,
        body: String,
        actions: Vec<String>,
        hints: &Vec<Hint>,
        expire_timeout: i32,
    ) -> (r: Result<Notification, KrustifyError>)
        requires
            old(self).wf(),
        ensures
            final(self).wf(),
            match r {
                Ok(n) => {
                    &&& parse_error(hints@) is None
                    &&& parsed_matches(
                        ParsedHints {
                            desktop_entry: n.desktop_entry,
                            image_data: n.image_data,
                            image_path: n.image_path,
                        },
                        hints@,
                    )
                    &&& n.app_name == app_name && n.replaces_id == replaces_id && n.app_icon
                        == app_icon && n.summary == summary && n.body == body && n.actions
                        == actions && n.expire_timeout == expire_timeout
                    &&& replaces_id == 0 ==> {
                        &&& n.notification_id == old(self).count() + 1
                        &&& forall|x: u32| #[trigger]
                            old(self).issued().contains(x) ==> x < n.notification_id
                        &&& final(self).count() == n.notification_id
                        &&& final(self).issued() == old(self).issued().insert(n.notification_id)
                    }
                    &&& replaces_id != 0 ==> n.notification_id == replaces_id && *final(self)
                        == *old(self)
                },
                Err(e) => *final(self) == *old(self) && (parse_error(hints@) == Some(e) || (
                parse_error(hints@) is None && replaces_id == 0 && old(self).count() == u32::MAX
                    && e == KrustifyError::IdsExhausted)),
            },
            r is Err <==> (parse_error(hints@) is Some || (replaces_id == 0 && old(self).count()
                == u32::MAX)),
    {
        let parsed = match parse_hints(hints) {
            Ok(p) => p,
            Err(e) => {
                return Err(e);
            },
        };
        let notification_id = match self.allocate_id(replaces_id) {
            Ok(id) => id,
            Err(e) => {
                return Err(e);
            },
        };
        Ok(
            Notification {
                app_name,
                replaces_id,
                app_icon,
                summary,
                body,
                actions,
                image_data: parsed.image_data,
                image_path: parsed.image_path,
                expire_timeout,
                notification_id,
                desktop_entry: parsed.desktop_entry,
            },
        )
    }

    /// Serves a CloseNotification request: the close goes to the display side.
    pub fn close_notification(&self, notification_id: u32) -> (r: DbusMethod)
        ensures
            r == (DbusMethod::CloseNotification { notification_id }),
    {
        DbusMethod::CloseNotification { notification_id }
    }
    /// Serves a GetCapabilities request.
    pub fn get_capabilities(&self) -> (r: Vec<String>)
        ensures
            r@.map_values(|s: String| s@) == capabilities(),
    {
        let mut r: Vec<String> = Vec::new();
        let c = "action-icons".to_string();
        proof {
            reveal_strlit("action-icons");
        }
        r.push(c);
        let c = "actions".to_string();
        proof {
            reveal_strlit("actions");
        }
        r.push(c);
        let c = "body".to_string();
        proof {
            reveal_strlit("body");
        }
        r.push(c);
        let c = "body-hyperlinks".to_string();
        proof {
            reveal_strlit("body-hyperlinks");
        }
        r.push(c);
        let c = "body-images".to_string();
        proof {
            reveal_strlit("body-images");
        }
        r.push(c);
        let c = "body-markup".to_string();
        proof {
            reveal_strlit("body-markup");
        }
        r.push(c);
        let c = "icon-multi".to_string();
        proof {
            reveal_strlit("icon-multi");
        }
        r.push(c);
        let c = "icon-static".to_string();
        proof {
            reveal_strlit("icon-static");
        }
        r.push(c);
        let c = "persistence".to_string();
        proof {
            reveal_strlit("persistence");
        }
        r.push(c);
        let c = "sound".to_string();
        proof {
            reveal_strlit("sound");
        }
        r.push(c);
        proof {
            assert(r@.map_values(|s: String| s@) =~= capabilities());
        }
        r
    }

    /// Serves a GetServerInformation request: name, vendor, version and protocol version.
    pub fn get_server_information(&self, vendor: String, version: String) -> (r: (
        String,
        String,
        String,
        String,
    ))
        ensures
            r.0@ == server_name(),
            r.1 == vendor,
            r.2 == version,
            r.3@ == protocol_version(),
    {
        let name = "Notification Daemon".to_string();
        let specification_version = "1.2".to_string();
        proof {
            reveal_strlit("Notification Daemon");
            reveal_strlit("1.2");
        }
        (name, vendor, version, specification_version)
    }
}

} // verus!
