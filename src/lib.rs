//! Core logic of a desktop notification daemon: decoding of notification
//! requests, allocation of notification ids, the lifecycle of the visible
//! pop-ups and their stacking, and the user settings.
use vstd::prelude::*;

pub mod dbus_signal;
pub mod errors;
pub mod hints;
pub mod image_handler;
pub mod notification_handler;
pub mod notification;
pub mod notification_widget;
pub mod widget_list;
pub mod notification_spawner;
pub mod registry;
pub mod settings;
pub mod spawner_properties;
pub mod tray_menu;

verus! {

} // verus!
