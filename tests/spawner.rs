use krustify::dbus_signal::{
    DbusSignal, CLOSE_REASON_CLOSED, CLOSE_REASON_DISMISSED, CLOSE_REASON_EXPIRED,
};
use krustify::notification::{ImageSource, Notification};
use krustify::notification_handler::NotificationHandler;
use krustify::notification_spawner::{set_notification_contents, NotificationSpawner};
use krustify::notification_widget::{WidgetContent, WidgetPhase, WidgetTimings};
use krustify::registry::NotificationRegistry;
use krustify::settings::DoNotDisturb;

const TIMINGS: WidgetTimings = WidgetTimings { notification_duration: 5000, disappear_duration: 500 };

fn content(title: &str) -> WidgetContent {
    WidgetContent {
        app_name: "app1".to_string(),
        title: title.to_string(),
        body: "body".to_string(),
        icon_name: Some("app1".to_string()),
        image: ImageSource::NoImage,
    }
}

fn closed(notification_id: u32, reason: u32) -> (u32, u32) {
    (notification_id, reason)
}

fn closed_of(s: &DbusSignal) -> Option<(u32, u32)> {
    match s {
        DbusSignal::NotificationClosed { notification_id, reason } => Some((*notification_id, *reason)),
        _ => None,
    }
}

fn offsets(sp: &NotificationSpawner) -> Vec<u32> {
    sp.widget_keys().iter().map(|k| sp.widget(*k).unwrap().offset).collect()
}

#[test]
fn replacement_updates_in_place_and_restarts_the_timer() {
    let mut sp = NotificationSpawner::new(TIMINGS);
    let app = "app1".to_string();
    let k = sp.spawn_with_guid(11, &app, 0, 1, content("first"));
    assert_eq!(k, 11);
    sp.tick(3000);
    assert_eq!(sp.widget(11).unwrap().elapsed, 3000);
    let k2 = sp.spawn_with_guid(12, &app, 1, 1, content("second"));
    assert_eq!(k2, 11);
    assert_eq!(sp.widget_keys(), vec![11]);
    let w = sp.widget(11).unwrap();
    assert_eq!(w.content.title, "second");
    assert_eq!(w.elapsed, 0);
    assert_eq!(w.notification_id, 1);
}

#[test]
fn the_sender_that_counts_ids_up_replaces_the_id_below() {
    let mut sp = NotificationSpawner::new(TIMINGS);
    let discord = "discord".to_string();
    sp.spawn_with_guid(1, &discord, 0, 5, content("a"));
    let k = sp.spawn_with_guid(2, &discord, 6, 6, content("b"));
    assert_eq!(k, 1);
    assert_eq!(sp.widget(1).unwrap().notification_id, 6);
    let other = "other".to_string();
    let k = sp.spawn_with_guid(3, &other, 7, 7, content("c"));
    assert_eq!(k, 3);
    assert_eq!(sp.widget_keys(), vec![1, 3]);
}

#[test]
fn get_already_existing_notification_finds_by_id() {
    let mut sp = NotificationSpawner::new(TIMINGS);
    let app = "app1".to_string();
    sp.spawn_with_guid(1, &app, 0, 4, content("a"));
    sp.spawn_with_guid(2, &app, 0, 5, content("b"));
    assert_eq!(sp.get_already_existing_notification(&app, 5, 5), Some(2));
    assert_eq!(sp.get_already_existing_notification(&app, 6, 6), None);
    assert_eq!(sp.get_already_existing_notification(&app, 0, 9), None);
    assert_eq!(sp.get_already_existing_notification(&app, 0, 4), Some(1));
}

#[test]
fn replace_within_the_window_cancels_the_close() {
    let mut sp = NotificationSpawner::new(TIMINGS);
    let app = "app1".to_string();
    sp.spawn_with_guid(1, &app, 0, 1, content("a"));
    sp.request_close(1);
    sp.tick(50);
    assert_eq!(sp.widget_keys(), vec![1]);
    sp.spawn_with_guid(2, &app, 1, 1, content("b"));
    assert_eq!(sp.pending_close_count(), 0);
    let signals = sp.tick(200);
    assert!(signals.is_empty());
    assert_eq!(sp.widget_keys(), vec![1]);
}

#[test]
fn close_without_replace_takes_effect_after_the_window() {
    let mut sp = NotificationSpawner::new(TIMINGS);
    let app = "app1".to_string();
    sp.spawn_with_guid(1, &app, 0, 1, content("a"));
    sp.request_close(1);
    assert!(sp.tick(99).is_empty());
    assert_eq!(sp.widget_keys(), vec![1]);
    let signals = sp.tick(1);
    assert_eq!(signals.len(), 1);
    assert_eq!(closed_of(&signals[0]), Some(closed(1, CLOSE_REASON_CLOSED)));
    assert!(sp.widget_keys().is_empty());
}

#[test]
fn expiry_is_reported_as_expired() {
    let mut sp = NotificationSpawner::new(TIMINGS);
    let app = "app1".to_string();
    sp.spawn_with_guid(1, &app, 0, 1, content("a"));
    assert!(sp.tick(5000).is_empty());
    assert_eq!(sp.widget(1).unwrap().current_phase(TIMINGS), WidgetPhase::Exiting);
    let signals = sp.tick(500);
    assert_eq!(signals.len(), 1);
    assert_eq!(closed_of(&signals[0]), Some(closed(1, CLOSE_REASON_EXPIRED)));
    assert!(sp.widget_keys().is_empty());
}

#[test]
fn external_close_is_reported_as_closed() {
    let mut sp = NotificationSpawner::new(TIMINGS);
    let app = "app1".to_string();
    sp.spawn_with_guid(1, &app, 0, 3, content("a"));
    let s = sp.on_external_close(3).unwrap();
    assert_eq!(closed_of(&s), Some(closed(3, CLOSE_REASON_CLOSED)));
    assert!(sp.on_external_close(3).is_none());
}

#[test]
fn click_reports_the_action_then_dismisses() {
    let mut sp = NotificationSpawner::new(TIMINGS);
    let app = "app1".to_string();
    sp.spawn_with_guid(7, &app, 0, 4, content("a"));
    let signals = sp.on_button_clicked(7);
    assert_eq!(signals.len(), 2);
    assert!(matches!(signals[0], DbusSignal::ActionInvoked { notification_id: 4 }));
    assert_eq!(closed_of(&signals[1]), Some(closed(4, CLOSE_REASON_DISMISSED)));
    assert!(sp.widget_keys().is_empty());
    assert!(sp.on_button_clicked(7).is_empty());
}

#[test]
fn frozen_pop_ups_do_not_expire() {
    let mut sp = NotificationSpawner::new(TIMINGS);
    let app = "app1".to_string();
    sp.spawn_with_guid(1, &app, 0, 1, content("a"));
    sp.set_widget_size(1, 300, 80);
    sp.on_reorder(&vec![]);
    sp.check_hover(true, 10, 10);
    let w = sp.widget(1).unwrap();
    assert!(w.frozen);
    assert!(w.hovered);
    assert!(sp.tick(10000).is_empty());
    assert_eq!(sp.widget(1).unwrap().elapsed, 0);
    sp.check_hover(false, 10, 90);
    let w = sp.widget(1).unwrap();
    assert!(!w.frozen);
    assert!(!w.hovered);
    assert_eq!(sp.tick(6000).len(), 1);
}

#[test]
fn removing_the_first_of_three_closes_the_gap() {
    let mut sp = NotificationSpawner::new(TIMINGS);
    let app = "app1".to_string();
    sp.spawn_with_guid(1, &app, 0, 1, content("a"));
    sp.spawn_with_guid(2, &app, 0, 2, content("b"));
    sp.spawn_with_guid(3, &app, 0, 3, content("c"));
    assert!(sp.set_widget_size(1, 300, 10));
    assert!(sp.set_widget_size(2, 320, 20));
    assert!(sp.set_widget_size(3, 310, 30));
    assert!(!sp.set_widget_size(4, 1, 1));
    assert_eq!(sp.on_reorder(&vec![]), (320, 60));
    assert_eq!(offsets(&sp), vec![0, 10, 30]);
    let s = sp.on_widget_close(1, CLOSE_REASON_DISMISSED).unwrap();
    assert_eq!(closed_of(&s), Some(closed(1, CLOSE_REASON_DISMISSED)));
    assert_eq!(offsets(&sp), vec![0, 20]);
    assert_eq!(sp.on_reorder(&vec![]), (320, 50));
    assert_eq!(offsets(&sp), vec![0, 20]);
}

#[test]
fn two_new_notifications_from_one_app_stack_without_overlap() {
    let mut handler = NotificationHandler::new();
    let mut registry = NotificationRegistry::new();
    let mut sp = NotificationSpawner::new(TIMINGS);
    let mut keys = vec![];
    for title in ["one", "two"] {
        let n = handler
            .notify("app1".to_string(), 0, String::new(), title.to_string(), String::new(), vec![], &vec![], -1)
            .unwrap();
        let guid = registry.insert(n);
        keys.push(sp.on_spawn_notification(&mut registry, guid).unwrap());
        assert!(sp.on_spawn_notification(&mut registry, guid).is_none());
    }
    assert_ne!(keys[0], keys[1]);
    assert_eq!(sp.widget_keys(), keys);
    assert_eq!(sp.widget(keys[0]).unwrap().notification_id, 1);
    assert_eq!(sp.widget(keys[1]).unwrap().notification_id, 2);
    sp.set_widget_size(keys[0], 300, 70);
    sp.set_widget_size(keys[1], 300, 90);
    assert_eq!(sp.on_reorder(&vec![]), (300, 160));
    assert_eq!(offsets(&sp), vec![0, 70]);
}

#[test]
fn content_uses_the_desktop_entry_for_the_icon() {
    let n = Notification {
        app_name: "App".to_string(),
        replaces_id: 0,
        app_icon: String::new(),
        summary: "S".to_string(),
        body: "B".to_string(),
        actions: vec![],
        image_data: None,
        image_path: Some("/tmp/x.png".to_string()),
        expire_timeout: -1,
        notification_id: 1,
        desktop_entry: "org.example.App".to_string(),
    };
    let c = set_notification_contents(n);
    assert_eq!(c.icon_name.as_deref(), Some("org.example.App"));
    assert_eq!(c.app_name, "App");
    assert_eq!(c.title, "S");
    assert_eq!(c.body, "B");
    assert!(matches!(c.image, ImageSource::Path(ref p) if p == "/tmp/x.png"));
}

#[test]
fn content_without_desktop_entry_has_no_icon_name() {
    let n = Notification {
        app_name: "App".to_string(),
        replaces_id: 0,
        app_icon: String::new(),
        summary: String::new(),
        body: String::new(),
        actions: vec![],
        image_data: None,
        image_path: None,
        expire_timeout: -1,
        notification_id: 1,
        desktop_entry: String::new(),
    };
    let c = set_notification_contents(n);
    assert_eq!(c.icon_name, None);
    assert!(matches!(c.image, ImageSource::NoImage));
}

#[test]
fn registry_hands_each_entry_out_once() {
    let mut registry = NotificationRegistry::new();
    let n = Notification {
        app_name: "a".to_string(),
        replaces_id: 0,
        app_icon: String::new(),
        summary: String::new(),
        body: String::new(),
        actions: vec![],
        image_data: None,
        image_path: None,
        expire_timeout: 0,
        notification_id: 3,
        desktop_entry: String::new(),
    };
    registry.insert_with_guid(5, n);
    assert_eq!(registry.take(5).unwrap().notification_id, 3);
    assert!(registry.take(5).is_none());
}

#[test]
fn a_new_id_that_a_pop_up_already_shows_replaces_it() {
    let mut sp = NotificationSpawner::new(TIMINGS);
    let app = "app1".to_string();
    sp.spawn_with_guid(1, &app, 5, 5, content("chosen by the sender"));
    let k = sp.spawn_with_guid(2, &app, 0, 5, content("counted"));
    assert_eq!(k, 1);
    assert_eq!(sp.widget_keys(), vec![1]);
    assert_eq!(sp.widget(1).unwrap().content.title, "counted");
}

#[test]
fn the_counting_sender_does_not_take_an_id_already_shown() {
    let mut sp = NotificationSpawner::new(TIMINGS);
    let discord = "discord".to_string();
    sp.spawn_with_guid(1, &discord, 0, 5, content("a"));
    sp.spawn_with_guid(2, &discord, 0, 6, content("b"));
    let k = sp.spawn_with_guid(3, &discord, 6, 6, content("c"));
    assert_eq!(k, 2);
    assert_eq!(sp.widget(1).unwrap().notification_id, 5);
    assert_eq!(sp.widget(2).unwrap().notification_id, 6);
    assert_eq!(sp.widget(2).unwrap().content.title, "c");
}

#[test]
fn a_random_key_adds_a_pop_up_beside_the_shown_one() {
    let mut sp = NotificationSpawner::new(TIMINGS);
    let app = "app1".to_string();
    sp.spawn_with_guid(1, &app, 0, 1, content("a"));
    let k = sp.spawn_notification(&app, 0, 2, content("b"));
    assert_ne!(k, 1);
    assert_eq!(sp.widget_keys().len(), 2);
    assert_eq!(sp.widget(1).unwrap().content.title, "a");
}

#[test]
fn do_not_disturb_drops_notifications() {
    let mut registry = NotificationRegistry::new();
    let make = |id: u32| Notification {
        app_name: "a".to_string(),
        replaces_id: 0,
        app_icon: String::new(),
        summary: String::new(),
        body: String::new(),
        actions: vec![],
        image_data: None,
        image_path: None,
        expire_timeout: 0,
        notification_id: id,
        desktop_entry: String::new(),
    };
    assert!(registry.hand_on(make(1), &DoNotDisturb { value: true }).is_none());
    let guid = registry.hand_on(make(2), &DoNotDisturb { value: false }).unwrap();
    assert_eq!(registry.take(guid).unwrap().notification_id, 2);
}

#[test]
fn sizes_and_spawns_restack_at_once() {
    let mut sp = NotificationSpawner::new(TIMINGS);
    let app = "app1".to_string();
    sp.spawn_with_guid(1, &app, 0, 1, content("a"));
    sp.set_widget_size(1, 100, 40);
    sp.spawn_with_guid(2, &app, 0, 2, content("b"));
    sp.set_widget_size(2, 100, 25);
    assert_eq!(offsets(&sp), vec![0, 40]);
    assert_eq!(sp.tick(5500).len(), 2);
    assert!(sp.widget_keys().is_empty());
}

#[test]
fn window_height_covers_pop_ups_still_sliding() {
    let mut sp = NotificationSpawner::new(TIMINGS);
    let app = "app1".to_string();
    sp.spawn_with_guid(1, &app, 0, 1, content("a"));
    sp.set_widget_size(1, 100, 40);
    assert_eq!(sp.on_reorder(&vec![10, 75, 30]), (100, 75));
    assert_eq!(sp.on_reorder(&vec![10, 30]), (100, 40));
}

#[test]
fn expiry_restacks_the_rest() {
    let mut sp = NotificationSpawner::new(TIMINGS);
    let app = "app1".to_string();
    sp.spawn_with_guid(1, &app, 0, 1, content("a"));
    sp.set_widget_size(1, 100, 40);
    sp.tick(3000);
    sp.spawn_with_guid(2, &app, 0, 2, content("b"));
    sp.set_widget_size(2, 100, 25);
    assert_eq!(offsets(&sp), vec![0, 40]);
    assert_eq!(sp.tick(2500).len(), 1);
    assert_eq!(offsets(&sp), vec![0]);
}
