use krustify::dbus_signal::DbusMethod;
use krustify::errors::KrustifyError;
use krustify::hints::{Hint, HintValue};
use krustify::notification_handler::NotificationHandler;

fn notify(h: &mut NotificationHandler, replaces_id: u32, hints: &Vec<Hint>) -> Result<u32, KrustifyError> {
    h.notify(
        "app1".to_string(),
        replaces_id,
        "icon".to_string(),
        "summary".to_string(),
        "body".to_string(),
        vec!["default".to_string(), "Open".to_string()],
        hints,
        5000,
    )
    .map(|n| n.notification_id)
}

#[test]
fn new_ids_count_up_from_one() {
    let mut h = NotificationHandler::new();
    assert_eq!(notify(&mut h, 0, &vec![]), Ok(1));
    assert_eq!(notify(&mut h, 0, &vec![]), Ok(2));
    assert_eq!(notify(&mut h, 0, &vec![]), Ok(3));
}

#[test]
fn replacing_keeps_the_id_and_takes_none() {
    let mut h = NotificationHandler::new();
    assert_eq!(notify(&mut h, 0, &vec![]), Ok(1));
    assert_eq!(notify(&mut h, 42, &vec![]), Ok(42));
    assert_eq!(notify(&mut h, 0, &vec![]), Ok(2));
}

#[test]
fn bad_hints_fail_and_take_no_id() {
    let mut h = NotificationHandler::new();
    let bad = vec![Hint { key: "desktop-entry".to_string(), value: HintValue::Bool(true) }];
    assert_eq!(notify(&mut h, 0, &bad), Err(KrustifyError::IncorrectType));
    assert_eq!(notify(&mut h, 0, &vec![]), Ok(1));
}

#[test]
fn notify_carries_the_request_fields() {
    let mut h = NotificationHandler::new();
    let hints = vec![Hint { key: "desktop-entry".to_string(), value: HintValue::Str("org.app".to_string()) }];
    let n = h
        .notify(
            "app".to_string(),
            0,
            "app-icon".to_string(),
            "Title".to_string(),
            "Text".to_string(),
            vec!["default".to_string()],
            &hints,
            -1,
        )
        .unwrap();
    assert_eq!(n.app_name, "app");
    assert_eq!(n.replaces_id, 0);
    assert_eq!(n.app_icon, "app-icon");
    assert_eq!(n.summary, "Title");
    assert_eq!(n.body, "Text");
    assert_eq!(n.actions, vec!["default".to_string()]);
    assert_eq!(n.expire_timeout, -1);
    assert_eq!(n.notification_id, 1);
    assert_eq!(n.desktop_entry, "org.app");
}

#[test]
fn close_request_goes_to_the_display_side() {
    let h = NotificationHandler::new();
    match h.close_notification(9) {
        DbusMethod::CloseNotification { notification_id } => assert_eq!(notification_id, 9),
        other => panic!("unexpected {:?}", other),
    }
}

#[test]
fn capabilities_are_fixed() {
    let h = NotificationHandler::new();
    assert_eq!(
        h.get_capabilities(),
        vec![
            "action-icons",
            "actions",
            "body",
            "body-hyperlinks",
            "body-images",
            "body-markup",
            "icon-multi",
            "icon-static",
            "persistence",
            "sound"
        ]
    );
}

#[test]
fn server_information_is_fixed() {
    let h = NotificationHandler::new();
    let (name, vendor, version, spec) = h.get_server_information("krustify".to_string(), "0.1.0".to_string());
    assert_eq!(name, "Notification Daemon");
    assert_eq!(vendor, "krustify");
    assert_eq!(version, "0.1.0");
    assert_eq!(spec, "1.2");
}

#[test]
fn error_messages_name_the_failure() {
    assert_eq!(KrustifyError::IncorrectType.message(), "a hint holds a value of the wrong type");
    assert_eq!(KrustifyError::MissingImageField.message(), "an image hint lacks one of its fields");
    assert_eq!(KrustifyError::IdsExhausted.message(), "no notification id is left");
}
