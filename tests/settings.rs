use krustify::image_handler::{content_icon, desktop_file_path, find_icon, icon_lookup_name, IconChoice};
use krustify::settings::{load_settings, DoNotDisturb, Screen, Theme};
use krustify::tray_menu::{
    checked_item, checked_screen_item, get_available_screens, get_available_themes, tray_action, MenuValue,
    TrayAction,
};

#[test]
fn theme_defaults_when_nothing_is_stored() {
    let mut t = Theme { name: "x".to_string() };
    t.set(None);
    assert_eq!(t.name, "default");
    t.set(Some("dark".to_string()));
    assert_eq!(t.name, "dark");
}

#[test]
fn screen_takes_the_last_screen_of_the_stored_name() {
    let names = vec!["HDMI-1".to_string(), "DP-1".to_string(), "HDMI-1".to_string()];
    let mut s = Screen { id: 5, name: "x".to_string() };
    s.set(Some("HDMI-1".to_string()), &names);
    assert_eq!(s.id, 2);
    assert_eq!(s.name, "HDMI-1");
    s.set(Some("VGA".to_string()), &names);
    assert_eq!(s.id, -1);
    assert_eq!(s.name, "");
    s.set(None, &names);
    assert_eq!(s.id, -1);
}

#[test]
fn settings_load_from_stored_values() {
    let names = vec!["eDP-1".to_string(), "DP-2".to_string()];
    let s = load_settings(None, Some("DP-2".to_string()), &names);
    assert_eq!(s.theme.name, "default");
    assert_eq!(s.screen.id, 1);
    assert_eq!(s.screen.name, "DP-2");
    assert!(!s.do_not_disturb.value);
    let mut d = DoNotDisturb { value: false };
    d.set(true);
    assert!(d.value);
}

#[test]
fn tray_actions_are_told_apart_by_name() {
    assert_eq!(tray_action(&"quit_action".to_string()), TrayAction::Quit);
    assert_eq!(tray_action(&"do_not_disturb_action".to_string()), TrayAction::ToggleDoNotDisturb);
    assert_eq!(tray_action(&"set_theme".to_string()), TrayAction::SetTheme);
    assert_eq!(tray_action(&"set_screen".to_string()), TrayAction::SetScreen);
    assert_eq!(tray_action(&"other".to_string()), TrayAction::Unknown);
}

#[test]
fn menus_list_themes_and_screens() {
    let themes = get_available_themes(&vec!["default".to_string(), "dark".to_string()]);
    assert_eq!(themes.len(), 2);
    assert_eq!(themes[1].label, "dark");
    assert!(matches!(themes[1].value, MenuValue::Theme(ref n) if n == "dark"));
    let screens = get_available_screens(&vec!["A".to_string(), "B".to_string()]);
    assert_eq!(screens[1].label, "B");
    assert!(matches!(screens[1].value, MenuValue::Screen(1)));
}

#[test]
fn icon_name_is_looked_up_in_lower_case() {
    assert_eq!(icon_lookup_name(&"Firefox".to_string()), "firefox");
    assert_eq!(icon_lookup_name(&"ÄPP".to_string()), "äpp");
}

#[test]
fn desktop_file_path_is_under_the_applications_directory() {
    assert_eq!(desktop_file_path(&"Org.App".to_string()), "/usr/share/applications/Org.App.desktop");
}

#[test]
fn icon_falls_back_from_theme_to_desktop_file_to_default() {
    let entry = "Firefox".to_string();
    let lowered = icon_lookup_name(&entry);
    assert!(matches!(find_icon(&entry, lowered.clone(), true, true), IconChoice::Theme(ref n) if n == "firefox"));
    assert!(matches!(find_icon(&entry, lowered.clone(), false, true), IconChoice::DesktopFile(ref p) if p == "/usr/share/applications/Firefox.desktop"));
    assert!(matches!(find_icon(&entry, lowered, false, false), IconChoice::Default));
}

#[test]
fn without_a_lookup_name_the_icon_is_the_generic_one() {
    assert!(matches!(content_icon(&None, String::new(), true, true), IconChoice::Default));
    let name = Some("Firefox".to_string());
    assert!(matches!(content_icon(&name, "firefox".to_string(), true, false), IconChoice::Theme(ref n) if n == "firefox"));
    assert!(matches!(content_icon(&name, "firefox".to_string(), false, false), IconChoice::Default));
}

#[test]
fn the_last_entry_of_the_current_name_is_checked() {
    let themes = get_available_themes(&vec!["default".to_string(), "dark".to_string(), "dark".to_string()]);
    assert_eq!(checked_item(&themes, &"dark".to_string()), Some(2));
    assert_eq!(checked_item(&themes, &"light".to_string()), None);
    let screens = get_available_screens(&vec!["A".to_string(), "B".to_string()]);
    assert_eq!(checked_screen_item(&screens, &"B".to_string()), Some(1));
    assert_eq!(checked_screen_item(&screens, &"C".to_string()), Some(0));
    assert_eq!(checked_screen_item(&vec![], &"C".to_string()), None);
}
