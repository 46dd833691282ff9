use krustify::notification::{ImageData, ImageSource, PixelFormat};
use krustify::notification_widget::{NotificationWidget, WidgetContent, WidgetPhase, WidgetTimings};

fn widget() -> NotificationWidget {
    NotificationWidget::new(
        8,
        WidgetContent {
            app_name: "a".to_string(),
            title: "t".to_string(),
            body: "b".to_string(),
            icon_name: Some("a".to_string()),
            image: ImageSource::NoImage,
        },
    )
}

#[test]
fn timeline_runs_through_its_phases_and_stops_at_its_end() {
    let t = WidgetTimings { notification_duration: 100, disappear_duration: 50 };
    let mut w = widget();
    assert_eq!(w.current_phase(t), WidgetPhase::Displaying);
    w.advance(99, t);
    assert_eq!(w.current_phase(t), WidgetPhase::Displaying);
    w.advance(1, t);
    assert_eq!(w.current_phase(t), WidgetPhase::Exiting);
    w.advance(u32::MAX, t);
    assert_eq!(w.elapsed, 150);
    assert_eq!(w.current_phase(t), WidgetPhase::Finished);
    w.reset_timer();
    assert_eq!(w.elapsed, 0);
}

#[test]
fn hover_follows_the_widget_rectangle() {
    let mut w = widget();
    w.width = 100;
    w.height = 40;
    w.animate_entry(60);
    w.check_hover(false, 0, 60);
    assert!(w.hovered);
    w.check_hover(false, 99, 99);
    assert!(w.hovered);
    w.check_hover(false, 100, 70);
    assert!(!w.hovered);
    w.check_hover(false, 50, 100);
    assert!(!w.hovered);
    w.check_hover(true, -1, 70);
    assert!(!w.hovered);
    assert!(w.frozen);
}

#[test]
fn alpha_flag_selects_the_pixel_layout() {
    let with_alpha = ImageData::new(1, 1, 4, true, 8, 4, vec![0, 0, 0, 0]);
    assert_eq!(with_alpha.pixel_format(), PixelFormat::Rgba8888);
    let without = ImageData::new(1, 1, 3, false, 8, 3, vec![0, 0, 0]);
    assert_eq!(without.pixel_format(), PixelFormat::Rgb888);
    assert_eq!(without.rowstride, 3);
    assert_eq!(without.data, vec![0, 0, 0]);
}
