use krustify::errors::KrustifyError;
use krustify::hints::{decode_image, find_hint, parse_hints, Hint, HintValue};
use krustify::notification::{image_source, ImageSource};

fn hint(key: &str, value: HintValue) -> Hint {
    Hint { key: key.to_string(), value }
}

fn image_value(width: i32, bytes: &[u8]) -> HintValue {
    HintValue::Structure(vec![
        HintValue::I32(width),
        HintValue::I32(2),
        HintValue::I32(width * 4),
        HintValue::Bool(true),
        HintValue::I32(8),
        HintValue::I32(4),
        HintValue::Array(bytes.iter().map(|b| HintValue::U8(*b)).collect()),
    ])
}

#[test]
fn empty_hints_decode_to_nothing() {
    let parsed = parse_hints(&vec![]).unwrap();
    assert_eq!(parsed.desktop_entry, "");
    assert!(parsed.image_data.is_none());
    assert!(parsed.image_path.is_none());
}

#[test]
fn desktop_entry_is_read() {
    let hints = vec![hint("desktop-entry", HintValue::Str("firefox".to_string()))];
    let parsed = parse_hints(&hints).unwrap();
    assert_eq!(parsed.desktop_entry, "firefox");
}

#[test]
fn desktop_entry_of_wrong_type_fails() {
    let hints = vec![hint("desktop-entry", HintValue::I32(3))];
    assert_eq!(parse_hints(&hints).unwrap_err(), KrustifyError::IncorrectType);
}

#[test]
fn raw_image_is_decoded() {
    let hints = vec![hint("image-data", image_value(1, &[1, 2, 3, 4, 5, 6, 7, 8]))];
    let parsed = parse_hints(&hints).unwrap();
    let image = parsed.image_data.unwrap();
    assert_eq!(image.width, 1);
    assert_eq!(image.height, 2);
    assert_eq!(image.rowstride, 4);
    assert!(image.has_alpha);
    assert_eq!(image.bits_per_sample, 8);
    assert_eq!(image.channels, 4);
    assert_eq!(image.data, vec![1, 2, 3, 4, 5, 6, 7, 8]);
}

#[test]
fn image_structure_with_too_few_fields_fails() {
    let v = HintValue::Structure(vec![HintValue::I32(1), HintValue::I32(1)]);
    assert_eq!(decode_image(&v).unwrap_err(), KrustifyError::MissingImageField);
    let hints = vec![hint("icon_data", v)];
    assert_eq!(parse_hints(&hints).unwrap_err(), KrustifyError::MissingImageField);
}

#[test]
fn image_bytes_of_wrong_type_fail() {
    let v = HintValue::Structure(vec![
        HintValue::I32(1),
        HintValue::I32(1),
        HintValue::I32(3),
        HintValue::Bool(false),
        HintValue::I32(8),
        HintValue::I32(3),
        HintValue::Array(vec![HintValue::U8(1), HintValue::I32(2), HintValue::U8(3)]),
    ]);
    assert_eq!(decode_image(&v).unwrap_err(), KrustifyError::IncorrectType);
}

#[test]
fn image_hint_that_is_no_structure_fails() {
    let hints = vec![hint("image-data", HintValue::Str("x".to_string()))];
    assert_eq!(parse_hints(&hints).unwrap_err(), KrustifyError::IncorrectType);
}

#[test]
fn image_field_of_wrong_type_fails() {
    let v = HintValue::Structure(vec![
        HintValue::I32(1),
        HintValue::Bool(true),
        HintValue::I32(3),
        HintValue::Bool(false),
        HintValue::I32(8),
        HintValue::I32(3),
        HintValue::Array(vec![]),
    ]);
    assert_eq!(decode_image(&v).unwrap_err(), KrustifyError::IncorrectType);
}

#[test]
fn image_key_spellings_are_tried_in_order() {
    let hints = vec![
        hint("icon_data", image_value(9, &[9])),
        hint("image_data", image_value(5, &[5])),
        hint("icon-data", image_value(7, &[7])),
    ];
    let parsed = parse_hints(&hints).unwrap();
    assert_eq!(parsed.image_data.unwrap().width, 5);
    let hints = vec![hint("icon_data", image_value(9, &[9])), hint("icon-data", image_value(7, &[7]))];
    assert_eq!(parse_hints(&hints).unwrap().image_data.unwrap().width, 7);
}

#[test]
fn raw_image_wins_over_image_path() {
    let hints = vec![
        hint("image-path", HintValue::Str("/tmp/picture.png".to_string())),
        hint("image-data", image_value(3, &[0; 12])),
    ];
    let parsed = parse_hints(&hints).unwrap();
    assert_eq!(parsed.image_path.as_deref(), Some("/tmp/picture.png"));
    match image_source(parsed.image_data, parsed.image_path) {
        ImageSource::Raw(d) => assert_eq!(d.width, 3),
        other => panic!("expected the raw image, got {:?}", other),
    }
}

#[test]
fn image_path_alone_is_shown() {
    let hints = vec![hint("image-path", HintValue::Str("/tmp/p.png".to_string()))];
    let parsed = parse_hints(&hints).unwrap();
    match image_source(parsed.image_data, parsed.image_path) {
        ImageSource::Path(p) => assert_eq!(p, "/tmp/p.png"),
        other => panic!("expected the path, got {:?}", other),
    }
}

#[test]
fn image_path_of_wrong_type_fails() {
    let hints = vec![hint("image-path", HintValue::Bool(true))];
    assert_eq!(parse_hints(&hints).unwrap_err(), KrustifyError::IncorrectType);
}

#[test]
fn unrelated_hints_give_no_image_and_no_error() {
    let hints = vec![
        hint("urgency", HintValue::U8(1)),
        hint("category", HintValue::Str("im".to_string())),
    ];
    let parsed = parse_hints(&hints).unwrap();
    assert_eq!(parsed.desktop_entry, "");
    assert!(matches!(image_source(parsed.image_data, parsed.image_path), ImageSource::NoImage));
}

#[test]
fn find_hint_takes_the_first_under_a_key() {
    let hints = vec![hint("a", HintValue::I32(1)), hint("b", HintValue::I32(2)), hint("a", HintValue::I32(3))];
    assert!(matches!(find_hint(&hints, "a"), Some(HintValue::I32(1))));
    assert!(matches!(find_hint(&hints, "b"), Some(HintValue::I32(2))));
    assert!(find_hint(&hints, "c").is_none());
}
