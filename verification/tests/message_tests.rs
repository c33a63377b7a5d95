use std::sync::Arc;

use hyperion::color::Color;
use hyperion::image::RawImage;
use hyperion::input_message::{ComponentName, InputMessage, InputMessageData};
use hyperion::state_update::StateUpdate;

#[test]
fn clear_all_has_no_priority_nor_duration() {
    let d = InputMessageData::ClearAll;
    assert_eq!(d.priority(), None);
    assert_eq!(d.duration(), None);
}

#[test]
fn clear_has_priority_but_no_duration() {
    let d = InputMessageData::Clear { priority: 7 };
    assert_eq!(d.priority(), Some(7));
    assert_eq!(d.duration(), None);
}

#[test]
fn solid_color_priority_and_duration() {
    let d = InputMessageData::SolidColor {
        priority: -3,
        duration: Some(chrono::Duration::milliseconds(1500)),
        color: Color::new(1, 2, 3),
    };
    assert_eq!(d.priority(), Some(-3));
    assert_eq!(d.duration(), Some(chrono::Duration::milliseconds(1500)));
}

#[test]
fn image_and_led_colors_priority_and_duration() {
    let img = RawImage::from_raw_parts(vec![0; 3], 1, 1).unwrap();
    let d = InputMessageData::Image { priority: 100, duration: None, image: Arc::new(img) };
    assert_eq!(d.priority(), Some(100));
    assert_eq!(d.duration(), None);
    let d = InputMessageData::LedColors {
        priority: 250,
        duration: Some(chrono::Duration::seconds(2)),
        led_colors: Arc::new(vec![Color::new(9, 9, 9)]),
    };
    assert_eq!(d.priority(), Some(250));
    assert_eq!(d.duration(), Some(chrono::Duration::seconds(2)));
}

#[test]
fn input_message_accessors() {
    let m = InputMessage::new(42, ComponentName::FlatbufServer, InputMessageData::Clear { priority: 1 });
    assert_eq!(m.source_id(), 42);
    assert_eq!(m.component(), ComponentName::FlatbufServer);
    assert_eq!(m.data().priority(), Some(1));
}

#[test]
fn state_update_constructors() {
    assert!(matches!(StateUpdate::clear(), StateUpdate::Clear));
    assert!(matches!(StateUpdate::solid(Color::new(1, 2, 3)),
        StateUpdate::SolidColor { color } if color == Color::new(1, 2, 3)));
    let img = RawImage::from_raw_parts(vec![0; 6], 2, 1).unwrap();
    assert!(matches!(StateUpdate::image(img), StateUpdate::Image(i) if i.get_dimensions() == (2, 1)));
    assert!(matches!(StateUpdate::led_data(vec![Color::new(0, 0, 0); 4]),
        StateUpdate::LedData(v) if v.len() == 4));
}

#[test]
fn state_update_debug_text() {
    assert_eq!(StateUpdate::clear().debug_string(), "Clear");
    assert_eq!(
        StateUpdate::solid(Color::new(255, 0, 17)).debug_string(),
        "SolidColor { color: Color { red: 255, green: 0, blue: 17 } }"
    );
    let img = RawImage::from_raw_parts(vec![0; 36], 3, 4).unwrap();
    assert_eq!(StateUpdate::image(img).debug_string(), "Image(3x4 image)");
    assert_eq!(StateUpdate::led_data(vec![Color::new(1, 1, 1); 120]).debug_string(), "LedData(120 LEDs)");
}

#[test]
fn color_components() {
    let c = Color::new(10, 20, 30);
    assert_eq!(c.into_components(), (10, 20, 30));
    assert_eq!(format!("{:?}", c), "Color { red: 10, green: 20, blue: 30 }");
}

#[test]
fn decimal_text() {
    assert_eq!(hyperion::text::decimal_string(0), "0");
    assert_eq!(hyperion::text::decimal_string(9), "9");
    assert_eq!(hyperion::text::decimal_string(10), "10");
    assert_eq!(hyperion::text::decimal_string(u64::MAX), "18446744073709551615");
}
