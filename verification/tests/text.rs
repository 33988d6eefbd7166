use hex_color::HexColor;
use protoviz::descriptor::{
    default_3, default_50, default_black, default_true, default_white, ElementsDescriptor,
    FieldLength, ProtoDescriptor, StyleDescriptor,
};
use protoviz::text::{char_is_space, decimal_string, trim};

#[test]
fn decimal_numerals() {
    assert_eq!(decimal_string(0), "0");
    assert_eq!(decimal_string(7), "7");
    assert_eq!(decimal_string(10), "10");
    assert_eq!(decimal_string(12345678906), "12345678906");
    assert_eq!(decimal_string(usize::MAX), usize::MAX.to_string());
}

#[test]
fn trimming_agrees_with_std() {
    for s in ["", " ", "N", " N", "N ", "\t a b \n", "\u{3000}x\u{2003}", "\u{200b}", "a\u{85}"] {
        assert_eq!(trim(s), s.trim());
    }
}

#[test]
fn whitespace_agrees_with_std() {
    for code in 0..0x3100u32 {
        if let Some(c) = char::from_u32(code) {
            assert_eq!(char_is_space(c), c.is_whitespace(), "U+{:04X}", code);
        }
    }
}

#[test]
fn lengths_as_text() {
    assert_eq!(FieldLength::Fixed(42).to_string(), "42");
    assert_eq!(FieldLength::Variable(" N ".to_string()).to_string(), " N ");
}

#[test]
fn defaults() {
    assert!(default_true());
    assert_eq!(default_50(), 50);
    assert_eq!(default_3(), 3);
    assert_eq!(default_white(), HexColor::rgb(255, 255, 255));
    assert_eq!(default_white(), HexColor::WHITE);
    assert_eq!(default_black(), HexColor::BLACK);
    let elements = ElementsDescriptor::default();
    assert!(elements.network_order && elements.field_position && elements.field_length);
    assert!(elements.wrap_line && elements.start_symbol && elements.inner_subtitles);
    let style = StyleDescriptor::default();
    assert_eq!(style.background_color, HexColor::WHITE);
    assert_eq!(style.field_color, HexColor::WHITE);
    assert_eq!(style.text_color, HexColor::BLACK);
    assert_eq!(style.subtitle_color, HexColor::BLACK);
    assert_eq!(style.unit_width, 50);
    assert_eq!(style.dyn_units, 3);
    assert!(ProtoDescriptor::default().fields.is_empty());
}
