//! The property value model: color parsing, typed value conversion, and
//! the recursive properties parser with its class lookahead.

use tiled::properties::{parse_properties, Color, Properties, PropertyValue};
use tiled::xml::{Attr, Parser, XmlEvent};
use tiled::Error;

fn attr(key: &str, value: &str) -> Attr {
    Attr { key: key.to_string(), value: value.to_string() }
}

#[test]
fn short_color_text_fails_conversion() {
    // "#12" is too short for either color form
    assert!(Color::from_str("#12").is_err());
    match PropertyValue::new("color".to_string(), "#12".to_string()) {
        Err(Error::InvalidPropertyValue(_)) => {}
        other => panic!("expected an invalid-value failure, got {:?}", other),
    }
}

#[test]
fn one_char_color_value_is_a_conversion_failure() {
    // even the shortest color text fails conversion, not type lookup
    match PropertyValue::new("color".to_string(), "#".to_string()) {
        Err(Error::InvalidPropertyValue(_)) => {}
        other => panic!("expected an invalid-value failure, got {:?}", other),
    }
    match PropertyValue::new("color".to_string(), String::new()) {
        Err(Error::InvalidPropertyValue(_)) => {}
        other => panic!("expected an invalid-value failure, got {:?}", other),
    }
}

#[test]
fn six_digit_color_parses_with_or_without_hash() {
    let expected = Color { alpha: 255, red: 0xA1, green: 0xB2, blue: 0xC3 };
    assert_eq!(Color::from_str("#A1B2C3"), Ok(expected));
    assert_eq!(Color::from_str("A1B2C3"), Ok(expected));
}

#[test]
fn eight_digit_color_carries_alpha() {
    assert_eq!(
        Color::from_str("#11A1B2C3"),
        Ok(Color { alpha: 0x11, red: 0xA1, green: 0xB2, blue: 0xC3 })
    );
}

#[test]
fn lower_case_hex_parses() {
    assert_eq!(
        Color::from_str("#a1b2c3"),
        Ok(Color { alpha: 255, red: 0xA1, green: 0xB2, blue: 0xC3 })
    );
}

#[test]
fn bool_values_parse_strictly() {
    assert_eq!(
        PropertyValue::new("bool".to_string(), "true".to_string()),
        Ok(PropertyValue::BoolValue(true))
    );
    assert_eq!(
        PropertyValue::new("bool".to_string(), "false".to_string()),
        Ok(PropertyValue::BoolValue(false))
    );
    match PropertyValue::new("bool".to_string(), "True".to_string()) {
        Err(Error::InvalidPropertyValue(_)) => {}
        other => panic!("expected an invalid-value failure, got {:?}", other),
    }
}

#[test]
fn int_and_object_values_parse() {
    assert_eq!(
        PropertyValue::new("int".to_string(), "-17".to_string()),
        Ok(PropertyValue::IntValue(-17))
    );
    assert_eq!(
        PropertyValue::new("int".to_string(), "2147483647".to_string()),
        Ok(PropertyValue::IntValue(i32::MAX))
    );
    assert_eq!(
        PropertyValue::new("object".to_string(), "7".to_string()),
        Ok(PropertyValue::ObjectValue(7))
    );
    match PropertyValue::new("int".to_string(), "2147483648".to_string()) {
        Err(Error::InvalidPropertyValue(_)) => {}
        other => panic!("expected an invalid-value failure, got {:?}", other),
    }
}

#[test]
fn float_values_keep_their_text() {
    assert_eq!(
        PropertyValue::new("float".to_string(), "1.5".to_string()),
        Ok(PropertyValue::FloatValue("1.5".to_string()))
    );
    assert_eq!(
        PropertyValue::new("float".to_string(), "-2.5e3".to_string()),
        Ok(PropertyValue::FloatValue("-2.5e3".to_string()))
    );
    match PropertyValue::new("float".to_string(), "abc".to_string()) {
        Err(Error::InvalidPropertyValue(_)) => {}
        other => panic!("expected an invalid-value failure, got {:?}", other),
    }
}

#[test]
fn string_and_file_values_are_verbatim() {
    assert_eq!(
        PropertyValue::new("string".to_string(), "hello".to_string()),
        Ok(PropertyValue::StringValue("hello".to_string()))
    );
    assert_eq!(
        PropertyValue::new("file".to_string(), "a/b.png".to_string()),
        Ok(PropertyValue::FileValue("a/b.png".to_string()))
    );
}

#[test]
fn unknown_type_names_are_reported() {
    assert_eq!(
        PropertyValue::new("widget".to_string(), "x".to_string()),
        Err(Error::UnknownPropertyType("widget".to_string()))
    );
}

#[test]
fn properties_parse_and_replace_by_name() {
    let events = vec![
        XmlEvent::Empty {
            name: "property".to_string(),
            attrs: vec![attr("name", "k"), attr("type", "int"), attr("value", "1")],
        },
        XmlEvent::Empty {
            name: "property".to_string(),
            attrs: vec![attr("name", "k"), attr("type", "int"), attr("value", "2")],
        },
        XmlEvent::End { name: "properties".to_string() },
    ];
    let mut p = Parser::with_reader(events);
    let props = parse_properties(&mut p).unwrap();
    assert_eq!(props.len(), 1);
    assert_eq!(props.get("k"), Some(&PropertyValue::IntValue(2)));
}

#[test]
fn missing_value_reads_following_text() {
    let events = vec![
        XmlEvent::Start {
            name: "property".to_string(),
            attrs: vec![attr("name", "lines")],
        },
        XmlEvent::Text { text: "one\ntwo".to_string() },
        XmlEvent::End { name: "property".to_string() },
        XmlEvent::End { name: "properties".to_string() },
    ];
    let mut p = Parser::with_reader(events);
    let props = parse_properties(&mut p).unwrap();
    assert_eq!(
        props.get("lines"),
        Some(&PropertyValue::StringValue("one\ntwo".to_string()))
    );
}

#[test]
fn missing_name_is_malformed() {
    let events = vec![
        XmlEvent::Empty {
            name: "property".to_string(),
            attrs: vec![attr("value", "3")],
        },
        XmlEvent::End { name: "properties".to_string() },
    ];
    let mut p = Parser::with_reader(events);
    match parse_properties(&mut p) {
        Err(Error::MalformedAttributes(_)) => {}
        other => panic!("expected a malformed-attributes failure, got {:?}", other),
    }
}

#[test]
fn class_without_block_has_empty_mapping() {
    // a class-typed property with no following nested properties block
    let events = vec![
        XmlEvent::Empty {
            name: "property".to_string(),
            attrs: vec![attr("name", "c"), attr("type", "class"), attr("propertytype", "T")],
        },
        XmlEvent::End { name: "properties".to_string() },
    ];
    let mut p = Parser::with_reader(events);
    let props = parse_properties(&mut p).unwrap();
    match props.get("c") {
        Some(PropertyValue::ClassValue { property_type, properties }) => {
            assert_eq!(property_type, "T");
            assert_eq!(properties.len(), 0);
        }
        other => panic!("expected a class value, got {:?}", other),
    }
}

#[test]
fn class_with_block_parses_nested_mapping() {
    let events = vec![
        XmlEvent::Start {
            name: "property".to_string(),
            attrs: vec![attr("name", "c"), attr("type", "class")],
        },
        XmlEvent::Start { name: "properties".to_string(), attrs: Vec::new() },
        XmlEvent::Empty {
            name: "property".to_string(),
            attrs: vec![attr("name", "inner"), attr("value", "v")],
        },
        XmlEvent::End { name: "properties".to_string() },
        XmlEvent::End { name: "property".to_string() },
        XmlEvent::End { name: "properties".to_string() },
    ];
    let mut p = Parser::with_reader(events);
    let props = parse_properties(&mut p).unwrap();
    match props.get("c") {
        Some(PropertyValue::ClassValue { properties, .. }) => {
            assert_eq!(
                properties.get("inner"),
                Some(&PropertyValue::StringValue("v".to_string()))
            );
        }
        other => panic!("expected a class value, got {:?}", other),
    }
}

#[test]
fn class_lookahead_leaves_sibling_in_stream() {
    // the token looked at to decide "no nested block" is put back, so a
    // sibling property right after a class property is kept
    let events = vec![
        XmlEvent::Empty {
            name: "property".to_string(),
            attrs: vec![attr("name", "c"), attr("type", "class")],
        },
        XmlEvent::Empty {
            name: "property".to_string(),
            attrs: vec![attr("name", "after"), attr("value", "v")],
        },
        XmlEvent::End { name: "properties".to_string() },
    ];
    let mut p = Parser::with_reader(events);
    let props = parse_properties(&mut p).unwrap();
    assert_eq!(props.len(), 2);
    assert!(matches!(props.get("c"), Some(PropertyValue::ClassValue { .. })));
    assert_eq!(props.get("after"), Some(&PropertyValue::StringValue("v".to_string())));
}

#[test]
fn class_lookahead_skips_blank_text_and_comments() {
    let events = vec![
        XmlEvent::Start {
            name: "property".to_string(),
            attrs: vec![attr("name", "c"), attr("type", "class")],
        },
        XmlEvent::Text { text: "  \n  ".to_string() },
        XmlEvent::Comment,
        XmlEvent::Start { name: "properties".to_string(), attrs: Vec::new() },
        XmlEvent::End { name: "properties".to_string() },
        XmlEvent::End { name: "property".to_string() },
        XmlEvent::End { name: "properties".to_string() },
    ];
    let mut p = Parser::with_reader(events);
    let props = parse_properties(&mut p).unwrap();
    assert!(matches!(props.get("c"), Some(PropertyValue::ClassValue { .. })));
}

#[test]
fn empty_properties_container() {
    let props = Properties::new();
    assert_eq!(props.len(), 0);
    assert_eq!(props.get("anything"), None);
}
