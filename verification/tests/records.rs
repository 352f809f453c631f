//! Declarative records: animation frames, Wang sets, images, and the
//! tokenizer they are all parsed from.

use tiled::animation::{parse_animation, Frame};
use tiled::cache::{InMemoryReader, ResourceCache};
use tiled::properties::{Color, PropertyValue};
use tiled::tileset::parse_tileset;
use tiled::wangset::WangSetType;
use tiled::xml::{tokenize, Attr, Parser, XmlEvent};
use tiled::Error;

fn attr(key: &str, value: &str) -> Attr {
    Attr { key: key.to_string(), value: value.to_string() }
}

#[test]
fn tokenizer_reads_structural_tokens() {
    let events = tokenize(br#"<a b="c">hi<!-- note --><d/></a>"#).unwrap();
    assert_eq!(
        events,
        vec![
            XmlEvent::Start { name: "a".to_string(), attrs: vec![attr("b", "c")] },
            XmlEvent::Text { text: "hi".to_string() },
            XmlEvent::Comment,
            XmlEvent::Empty { name: "d".to_string(), attrs: Vec::new() },
            XmlEvent::End { name: "a".to_string() },
        ]
    );
}

#[test]
fn tokenizer_reports_malformed_markup() {
    match tokenize(b"<a></b>") {
        Err(Error::XmlDecoding(_)) => {}
        other => panic!("expected a decoding failure, got {:?}", other),
    }
}

#[test]
fn animation_frames_keep_declaration_order() {
    let events = vec![
        XmlEvent::Empty {
            name: "frame".to_string(),
            attrs: vec![attr("tileid", "3"), attr("duration", "100")],
        },
        XmlEvent::Empty {
            name: "frame".to_string(),
            attrs: vec![attr("tileid", "1"), attr("duration", "200")],
        },
        XmlEvent::Empty {
            name: "frame".to_string(),
            attrs: vec![attr("tileid", "2"), attr("duration", "300")],
        },
        XmlEvent::End { name: "animation".to_string() },
    ];
    let mut p = Parser::with_reader(events);
    let frames = parse_animation(&mut p).unwrap();
    assert_eq!(
        frames,
        vec![
            Frame { tile_id: 3, duration: 100 },
            Frame { tile_id: 1, duration: 200 },
            Frame { tile_id: 2, duration: 300 },
        ]
    );
}

#[test]
fn frame_with_missing_attribute_is_malformed() {
    match Frame::new(vec![attr("tileid", "3")]) {
        Err(Error::MalformedAttributes(_)) => {}
        other => panic!("expected a malformed-attributes failure, got {:?}", other),
    }
}

const TSX_FULL: &str = r##"<?xml version="1.0"?>
<tileset name="full" tilewidth="8" tileheight="8" spacing="1" margin="2" tilecount="9" columns="3">
  <image source="full.png" width="32" height="32" trans="FF00FF"/>
  <properties>
    <property name="kind" value="demo"/>
  </properties>
  <tile id="4">
    <animation>
      <frame tileid="4" duration="50"/>
      <frame tileid="5" duration="60"/>
    </animation>
  </tile>
  <wangsets>
    <wangset name="paths" type="corner" tile="-1">
      <wangcolor name="grass" color="#00FF00" tile="-1" probability="1"/>
      <wangcolor name="dirt" color="#8B4513" tile="2" probability="0.5"/>
      <wangtile tileid="0" wangid="1,1,1,2,1,1,1,2"/>
    </wangset>
  </wangsets>
</tileset>"##;

#[test]
fn tileset_document_parses_records_in_order() {
    let mut r = InMemoryReader::new(vec![(
        "full.tsx".to_string(),
        TSX_FULL.as_bytes().to_vec(),
    )]);
    let mut cache = ResourceCache::new();
    let ts = parse_tileset(&"full.tsx".to_string(), &mut r, &mut cache)
        .unwrap();
    assert_eq!(ts.name, "full");
    assert_eq!((ts.tile_width, ts.tile_height), (8, 8));
    assert_eq!((ts.spacing, ts.margin), (1, 2));
    assert_eq!((ts.tilecount, ts.columns), (Some(9), Some(3)));

    let img = ts.image.as_ref().unwrap();
    assert_eq!(img.source, "full.png");
    assert_eq!((img.width, img.height), (32, 32));
    assert_eq!(
        img.transparent_colour,
        Some(Color { alpha: 255, red: 0xFF, green: 0x00, blue: 0xFF })
    );

    assert_eq!(
        ts.properties.get("kind"),
        Some(&PropertyValue::StringValue("demo".to_string()))
    );

    assert_eq!(ts.tiles.len(), 1);
    let (id, tile) = &ts.tiles[0];
    assert_eq!(*id, 4);
    assert_eq!(
        tile.animation.as_ref().unwrap().as_slice(),
        &[
            Frame { tile_id: 4, duration: 50 },
            Frame { tile_id: 5, duration: 60 },
        ]
    );

    assert_eq!(ts.wang_sets.len(), 1);
    let ws = &ts.wang_sets[0];
    assert_eq!(ws.name, "paths");
    assert_eq!(ws.wang_set_type, WangSetType::Corner);
    assert_eq!(ws.tile, None);
    // colors in declaration order
    assert_eq!(ws.wang_colors.len(), 2);
    assert_eq!(ws.wang_colors[0].name, "grass");
    assert_eq!(
        ws.wang_colors[0].color,
        Color { alpha: 255, red: 0, green: 0xFF, blue: 0 }
    );
    assert_eq!(ws.wang_colors[0].tile, None);
    assert_eq!(ws.wang_colors[1].name, "dirt");
    assert_eq!(ws.wang_colors[1].tile, Some(2));
    assert_eq!(ws.wang_colors[1].probability, "0.5");
    assert_eq!(ws.wang_tiles.len(), 1);
    assert_eq!(ws.wang_tiles[0].0, 0);
    assert_eq!(ws.wang_tiles[0].1.wang_id, vec![1, 1, 1, 2, 1, 1, 1, 2]);
}
