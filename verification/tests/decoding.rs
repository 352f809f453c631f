//! Layer payload decoding: the encoding/compression matrix, cell
//! resolution, and the decoder's error reporting.

use base64::Engine;
use std::io::Write;
use std::sync::Arc;
use tiled::data::parse_data_line;
use tiled::gid::{Gid, LayerTileData, MapTilesetGid};
use tiled::properties::Properties;
use tiled::tileset::Tileset;
use tiled::xml::{Parser, XmlEvent};
use tiled::Error;

fn tileset(name: &str) -> Arc<Tileset> {
    Arc::new(Tileset {
        name: name.to_string(),
        tile_width: 16,
        tile_height: 16,
        spacing: 0,
        margin: 0,
        tilecount: None,
        columns: None,
        image: None,
        tiles: Vec::new(),
        wang_sets: Vec::new(),
        properties: Properties::new(),
    })
}

fn table() -> Vec<MapTilesetGid> {
    vec![
        MapTilesetGid { first_gid: Gid(1), tileset: tileset("a") },
        MapTilesetGid { first_gid: Gid(3), tileset: tileset("b") },
    ]
}

fn text_parser(payload: &str) -> Parser {
    Parser::with_reader(vec![XmlEvent::Text { text: payload.to_string() }])
}

fn cell(tileset_index: usize, id: u32) -> Option<LayerTileData> {
    Some(LayerTileData { tileset_index, id, flip_h: false, flip_v: false, flip_d: false })
}

fn le_bytes(gids: &[u32]) -> Vec<u8> {
    let mut out = Vec::new();
    for g in gids {
        out.extend_from_slice(&g.to_le_bytes());
    }
    out
}

fn expected_cells() -> Vec<Option<LayerTileData>> {
    vec![cell(0, 0), cell(0, 1), None, cell(1, 0)]
}

#[test]
fn csv_payload_resolves_in_order() {
    // tilesets at first id 1 and 3; payload 1,2,0,3
    let ts = table();
    let mut p = text_parser("1,2,0,3");
    let enc = "csv".to_string();
    let r = parse_data_line(Some(&enc), None, &mut p, &ts).unwrap();
    assert_eq!(r, expected_cells());
}

#[test]
fn csv_payload_tolerates_whitespace() {
    let ts = table();
    let mut p = text_parser("\n  1 , 2 ,0,\n3\n");
    let enc = "csv".to_string();
    let r = parse_data_line(Some(&enc), None, &mut p, &ts).unwrap();
    assert_eq!(r, expected_cells());
}

#[test]
fn base64_plain_matches_csv() {
    let ts = table();
    let payload = base64::engine::general_purpose::STANDARD.encode(le_bytes(&[1, 2, 0, 3]));
    let enc = "base64".to_string();
    let mut p = text_parser(&payload);
    let r = parse_data_line(Some(&enc), None, &mut p, &ts).unwrap();
    assert_eq!(r, expected_cells());
}

#[test]
fn equivalent_payloads_decode_alike() {
    // one logical cell sequence through plain, zlib and gzip payloads
    let ts = table();
    let raw = le_bytes(&[1, 2, 0, 3]);
    let enc = "base64".to_string();

    let plain = base64::engine::general_purpose::STANDARD.encode(&raw);
    let mut p1 = text_parser(&plain);
    let r1 = parse_data_line(Some(&enc), None, &mut p1, &ts).unwrap();

    let mut z = flate2::write::ZlibEncoder::new(Vec::new(), flate2::Compression::default());
    z.write_all(&raw).unwrap();
    let zlib_payload = base64::engine::general_purpose::STANDARD.encode(z.finish().unwrap());
    let comp = "zlib".to_string();
    let mut p2 = text_parser(&zlib_payload);
    let r2 = parse_data_line(Some(&enc), Some(&comp), &mut p2, &ts).unwrap();

    let mut g = flate2::write::GzEncoder::new(Vec::new(), flate2::Compression::default());
    g.write_all(&raw).unwrap();
    let gzip_payload = base64::engine::general_purpose::STANDARD.encode(g.finish().unwrap());
    let comp = "gzip".to_string();
    let mut p3 = text_parser(&gzip_payload);
    let r3 = parse_data_line(Some(&enc), Some(&comp), &mut p3, &ts).unwrap();

    assert_eq!(r1, expected_cells());
    assert_eq!(r1, r2);
    assert_eq!(r2, r3);
}

#[test]
fn zstd_payload_decodes() {
    let ts = table();
    let raw = le_bytes(&[1, 2, 0, 3]);
    let compressed = zstd::encode_all(&raw[..], 0).unwrap();
    let payload = base64::engine::general_purpose::STANDARD.encode(compressed);
    let enc = "base64".to_string();
    let comp = "zstd".to_string();
    let mut p = text_parser(&payload);
    let r = parse_data_line(Some(&enc), Some(&comp), &mut p, &ts).unwrap();
    assert_eq!(r, expected_cells());
}

#[test]
fn empty_data_element_is_empty_cells() {
    // a data element closed without text is an empty sequence for every
    // supported pair
    let ts = table();
    let pairs: Vec<(&str, Option<&str>)> = vec![
        ("csv", None),
        ("base64", None),
        ("base64", Some("zlib")),
        ("base64", Some("gzip")),
        ("base64", Some("zstd")),
    ];
    for (e, c) in pairs {
        let mut p = Parser::with_reader(vec![XmlEvent::End { name: "data".to_string() }]);
        let enc = e.to_string();
        let comp = c.map(|s| s.to_string());
        let r = parse_data_line(Some(&enc), comp.as_ref(), &mut p, &ts).unwrap();
        assert_eq!(r, Vec::new());
    }
}

#[test]
fn unsupported_pair_reports_both_strings() {
    let ts = table();
    let mut p = text_parser("1,2");
    let enc = "csv".to_string();
    let comp = "zlib".to_string();
    let r = parse_data_line(Some(&enc), Some(&comp), &mut p, &ts);
    assert_eq!(
        r,
        Err(Error::InvalidEncodingFormat {
            encoding: Some("csv".to_string()),
            compression: Some("zlib".to_string()),
        })
    );
}

#[test]
fn missing_encoding_is_unsupported() {
    let ts = table();
    let mut p = text_parser("1");
    let r = parse_data_line(None, None, &mut p, &ts);
    assert_eq!(
        r,
        Err(Error::InvalidEncodingFormat { encoding: None, compression: None })
    );
}

#[test]
fn malformed_base64_is_its_own_error() {
    let ts = table();
    let enc = "base64".to_string();
    let mut p = text_parser("!!!not base64!!!");
    match parse_data_line(Some(&enc), None, &mut p, &ts) {
        Err(Error::Base64Decoding(_)) => {}
        other => panic!("expected a base64 failure, got {:?}", other),
    }
}

#[test]
fn malformed_csv_field_is_its_own_error() {
    let ts = table();
    let enc = "csv".to_string();
    let mut p = text_parser("1,x,3");
    match parse_data_line(Some(&enc), None, &mut p, &ts) {
        Err(Error::CsvDecoding(_)) => {}
        other => panic!("expected a csv failure, got {:?}", other),
    }
}

#[test]
fn failing_decompression_is_its_own_error() {
    let ts = table();
    let enc = "base64".to_string();
    let comp = "zlib".to_string();
    let payload = base64::engine::general_purpose::STANDARD.encode(b"this is not zlib");
    let mut p = text_parser(&payload);
    match parse_data_line(Some(&enc), Some(&comp), &mut p, &ts) {
        Err(Error::Decompressing(_)) => {}
        other => panic!("expected a decompression failure, got {:?}", other),
    }
}

#[test]
fn out_of_range_cell_value_fails_resolution() {
    let ts = vec![MapTilesetGid { first_gid: Gid(5), tileset: tileset("a") }];
    let enc = "csv".to_string();
    let mut p = text_parser("2");
    assert_eq!(
        parse_data_line(Some(&enc), None, &mut p, &ts),
        Err(Error::GidNotFound(2))
    );
}

#[test]
fn end_of_input_before_payload_is_premature() {
    let ts = table();
    let enc = "csv".to_string();
    let mut p = Parser::with_reader(Vec::new());
    match parse_data_line(Some(&enc), None, &mut p, &ts) {
        Err(Error::PrematureEnd(_)) => {}
        other => panic!("expected a premature-end failure, got {:?}", other),
    }
}

#[test]
fn non_text_tokens_before_payload_are_ignored() {
    let ts = table();
    let enc = "csv".to_string();
    let mut p = Parser::with_reader(vec![
        XmlEvent::Comment,
        XmlEvent::Other,
        XmlEvent::Text { text: "3".to_string() },
    ]);
    let r = parse_data_line(Some(&enc), None, &mut p, &ts).unwrap();
    assert_eq!(r, vec![cell(1, 0)]);
}

#[test]
fn orientation_flags_unpack() {
    let ts = table();
    // gid 1 with horizontal, vertical and diagonal flip bits set
    let raw = 1u32 | 0x8000_0000 | 0x4000_0000 | 0x2000_0000;
    let enc = "csv".to_string();
    let mut p = text_parser(&format!("{}", raw));
    let r = parse_data_line(Some(&enc), None, &mut p, &ts).unwrap();
    assert_eq!(
        r,
        vec![Some(LayerTileData {
            tileset_index: 0,
            id: 0,
            flip_h: true,
            flip_v: true,
            flip_d: true,
        })]
    );
}
