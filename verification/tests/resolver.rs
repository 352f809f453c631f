//! The gid resolver and the numeric helpers.

use std::sync::Arc;
use tiled::gid::{get_tileset_for_gid, Gid, LayerTileData, MapTilesetGid};
use tiled::properties::Properties;
use tiled::tileset::Tileset;
use tiled::util::floor_div;
use tiled::Error;

fn tileset(name: &str) -> Arc<Tileset> {
    Arc::new(Tileset {
        name: name.to_string(),
        tile_width: 16,
        tile_height: 16,
        spacing: 0,
        margin: 0,
        tilecount: None,
        columns: None,
        image: None,
        tiles: Vec::new(),
        wang_sets: Vec::new(),
        properties: Properties::new(),
    })
}

fn table() -> Vec<MapTilesetGid> {
    vec![
        MapTilesetGid { first_gid: Gid(1), tileset: tileset("a") },
        MapTilesetGid { first_gid: Gid(10), tileset: tileset("b") },
        MapTilesetGid { first_gid: Gid(100), tileset: tileset("c") },
    ]
}

#[test]
fn resolver_selects_greatest_first_gid_not_exceeding() {
    let ts = table();
    assert_eq!(get_tileset_for_gid(&ts, Gid(1)).unwrap().0, 0);
    assert_eq!(get_tileset_for_gid(&ts, Gid(9)).unwrap().0, 0);
    assert_eq!(get_tileset_for_gid(&ts, Gid(10)).unwrap().0, 1);
    assert_eq!(get_tileset_for_gid(&ts, Gid(99)).unwrap().0, 1);
    assert_eq!(get_tileset_for_gid(&ts, Gid(100)).unwrap().0, 2);
    assert_eq!(get_tileset_for_gid(&ts, Gid(u32::MAX)).unwrap().0, 2);
    assert!(get_tileset_for_gid(&ts, Gid(0)).is_none());
}

#[test]
fn zero_always_resolves_to_no_tile() {
    assert_eq!(LayerTileData::from_bits(0, &table()), Ok(None));
    assert_eq!(LayerTileData::from_bits(0, &[]), Ok(None));
}

#[test]
fn local_id_is_offset_from_first_gid() {
    let r = LayerTileData::from_bits(12, &table()).unwrap().unwrap();
    assert_eq!(r.tileset_index, 1);
    assert_eq!(r.id, 2);
}

#[test]
fn unresolvable_masked_id_is_an_error() {
    let ts = vec![MapTilesetGid { first_gid: Gid(5), tileset: tileset("a") }];
    assert_eq!(LayerTileData::from_bits(3, &ts), Err(Error::GidNotFound(3)));
}

#[test]
fn flag_bits_are_stripped_before_lookup() {
    let r = LayerTileData::from_bits(0x8000_000B, &table()).unwrap().unwrap();
    assert_eq!(r.tileset_index, 1);
    assert_eq!(r.id, 1);
    assert!(r.flip_h);
    assert!(!r.flip_v);
    assert!(!r.flip_d);
}

#[test]
fn floor_div_rounds_toward_negative_infinity() {
    assert_eq!(floor_div(7, 2), 3);
    assert_eq!(floor_div(-7, 2), -4);
    assert_eq!(floor_div(7, -2), -4);
    assert_eq!(floor_div(-7, -2), 3);
    assert_eq!(floor_div(6, 3), 2);
    assert_eq!(floor_div(-6, 3), -2);
    assert_eq!(floor_div(0, 5), 0);
    assert_eq!(floor_div(0, -5), 0);
    assert_eq!(floor_div(i32::MIN, 2), -1073741824);
}
