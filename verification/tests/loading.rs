//! Whole-document loading: caching and sharing of external resources,
//! template loading, and map parsing end to end.

use std::sync::Arc;
use tiled::cache::{InMemoryReader, ResourceCache};
use tiled::map::{parse_map, LayerData, MAX_RESOURCE_DEPTH};
use tiled::template::Template;
use tiled::tileset::load_tileset;
use tiled::Error;

fn reader(files: Vec<(&str, &str)>) -> InMemoryReader {
    InMemoryReader::new(
        files
            .into_iter()
            .map(|(p, c)| (p.to_string(), c.as_bytes().to_vec()))
            .collect(),
    )
}

const TSX: &str = r#"<?xml version="1.0"?>
<tileset name="terrain" tilewidth="16" tileheight="16" tilecount="4" columns="2">
  <image source="terrain.png" width="32" height="32"/>
</tileset>"#;

#[test]
fn shared_cache_parses_each_path_once() {
    // two loads of one path: one underlying read, reference-equal handles
    let mut r = reader(vec![("assets/terrain.tsx", TSX)]);
    let mut cache = ResourceCache::new();
    let path = "assets/terrain.tsx".to_string();
    let t1 = load_tileset(&path, &mut r, &mut cache, MAX_RESOURCE_DEPTH).unwrap();
    let t2 = load_tileset(&path, &mut r, &mut cache, MAX_RESOURCE_DEPTH).unwrap();
    assert_eq!(r.read_count(), 1);
    assert!(Arc::ptr_eq(&t1, &t2));
    assert_eq!(t1.name, "terrain");
}

#[test]
fn cache_shares_across_documents() {
    let map_a = r#"<map version="1.10" width="1" height="1" tilewidth="16" tileheight="16">
  <tileset firstgid="1" source="terrain.tsx"/>
</map>"#;
    let map_b = r#"<map version="1.10" width="1" height="1" tilewidth="16" tileheight="16">
  <tileset firstgid="1" source="terrain.tsx"/>
</map>"#;
    let mut r = reader(vec![
        ("assets/a.tmx", map_a),
        ("assets/b.tmx", map_b),
        ("assets/terrain.tsx", TSX),
    ]);
    let mut cache = ResourceCache::new();
    let a = parse_map(&"assets/a.tmx".to_string(), &mut r, &mut cache).unwrap();
    let b = parse_map(&"assets/b.tmx".to_string(), &mut r, &mut cache).unwrap();
    // three reads: the two maps and the tileset, parsed once
    assert_eq!(r.read_count(), 3);
    assert!(Arc::ptr_eq(&a.tilesets[0].tileset, &b.tilesets[0].tileset));
}

#[test]
fn map_parses_with_layers_and_table() {
    let map = r#"<?xml version="1.0"?>
<map version="1.10" width="2" height="2" tilewidth="16" tileheight="16">
  <tileset firstgid="1" source="terrain.tsx"/>
  <tileset firstgid="5" name="inline" tilewidth="16" tileheight="16"/>
  <layer name="ground" width="2" height="2">
    <data encoding="csv">
1,2,0,5
    </data>
  </layer>
  <objectgroup name="things">
    <object id="1" name="first"/>
    <object id="2" name="second"/>
    <object id="3" name="third"/>
  </objectgroup>
</map>"#;
    let mut r = reader(vec![("assets/m.tmx", map), ("assets/terrain.tsx", TSX)]);
    let mut cache = ResourceCache::new();
    let m = parse_map(&"assets/m.tmx".to_string(), &mut r, &mut cache).unwrap();
    assert_eq!(m.version, "1.10");
    assert_eq!((m.width, m.height), (2, 2));
    assert_eq!(m.tilesets.len(), 2);
    assert_eq!(m.tilesets[0].first_gid.0, 1);
    assert_eq!(m.tilesets[0].tileset.name, "terrain");
    assert_eq!(m.tilesets[1].first_gid.0, 5);
    assert_eq!(m.tilesets[1].tileset.name, "inline");
    assert_eq!(m.layers.len(), 2);
    match &m.layers[0] {
        LayerData::Tiles(t) => {
            assert_eq!(t.tiles.len(), 4);
            let c0 = t.tiles[0].unwrap();
            assert_eq!((c0.tileset_index, c0.id), (0, 0));
            let c1 = t.tiles[1].unwrap();
            assert_eq!((c1.tileset_index, c1.id), (0, 1));
            assert!(t.tiles[2].is_none());
            let c3 = t.tiles[3].unwrap();
            assert_eq!((c3.tileset_index, c3.id), (1, 0));
        }
        other => panic!("expected a tile layer, got {:?}", other),
    }
    // objects come back in the exact order declared
    match &m.layers[1] {
        LayerData::Objects(o) => {
            let names: Vec<&str> =
                o.object_data().iter().map(|d| d.name.as_str()).collect();
            assert_eq!(names, vec!["first", "second", "third"]);
        }
        other => panic!("expected an object layer, got {:?}", other),
    }
}

#[test]
fn missing_resource_reports_its_path() {
    let mut r = reader(vec![]);
    let mut cache = ResourceCache::new();
    match parse_map(&"nowhere.tmx".to_string(), &mut r, &mut cache) {
        Err(Error::ResourceLoading { path, .. }) => assert_eq!(path, "nowhere.tmx"),
        other => panic!("expected a resource-loading failure, got {:?}", other),
    }
}

#[test]
fn malformed_markup_is_a_decoding_error() {
    let mut r = reader(vec![("bad.tmx", "<map><unclosed")]);
    let mut cache = ResourceCache::new();
    match parse_map(&"bad.tmx".to_string(), &mut r, &mut cache) {
        Err(Error::XmlDecoding(_)) | Err(Error::PrematureEnd(_)) => {}
        other => panic!("expected a decoding failure, got {:?}", other),
    }
}

#[test]
fn template_with_no_object_is_an_error() {
    let mut r = reader(vec![("t.tx", "<template></template>")]);
    let mut cache = ResourceCache::new();
    match Template::parse_template(&"t.tx".to_string(), &mut r, &mut cache, MAX_RESOURCE_DEPTH) {
        Err(Error::TemplateHasNoObject) => {}
        other => panic!("expected the template-has-no-object failure, got {:?}", other),
    }
}

#[test]
fn template_loads_with_tileset_and_object() {
    let template = r#"<template>
  <tileset firstgid="1" source="terrain.tsx"/>
  <object name="tree" gid="2"/>
</template>"#;
    let mut r = reader(vec![("assets/tree.tx", template), ("assets/terrain.tsx", TSX)]);
    let mut cache = ResourceCache::new();
    let t = Template::parse_template(
        &"assets/tree.tx".to_string(),
        &mut r,
        &mut cache,
        MAX_RESOURCE_DEPTH,
    )
    .unwrap();
    assert_eq!(t.tileset.as_ref().unwrap().name, "terrain");
    // the handle the template stores is the cached one
    let cached = cache.get_tileset(&"assets/terrain.tsx".to_string()).unwrap();
    assert!(Arc::ptr_eq(t.tileset.as_ref().unwrap(), &cached));
    assert_eq!(t.object.name, "tree");
    let tile = t.object.tile.unwrap();
    assert_eq!((tile.tileset_index, tile.id), (0, 1));
}

#[test]
fn object_template_goes_through_cache() {
    let map = r#"<map version="1.10" width="1" height="1" tilewidth="16" tileheight="16">
  <objectgroup>
    <object id="1" template="tree.tx"/>
    <object id="2" template="tree.tx"/>
  </objectgroup>
</map>"#;
    let template = r#"<template><object name="tree"/></template>"#;
    let mut r = reader(vec![("assets/m.tmx", map), ("assets/tree.tx", template)]);
    let mut cache = ResourceCache::new();
    let m = parse_map(&"assets/m.tmx".to_string(), &mut r, &mut cache).unwrap();
    // the map and the template: the template read once despite two uses
    assert_eq!(r.read_count(), 2);
    match &m.layers[0] {
        LayerData::Objects(o) => {
            assert_eq!(o.object_data().len(), 2);
            assert_eq!(
                o.object_data()[0].template.as_deref(),
                Some("assets/tree.tx")
            );
        }
        other => panic!("expected an object layer, got {:?}", other),
    }
}

#[test]
fn cyclic_templates_hit_the_recursion_limit() {
    let template = r#"<template><object template="loop.tx"/></template>"#;
    let mut r = reader(vec![("loop.tx", template)]);
    let mut cache = ResourceCache::new();
    match Template::parse_template(&"loop.tx".to_string(), &mut r, &mut cache, MAX_RESOURCE_DEPTH)
    {
        Err(Error::RecursionLimit) => {}
        other => panic!("expected the recursion limit, got {:?}", other),
    }
}

#[test]
fn self_closing_layer_is_an_empty_tile_layer() {
    let map = r#"<map version="1.10" width="1" height="1" tilewidth="16" tileheight="16">
  <layer name="a" width="1" height="1"/>
  <objectgroup name="b"/>
</map>"#;
    let mut r = reader(vec![("m.tmx", map)]);
    let mut cache = ResourceCache::new();
    let m = parse_map(&"m.tmx".to_string(), &mut r, &mut cache).unwrap();
    assert_eq!(m.layers.len(), 2);
    match &m.layers[0] {
        LayerData::Tiles(t) => assert_eq!(t.tiles.len(), 0),
        other => panic!("expected a tile layer, got {:?}", other),
    }
    match &m.layers[1] {
        LayerData::Objects(o) => assert_eq!(o.object_data().len(), 0),
        other => panic!("expected an object layer, got {:?}", other),
    }
}

#[test]
fn empty_data_element_in_document_is_empty_layer() {
    let map = r#"<map version="1.10" width="2" height="2" tilewidth="16" tileheight="16">
  <layer name="empty" width="2" height="2">
    <data encoding="csv"></data>
  </layer>
</map>"#;
    let mut r = reader(vec![("m.tmx", map)]);
    let mut cache = ResourceCache::new();
    let m = parse_map(&"m.tmx".to_string(), &mut r, &mut cache).unwrap();
    match &m.layers[0] {
        LayerData::Tiles(t) => assert_eq!(t.tiles.len(), 0),
        other => panic!("expected a tile layer, got {:?}", other),
    }
}
