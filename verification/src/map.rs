//! The map document: the root element, its ordered tileset table, and its
//! layers. Declaration order is kept everywhere it is meaningful: tileset
//! table entries, layer order, and every cell sequence.

use crate::cache::{cache_extends, share_arc, ResourceCache, ResourceReader};
use crate::error::Error;
use crate::gid::MapTilesetGid;
use crate::image::ImageLayerData;
use crate::objects::ObjectLayerData;
use crate::properties::Properties;
use crate::tileset::{EmbeddedParseResultType, Tileset};
use crate::xml::{attr_value, Attr, Parser, XmlEvent};
use std::sync::Arc;
use vstd::prelude::*;

verus! {

broadcast use crate::cache::lemma_cache_extends_trans;

/// How many levels of external resources (tilesets referencing templates
/// referencing tilesets, and so on) one load follows before it gives up.
pub const MAX_RESOURCE_DEPTH: u32 = 64;

/// Whether a map element's attributes admit a map record: its version,
/// four metrics that parse, and a path with a parent directory to resolve
/// references against.
pub open spec fn map_attrs_ok(attrs: Seq<Attr>, map_path: Seq<char>) -> bool {
    &&& attr_value(attrs, "version"@) is Some
    &&& (attr_value(attrs, "width"@) matches Some(v) && crate::text::parse_u32_spec(
        vstd::utf8::encode_utf8(v),
    ) is Some)
    &&& (attr_value(attrs, "height"@) matches Some(v) && crate::text::parse_u32_spec(
        vstd::utf8::encode_utf8(v),
    ) is Some)
    &&& (attr_value(attrs, "tilewidth"@) matches Some(v) && crate::text::parse_u32_spec(
        vstd::utf8::encode_utf8(v),
    ) is Some)
    &&& (attr_value(attrs, "tileheight"@) matches Some(v) && crate::text::parse_u32_spec(
        vstd::utf8::encode_utf8(v),
    ) is Some)
    &&& crate::text::parent_spec(map_path) is Some
}

/// One tile layer's decoded content.
#[derive(Debug, PartialEq)]
pub struct TileLayerData {
    pub width: Option<u32>,
    pub height: Option<u32>,
    /// The decoded cells in row-major source order.
    pub tiles: Vec<Option<crate::gid::LayerTileData>>,
    pub properties: Properties,
}

/// One layer of a map, in declaration order.
#[derive(Debug, PartialEq)]
pub enum LayerData {
    Tiles(TileLayerData),
    Objects(ObjectLayerData),
    Image(ImageLayerData),
}

/// Where scanning a `<layer>` element ends: the position just past its
/// closing tag, or failure. Data children are followed through their one
/// payload; an unsupported pair or a truncated payload fails the scan.
pub enum TileLayerScan {
    Done { next: int },
    Failed,
}

/// Scans a tile layer's children from `pos`, as the parser routes them.
pub open spec fn tile_layer_scan(events: Seq<XmlEvent>, pos: int) -> TileLayerScan
    decreases events.len() - pos,
{
    if pos < 0 || pos >= events.len() {
        TileLayerScan::Failed
    } else {
        match events[pos] {
            XmlEvent::Start { name, attrs } | XmlEvent::Empty { name, attrs } => if name@
                == "data"@ {
                if crate::data::pair_supported(
                    attr_value(attrs@, "encoding"@),
                    attr_value(attrs@, "compression"@),
                ) {
                    match crate::data::scan_payload(events, pos + 1) {
                        crate::data::PayloadScan::Payload { text: _, next } => tile_layer_scan(
                            events,
                            crate::properties::clamp_pos(events, pos + 1, next),
                        ),
                        crate::data::PayloadScan::Closed { next } => tile_layer_scan(
                            events,
                            crate::properties::clamp_pos(events, pos + 1, next),
                        ),
                        crate::data::PayloadScan::Truncated => TileLayerScan::Failed,
                    }
                } else {
                    TileLayerScan::Failed
                }
            } else if name@ == "properties"@ {
                if events[pos] matches XmlEvent::Start { .. } {
                    match crate::properties::props_keys(events, pos + 1, Set::empty()) {
                        crate::properties::KeysScan::Done { keys: _, next } => tile_layer_scan(
                            events,
                            crate::properties::clamp_pos(events, pos + 1, next),
                        ),
                        crate::properties::KeysScan::Failed => TileLayerScan::Failed,
                    }
                } else {
                    tile_layer_scan(events, pos + 1)
                }
            } else {
                tile_layer_scan(events, pos + 1)
            },
            XmlEvent::End { name } => if name@ == "layer"@ {
                TileLayerScan::Done { next: pos + 1 }
            } else {
                tile_layer_scan(events, pos + 1)
            },
            XmlEvent::Eof => TileLayerScan::Failed,
            _ => tile_layer_scan(events, pos + 1),
        }
    }
}

/// The kind of one layer child, in declaration order.
pub enum LayerKindScan {
    Tiles,
    Objects,
    Image,
}

/// Where scanning a `<map>` element ends: its tileset declarations (each
/// its first id and, for an external reference, the resolved path), its
/// layer kinds in declaration order, and the position just past the
/// closing tag; failure; or unknown, when a tileset is embedded in place
/// through a non-self-closing tag (whose extent this scan does not
/// follow).
pub enum MapScan {
    Done { decls: Seq<(u32, Option<Seq<char>>)>, kinds: Seq<LayerKindScan>, next: int },
    Failed,
    Unknown,
}

/// Scans a map element's children from `pos`, as the parser routes them.
pub open spec fn map_scan(
    events: Seq<XmlEvent>,
    pos: int,
    map_path: Seq<char>,
    ds: Seq<(u32, Option<Seq<char>>)>,
    ks: Seq<LayerKindScan>,
) -> MapScan
    decreases events.len() - pos,
{
    if pos < 0 || pos >= events.len() {
        MapScan::Failed
    } else {
        match events[pos] {
            XmlEvent::Start { name, attrs } | XmlEvent::Empty { name, attrs } => if name@
                == "tileset"@ {
                if !(attr_value(attrs@, "firstgid"@) matches Some(fg)
                    && crate::text::parse_u32_spec(vstd::utf8::encode_utf8(fg)) is Some) {
                    MapScan::Failed
                } else {
                    let fg = crate::text::parse_u32_spec(
                        vstd::utf8::encode_utf8(attr_value(attrs@, "firstgid"@)->0),
                    )->0;
                    match attr_value(attrs@, "source"@) {
                        Some(src) => {
                            let p = crate::text::join_dir_spec(
                                crate::text::parent_spec(map_path)->0,
                                src,
                            );
                            if events[pos] matches XmlEvent::Start { .. } {
                                match crate::xml::close_scan(events, pos + 1, "tileset"@) {
                                    Some(nx) => map_scan(
                                        events,
                                        crate::properties::clamp_pos(events, pos + 1, nx),
                                        map_path,
                                        ds.push((fg, Some(p))),
                                        ks,
                                    ),
                                    None => MapScan::Failed,
                                }
                            } else {
                                map_scan(events, pos + 1, map_path, ds.push((fg, Some(p))), ks)
                            }
                        },
                        None => {
                            if events[pos] matches XmlEvent::Start { .. } {
                                MapScan::Unknown
                            } else {
                                map_scan(events, pos + 1, map_path, ds.push((fg, None)), ks)
                            }
                        },
                    }
                }
            } else if name@ == "layer"@ {
                if !(events[pos] matches XmlEvent::Start { .. }) {
                    map_scan(events, pos + 1, map_path, ds, ks.push(LayerKindScan::Tiles))
                } else {
                    match tile_layer_scan(events, pos + 1) {
                        TileLayerScan::Done { next } => map_scan(
                            events,
                            crate::properties::clamp_pos(events, pos + 1, next),
                            map_path,
                            ds,
                            ks.push(LayerKindScan::Tiles),
                        ),
                        TileLayerScan::Failed => MapScan::Failed,
                    }
                }
            } else if name@ == "objectgroup"@ {
                if !(events[pos] matches XmlEvent::Start { .. }) {
                    map_scan(events, pos + 1, map_path, ds, ks.push(LayerKindScan::Objects))
                } else {
                    match crate::objects::objectgroup_scan(
                        events,
                        pos + 1,
                        Seq::empty(),
                        Set::empty(),
                    ) {
                        crate::objects::ObjectGroupScan::Done {
                            objs: _,
                            prop_keys: _,
                            next,
                        } => map_scan(
                            events,
                            crate::properties::clamp_pos(events, pos + 1, next),
                            map_path,
                            ds,
                            ks.push(LayerKindScan::Objects),
                        ),
                        crate::objects::ObjectGroupScan::Failed => MapScan::Failed,
                    }
                }
            } else if name@ == "imagelayer"@ {
                if !(events[pos] matches XmlEvent::Start { .. }) {
                    map_scan(events, pos + 1, map_path, ds, ks.push(LayerKindScan::Image))
                } else {
                    match crate::image::imagelayer_scan(events, pos + 1, None, Set::empty()) {
                        crate::image::ImageLayerScan::Done {
                            image_attrs: _,
                            prop_keys: _,
                            next,
                        } => map_scan(
                            events,
                            crate::properties::clamp_pos(events, pos + 1, next),
                            map_path,
                            ds,
                            ks.push(LayerKindScan::Image),
                        ),
                        crate::image::ImageLayerScan::Failed => MapScan::Failed,
                    }
                }
            } else if name@ == "properties"@ {
                if events[pos] matches XmlEvent::Start { .. } {
                    match crate::properties::props_keys(events, pos + 1, Set::empty()) {
                        crate::properties::KeysScan::Done { keys: _, next } => map_scan(
                            events,
                            crate::properties::clamp_pos(events, pos + 1, next),
                            map_path,
                            ds,
                            ks,
                        ),
                        crate::properties::KeysScan::Failed => MapScan::Failed,
                    }
                } else {
                    map_scan(events, pos + 1, map_path, ds, ks)
                }
            } else {
                map_scan(events, pos + 1, map_path, ds, ks)
            },
            XmlEvent::End { name } => if name@ == "map"@ {
                MapScan::Done { decls: ds, kinds: ks, next: pos + 1 }
            } else {
                map_scan(events, pos + 1, map_path, ds, ks)
            },
            XmlEvent::Eof => MapScan::Failed,
            _ => map_scan(events, pos + 1, map_path, ds, ks),
        }
    }
}

/// Whether a tileset table and a layer list are the ones the scanned
/// declarations denote: first ids in declaration order, external entries
/// holding the cache's handle for their path, and layer kinds in
/// declaration order.
pub open spec fn map_content_matches(
    tilesets: Seq<MapTilesetGid>,
    layers: Seq<LayerData>,
    cache: ResourceCache,
    decls: Seq<(u32, Option<Seq<char>>)>,
    kinds: Seq<LayerKindScan>,
) -> bool {
    &&& tilesets.len() == decls.len()
    &&& (forall|i: int|
        0 <= i < decls.len() ==> (#[trigger] tilesets[i]).first_gid.0 == decls[i].0 && (
        match decls[i].1 {
            Some(p) => cache.tilesets_view().contains_key(p) && *tilesets[i].tileset
                == cache.tilesets_view()[p],
            None => true,
        }))
    &&& layers.len() == kinds.len()
    &&& (forall|i: int|
        0 <= i < kinds.len() ==> (match kinds[i] {
            LayerKindScan::Tiles => (#[trigger] layers[i]) is Tiles,
            LayerKindScan::Objects => layers[i] is Objects,
            LayerKindScan::Image => layers[i] is Image,
        }))
}

/// A parsed map document.
#[derive(Debug, PartialEq)]
pub struct TiledMap {
    pub version: String,
    pub width: u32,
    pub height: u32,
    pub tile_width: u32,
    pub tile_height: u32,
    /// The tileset table, in declaration order; resolution picks the last
    /// entry whose `first_gid` does not exceed a masked cell value.
    pub tilesets: Vec<MapTilesetGid>,
    /// The layers, in declaration order.
    pub layers: Vec<LayerData>,
    pub properties: Properties,
}

impl TiledMap {
    /// Parses the children of a `<map>` element: tileset declarations
    /// (embedded or external, shared through the cache) in order, then
    /// layers, whose cell data resolves against the table built so far.
    pub fn parse_xml<R: ResourceReader>(
        parser: &mut Parser,
        attrs: &Vec<Attr>,
        map_path: &String,
        reader: &mut R,
        cache: &mut ResourceCache,
        depth: u32,
    ) -> (r: Result<TiledMap, Error>)
        requires
            old(parser).wf(),
            old(cache).wf(),
        ensures
            final(parser).wf(),
            final(parser).events == old(parser).events,
            old(parser).pos <= final(parser).pos,
        old(parser).last_event_was_empty ==> (final(parser).pos == old(parser).pos && (r is Ok
            <==> map_attrs_ok(attrs@, map_path@)) && (r matches Ok(m) ==> m.tilesets@.len() == 0
            && m.layers@.len() == 0 && m.properties.entries@.len() == 0)),
        (!old(parser).last_event_was_empty && r matches Ok(_)) ==> (final(parser).pos
            > old(parser).pos && (old(parser).token_at(final(parser).pos - 1)
            matches XmlEvent::End { name: nm } && nm@ == "map"@)),
            final(cache).wf(),
            cache_extends(*final(cache), *old(cache)),
            r matches Ok(m) ==> m.properties.keys_unique(),
            (!old(parser).last_event_was_empty && crate::text::parent_spec(map_path@) is Some)
                ==> match map_scan(
                old(parser).events@,
                old(parser).pos as int,
                map_path@,
                Seq::empty(),
                Seq::empty(),
            ) {
                MapScan::Done { decls, kinds, next } => (r matches Ok(m) ==> (final(parser).pos
                    == next && map_content_matches(
                    m.tilesets@,
                    m.layers@,
                    *final(cache),
                    decls,
                    kinds,
                ))),
                MapScan::Failed => r is Err,
                MapScan::Unknown => true,
            },
            r matches Ok(m) ==> ({
                &&& attr_value(attrs@, "version"@) matches Some(v) && m.version@ == v
                &&& attr_value(attrs@, "width"@) matches Some(v) && crate::text::parse_u32_spec(
                    vstd::utf8::encode_utf8(v),
                ) == Some(m.width)
                &&& attr_value(attrs@, "height"@) matches Some(v) && crate::text::parse_u32_spec(
                    vstd::utf8::encode_utf8(v),
                ) == Some(m.height)
                &&& attr_value(attrs@, "tilewidth"@) matches Some(v)
                    && crate::text::parse_u32_spec(vstd::utf8::encode_utf8(v)) == Some(
                    m.tile_width,
                )
                &&& attr_value(attrs@, "tileheight"@) matches Some(v)
                    && crate::text::parse_u32_spec(vstd::utf8::encode_utf8(v)) == Some(
                    m.tile_height,
                )
            }),
        decreases depth, 8int,
    {
        let version = match crate::xml::req_attr_string(attrs, "version") {
            Ok(v) => v,
            Err(e) => {
                return Err(e);
            },
        };
        let width = match crate::xml::req_attr_u32(attrs, "width") {
            Ok(v) => v,
            Err(e) => {
                return Err(e);
            },
        };
        let height = match crate::xml::req_attr_u32(attrs, "height") {
            Ok(v) => v,
            Err(e) => {
                return Err(e);
            },
        };
        let tile_width = match crate::xml::req_attr_u32(attrs, "tilewidth") {
            Ok(v) => v,
            Err(e) => {
                return Err(e);
            },
        };
        let tile_height = match crate::xml::req_attr_u32(attrs, "tileheight") {
            Ok(v) => v,
            Err(e) => {
                return Err(e);
            },
        };
        let base_dir = match crate::text::parent_dir(map_path) {
            Ok(d) => d,
            Err(e) => {
                return Err(e);
            },
        };
        let mut tilesets: Vec<MapTilesetGid> = Vec::new();
        let mut layers: Vec<LayerData> = Vec::new();
        let mut properties = Properties::new();
        let ghost mut g_decls: Seq<(u32, Option<Seq<char>>)> = Seq::empty();
        let ghost mut g_kinds: Seq<LayerKindScan> = Seq::empty();
        if !parser.last_event_was_empty {
            loop
                invariant_except_break
                    map_scan(
                        parser.events@,
                        old(parser).pos as int,
                        map_path@,
                        Seq::empty(),
                        Seq::empty(),
                    ) == map_scan(parser.events@, parser.pos as int, map_path@, g_decls, g_kinds)
                        || map_scan(
                        parser.events@,
                        old(parser).pos as int,
                        map_path@,
                        Seq::empty(),
                        Seq::empty(),
                    ) == MapScan::Unknown,
                invariant
                    !old(parser).last_event_was_empty,
                    parser.wf(),
                    parser.events == old(parser).events,
                    old(parser).pos <= parser.pos,
                    cache.wf(),
                    cache_extends(*cache, *old(cache)),
                    properties.keys_unique(),
                    crate::text::parent_spec(map_path@) is Some,
                    base_dir@ == crate::text::parent_spec(map_path@)->0,
                    map_content_matches(tilesets@, layers@, *cache, g_decls, g_kinds),
                ensures
                    old(parser).pos < parser.pos,
                    (old(parser).token_at(parser.pos - 1) matches XmlEvent::End { name: nm }
                        && nm@ == "map"@),
                    map_scan(
                        parser.events@,
                        old(parser).pos as int,
                        map_path@,
                        Seq::empty(),
                        Seq::empty(),
                    ) == (MapScan::Done {
                        decls: g_decls,
                        kinds: g_kinds,
                        next: parser.pos as int,
                    }) || map_scan(
                        parser.events@,
                        old(parser).pos as int,
                        map_path@,
                        Seq::empty(),
                        Seq::empty(),
                    ) == MapScan::Unknown,
                    map_content_matches(tilesets@, layers@, *cache, g_decls, g_kinds),
                    properties.keys_unique(),
                    cache.wf(),
                    cache_extends(*cache, *old(cache)),
                decreases parser.remaining(),
            {
                let ghost q: int = parser.pos as int;
                let ghost c_head: ResourceCache = *cache;
                let ghost decls_head = g_decls;
                let ghost kinds_head = g_kinds;
                let ev = parser.read_event();
                match ev {
                    XmlEvent::Start { name: n, attrs: a } | XmlEvent::Empty { name: n, attrs: a } => {
                        if crate::xml::string_eq_str(&n, "tileset") {
                            let res = match Tileset::parse_xml_in_map(
                                parser,
                                &a,
                                map_path,
                                reader,
                                cache,
                                depth,
                            ) {
                                Ok(res) => res,
                                Err(e) => {
                                    return Err(e);
                                },
                            };
                            let ghost entry_path: Option<Seq<char>> = match &res.result_type {
                                EmbeddedParseResultType::ExternalReference { tileset_path } => Some(
                                    tileset_path@,
                                ),
                                EmbeddedParseResultType::Embedded { .. } => None,
                            };
                            let ts: Arc<Tileset> = match res.result_type {
                                EmbeddedParseResultType::ExternalReference { tileset_path } => {
                                    match crate::tileset::load_tileset(
                                        &tileset_path,
                                        reader,
                                        cache,
                                        depth,
                                    ) {
                                        Ok(t) => t,
                                        Err(e) => {
                                            return Err(e);
                                        },
                                    }
                                },
                                EmbeddedParseResultType::Embedded { tileset: embedded } => {
                                    Arc::new(embedded)
                                },
                            };
                            tilesets.push(
                                MapTilesetGid { first_gid: res.first_gid, tileset: ts },
                            );
                            proof {
                                g_decls = g_decls.push((res.first_gid.0, entry_path));
                                assert(cache_extends(*cache, c_head));
                                assert forall|i: int|
                                    0 <= i < g_decls.len() implies (#[trigger] tilesets@[
                                    i]).first_gid.0 == g_decls[i].0 && (match g_decls[i].1 {
                                    Some(p) => cache.tilesets_view().contains_key(p)
                                        && *tilesets@[i].tileset == cache.tilesets_view()[p],
                                    None => true,
                                }) by {
                                    if i < g_decls.len() - 1 {
                                        assert(g_decls[i] == decls_head[i]);
                                        match decls_head[i].1 {
                                            Some(p) => {
                                                assert(c_head.tilesets_view().contains_key(p));
                                            },
                                            None => {},
                                        }
                                    }
                                }
                            }
                        } else if crate::xml::string_eq_str(&n, "layer") {
                            match TiledMap::parse_tile_layer(parser, &a, &tilesets) {
                                Ok(layer) => {
                                    layers.push(LayerData::Tiles(layer));
                                    proof {
                                        g_kinds = g_kinds.push(LayerKindScan::Tiles);
                                    }
                                },
                                Err(e) => {
                                    return Err(e);
                                },
                            }
                        } else if crate::xml::string_eq_str(&n, "objectgroup") {
                            match ObjectLayerData::new(
                                parser,
                                a,
                                Some(tilesets.as_slice()),
                                &base_dir,
                                reader,
                                cache,
                                depth,
                            ) {
                                Ok((layer, _)) => {
                                    layers.push(LayerData::Objects(layer));
                                    proof {
                                        g_kinds = g_kinds.push(LayerKindScan::Objects);
                                        assert(cache_extends(*cache, c_head));
                                        assert forall|i: int|
                                            0 <= i < g_decls.len() implies (#[trigger] tilesets@[
                                        i]).first_gid.0 == g_decls[i].0 && (match g_decls[i].1 {
                                            Some(p) => cache.tilesets_view().contains_key(p)
                                                && *tilesets@[i].tileset
                                                == cache.tilesets_view()[p],
                                            None => true,
                                        }) by {
                                            match g_decls[i].1 {
                                                Some(p) => {
                                                    assert(c_head.tilesets_view().contains_key(
                                                        p,
                                                    ));
                                                },
                                                None => {},
                                            }
                                        }
                                    }
                                },
                                Err(e) => {
                                    return Err(e);
                                },
                            }
                        } else if crate::xml::string_eq_str(&n, "imagelayer") {
                            match ImageLayerData::new(parser, map_path) {
                                Ok((layer, _)) => {
                                    layers.push(LayerData::Image(layer));
                                    proof {
                                        g_kinds = g_kinds.push(LayerKindScan::Image);
                                    }
                                },
                                Err(e) => {
                                    return Err(e);
                                },
                            }
                        } else if crate::xml::string_eq_str(&n, "properties") {
                            match crate::properties::parse_properties(parser) {
                                Ok(p) => {
                                    properties = p;
                                },
                                Err(e) => {
                                    return Err(e);
                                },
                            }
                        }
                    },
                    XmlEvent::End { name: n } => {
                        if crate::xml::string_eq_str(&n, "map") {
                            break ;
                        }
                    },
                    XmlEvent::Eof => {
                        return Err(
                            Error::PrematureEnd(String::from_str("map element never closed")),
                        );
                    },
                    _ => {},
                }
            }
        }
        Ok(
            TiledMap {
                version,
                width,
                height,
                tile_width,
                tile_height,
                tilesets,
                layers,
                properties,
            },
        )
    }

    /// Reads one `<layer>` element: its `<data>` child is decoded against
    /// the tileset table built so far; its properties are kept.
    fn parse_tile_layer(parser: &mut Parser, attrs: &Vec<Attr>, tilesets: &Vec<MapTilesetGid>) -> (r:
        Result<TileLayerData, Error>)
        requires
            old(parser).wf(),
        ensures
            final(parser).wf(),
            final(parser).events == old(parser).events,
            old(parser).pos <= final(parser).pos,
        old(parser).last_event_was_empty ==> (final(parser).pos == old(parser).pos && (r is Ok
            <==> ((match attr_value(attrs@, "width"@) {
            Some(v) => crate::text::parse_u32_spec(vstd::utf8::encode_utf8(v)) is Some,
            None => true,
        }) && (match attr_value(attrs@, "height"@) {
            Some(v) => crate::text::parse_u32_spec(vstd::utf8::encode_utf8(v)) is Some,
            None => true,
        }))) && (r matches Ok(l) ==> l.tiles@.len() == 0 && l.properties.entries@.len() == 0)),
        (!old(parser).last_event_was_empty && r matches Ok(_)) ==> (final(parser).pos
            > old(parser).pos && (old(parser).token_at(final(parser).pos - 1)
            matches XmlEvent::End { name: nm } && nm@ == "layer"@)),
            r matches Ok(l) ==> l.properties.keys_unique(),
            r matches Ok(l) ==> ({
                &&& (match attr_value(attrs@, "width"@) {
                    Some(v) => crate::text::parse_u32_spec(vstd::utf8::encode_utf8(v))
                        matches Some(n) && l.width == Some(n),
                    None => l.width is None,
                })
                &&& (match attr_value(attrs@, "height"@) {
                    Some(v) => crate::text::parse_u32_spec(vstd::utf8::encode_utf8(v))
                        matches Some(n) && l.height == Some(n),
                    None => l.height is None,
                })
            }),
            !old(parser).last_event_was_empty ==> match tile_layer_scan(
                old(parser).events@,
                old(parser).pos as int,
            ) {
                TileLayerScan::Done { next } => (r matches Ok(_) ==> final(parser).pos == next),
                TileLayerScan::Failed => r is Err,
            },
    {
        let width = match crate::xml::opt_attr_u32(attrs, "width") {
            Ok(v) => v,
            Err(e) => {
                return Err(e);
            },
        };
        let height = match crate::xml::opt_attr_u32(attrs, "height") {
            Ok(v) => v,
            Err(e) => {
                return Err(e);
            },
        };
        let mut tiles: Vec<Option<crate::gid::LayerTileData>> = Vec::new();
        let mut properties = Properties::new();
        if !parser.last_event_was_empty {
            loop
                invariant_except_break
                    tile_layer_scan(parser.events@, old(parser).pos as int) == tile_layer_scan(
                        parser.events@,
                        parser.pos as int,
                    ),
                invariant
                    !old(parser).last_event_was_empty,
                    parser.wf(),
                    parser.events == old(parser).events,
                    old(parser).pos <= parser.pos,
                    properties.keys_unique(),
                ensures
                    old(parser).pos < parser.pos,
                    (old(parser).token_at(parser.pos - 1) matches XmlEvent::End { name: nm }
                        && nm@ == "layer"@),
                    tile_layer_scan(parser.events@, old(parser).pos as int) == (
                    TileLayerScan::Done { next: parser.pos as int }),
                    properties.keys_unique(),
                decreases parser.remaining(),
            {
                let ev = parser.read_event();
                match ev {
                    XmlEvent::Start { name: n, attrs: a } | XmlEvent::Empty { name: n, attrs: a } => {
                        if crate::xml::string_eq_str(&n, "data") {
                            let encoding = crate::xml::opt_attr_string(&a, "encoding");
                            let compression = crate::xml::opt_attr_string(&a, "compression");
                            match crate::data::parse_data_line(
                                encoding.as_ref(),
                                compression.as_ref(),
                                parser,
                                tilesets.as_slice(),
                            ) {
                                Ok(cells) => {
                                    tiles = cells;
                                },
                                Err(e) => {
                                    return Err(e);
                                },
                            }
                        } else if crate::xml::string_eq_str(&n, "properties") {
                            match crate::properties::parse_properties(parser) {
                                Ok(p) => {
                                    properties = p;
                                },
                                Err(e) => {
                                    return Err(e);
                                },
                            }
                        }
                    },
                    XmlEvent::End { name: n } => {
                        if crate::xml::string_eq_str(&n, "layer") {
                            break ;
                        }
                    },
                    XmlEvent::Eof => {
                        return Err(
                            Error::PrematureEnd(String::from_str("layer element never closed")),
                        );
                    },
                    _ => {},
                }
            }
        }
        Ok(TileLayerData { width, height, tiles, properties })
    }
}

/// Loads a map document: obtains its bytes through the reader, tokenizes
/// them, finds the root `<map>` element, and parses it. External resources
/// referenced along the way load through the caller-supplied cache, so
/// resources shared between documents are parsed once per cache lifetime.
/// A resource-loading failure names the path of the resource whose read
/// failed; for a nested external reference that is the referenced
/// document's resolved path, not this one's, so no contract ties the error
/// to this call's argument.
pub fn parse_map<R: ResourceReader>(
    path: &String,
    reader: &mut R,
    cache: &mut ResourceCache,
) -> (r: Result<TiledMap, Error>)
    requires
        old(cache).wf(),
    ensures
        final(cache).wf(),
        cache_extends(*final(cache), *old(cache)),
        r matches Ok(m) ==> m.properties.keys_unique(),
{
    let bytes = match reader.read_from(path) {
        Ok(b) => b,
        Err(cause) => {
            return Err(Error::ResourceLoading { path: path.clone(), cause });
        },
    };
    let events = match crate::xml::tokenize(bytes.as_slice()) {
        Ok(e) => e,
        Err(e) => {
            return Err(e);
        },
    };
    let mut parser = Parser::with_reader(events);
    loop
        invariant
            parser.wf(),
            cache.wf(),
            cache_extends(*cache, *old(cache)),
        decreases parser.remaining(),
    {
        let ev = parser.read_event();
        match ev {
            XmlEvent::Start { name, attrs } => {
                if crate::xml::string_eq_str(&name, "map") {
                    return TiledMap::parse_xml(
                        &mut parser,
                        &attrs,
                        path,
                        reader,
                        cache,
                        MAX_RESOURCE_DEPTH,
                    );
                }
            },
            XmlEvent::Eof => {
                return Err(
                    Error::PrematureEnd(
                        String::from_str("document ended before a map element was found"),
                    ),
                );
            },
            _ => {},
        }
    }
}

} // verus!
