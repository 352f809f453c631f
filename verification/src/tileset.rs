//! Tilesets: a named collection of tile definitions, parsed embedded in a
//! map or as an external document shared through the cache.

use crate::animation::Frame;
use crate::cache::{cache_extends, share_arc, ResourceCache, ResourceReader};
use crate::error::Error;
use crate::gid::Gid;
use crate::image::Image;
use crate::objects::ObjectLayerData;
use crate::properties::Properties;
use crate::wangset::WangSet;
use crate::xml::{attr_value, Attr, Parser, XmlEvent};
use std::sync::Arc;
use vstd::prelude::*;

verus! {

broadcast use crate::cache::lemma_cache_extends_trans;

/// Per-tile data: its animation, collision shapes and properties.
#[derive(Debug, PartialEq)]
pub struct TileData {
    /// The frames of this tile's animation, in declaration order, if it
    /// has one.
    pub animation: Option<Vec<Frame>>,
    /// This tile's collision shapes, if it declares any.
    pub collision: Option<ObjectLayerData>,
    pub properties: Properties,
}

/// A named collection of tile definitions, loadable embedded in a map or as
/// an external shared resource; immutable once built.
#[derive(Debug, PartialEq)]
pub struct Tileset {
    pub name: String,
    pub tile_width: u32,
    pub tile_height: u32,
    pub spacing: u32,
    pub margin: u32,
    pub tilecount: Option<u32>,
    pub columns: Option<u32>,
    /// The tileset's image, for single-image tilesets.
    pub image: Option<Image>,
    /// Per-tile data keyed by local id, each id held once, in
    /// first-declaration order.
    pub tiles: Vec<(u32, TileData)>,
    /// The Wang sets of this tileset, in declaration order.
    pub wang_sets: Vec<WangSet>,
    pub properties: Properties,
}

/// How a `<tileset>` declaration inside a map or template turned out:
/// either a reference to an external document, or a tileset embedded in
/// place.
#[derive(Debug, PartialEq)]
pub enum EmbeddedParseResultType {
    ExternalReference { tileset_path: String },
    Embedded { tileset: Tileset },
}

/// The first global id a tileset declaration occupies, with what the
/// declaration held.
#[derive(Debug, PartialEq)]
pub struct EmbeddedParseResult {
    pub first_gid: Gid,
    pub result_type: EmbeddedParseResultType,
}

/// Whether a tileset element's attributes admit a tileset record: its
/// name, two required metrics, and every optional metric parsing when
/// present.
pub open spec fn tileset_attrs_ok(attrs: Seq<Attr>) -> bool {
    &&& attr_value(attrs, "name"@) is Some
    &&& (attr_value(attrs, "tilewidth"@) matches Some(v) && crate::text::parse_u32_spec(
        vstd::utf8::encode_utf8(v),
    ) is Some)
    &&& (attr_value(attrs, "tileheight"@) matches Some(v) && crate::text::parse_u32_spec(
        vstd::utf8::encode_utf8(v),
    ) is Some)
    &&& (match attr_value(attrs, "spacing"@) {
        Some(v) => crate::text::parse_u32_spec(vstd::utf8::encode_utf8(v)) is Some,
        None => true,
    })
    &&& (match attr_value(attrs, "margin"@) {
        Some(v) => crate::text::parse_u32_spec(vstd::utf8::encode_utf8(v)) is Some,
        None => true,
    })
    &&& (match attr_value(attrs, "tilecount"@) {
        Some(v) => crate::text::parse_u32_spec(vstd::utf8::encode_utf8(v)) is Some,
        None => true,
    })
    &&& (match attr_value(attrs, "columns"@) {
        Some(v) => crate::text::parse_u32_spec(vstd::utf8::encode_utf8(v)) is Some,
        None => true,
    })
}

/// Replaces the entry under a local tile id, or appends a new one, keeping
/// each id at most once.
fn upsert_tile(tiles: &mut Vec<(u32, TileData)>, id: u32, t: TileData)
    requires
        forall|a: int, b: int|
            0 <= a < b < old(tiles)@.len() ==> #[trigger] old(tiles)@[a].0 != #[trigger] old(
                tiles,
            )@[b].0,
    ensures
        forall|a: int, b: int|
            0 <= a < b < final(tiles)@.len() ==> #[trigger] final(tiles)@[a].0
                != #[trigger] final(tiles)@[b].0,
{
    let mut i: usize = 0;
    while i < tiles.len()
        invariant
            i <= tiles@.len(),
            *tiles == *old(tiles),
            forall|a: int, b: int|
                0 <= a < b < old(tiles)@.len() ==> #[trigger] old(tiles)@[a].0 != #[trigger] old(
                    tiles,
                )@[b].0,
            forall|k: int| 0 <= k < i ==> #[trigger] tiles@[k].0 != id,
        decreases tiles@.len() - i,
    {
        if tiles[i].0 == id {
            tiles.set(i, (id, t));
            proof {
                assert forall|a: int, b: int|
                    0 <= a < b < tiles@.len() implies #[trigger] tiles@[a].0
                    != #[trigger] tiles@[b].0 by {
                    assert(old(tiles)@[a].0 != old(tiles)@[b].0);
                }
            }
            return ;
        }
        i = i + 1;
    }
    tiles.push((id, t));
    proof {
        assert forall|a: int, b: int|
            0 <= a < b < tiles@.len() implies #[trigger] tiles@[a].0 != #[trigger] tiles@[b].0 by {
            if b < tiles@.len() - 1 {
                assert(old(tiles)@[a].0 != old(tiles)@[b].0);
            }
        }
    }
}

impl Tileset {
    /// Each local tile id is held at most once.
    pub open spec fn tiles_unique(self) -> bool {
        forall|a: int, b: int|
            0 <= a < b < self.tiles@.len() ==> #[trigger] self.tiles@[a].0
                != #[trigger] self.tiles@[b].0
    }

    /// Reads a `<tileset>` declaration inside a map or template: its
    /// required `firstgid`, and either its external `source` reference
    /// (resolved against the declaring document's path) or the embedded
    /// tileset itself.
    pub fn parse_xml_in_map<R: ResourceReader>(
        parser: &mut Parser,
        attrs: &Vec<Attr>,
        map_path: &String,
        reader: &mut R,
        cache: &mut ResourceCache,
        depth: u32,
    ) -> (r: Result<EmbeddedParseResult, Error>)
        requires
            old(parser).wf(),
            old(cache).wf(),
        ensures
            final(parser).wf(),
            final(parser).events == old(parser).events,
            old(parser).pos <= final(parser).pos,
            final(cache).wf(),
            cache_extends(*final(cache), *old(cache)),
            attr_value(attrs@, "firstgid"@) is None ==> (r matches Err(e) && e
                matches Error::MalformedAttributes(_)),
            r matches Ok(res) ==> (attr_value(attrs@, "firstgid"@) matches Some(fg)
                && crate::text::parse_u32_spec(vstd::utf8::encode_utf8(fg)) == Some(
                res.first_gid.0,
            )),
            r matches Ok(res) ==> (match attr_value(attrs@, "source"@) {
                Some(src) => res.result_type matches EmbeddedParseResultType::ExternalReference {
                    tileset_path,
                } && (crate::text::parent_spec(map_path@) matches Some(d) && tileset_path@
                    == crate::text::join_dir_spec(d, src)),
                None => res.result_type is Embedded,
            }),
            old(parser).last_event_was_empty ==> final(parser).pos == old(parser).pos,
            (!old(parser).last_event_was_empty && attr_value(attrs@, "source"@) is Some && r
                is Ok) ==> (crate::xml::close_scan(
                old(parser).events@,
                old(parser).pos as int,
                "tileset"@,
            ) matches Some(nx) && final(parser).pos == nx),
        decreases depth, 6int,
    {
        let first_gid = match crate::xml::req_attr_u32(attrs, "firstgid") {
            Ok(v) => Gid(v),
            Err(e) => {
                return Err(e);
            },
        };
        match crate::xml::opt_attr_string(attrs, "source") {
            Some(source) => {
                // external reference: resolve it against the declaring
                // document and skip whatever else the element holds
                let dir = match crate::text::parent_dir(map_path) {
                    Ok(d) => d,
                    Err(e) => {
                        return Err(e);
                    },
                };
                let tileset_path = crate::text::join_dir(&dir, &source);
                if !parser.last_event_was_empty {
                    match crate::xml::skip_element(parser, "tileset") {
                        Ok(()) => {},
                        Err(e) => {
                            return Err(e);
                        },
                    }
                }
                Ok(
                    EmbeddedParseResult {
                        first_gid,
                        result_type: EmbeddedParseResultType::ExternalReference { tileset_path },
                    },
                )
            },
            None => {
                let dir = match crate::text::parent_dir(map_path) {
                    Ok(d) => d,
                    Err(e) => {
                        return Err(e);
                    },
                };
                match Tileset::parse_tileset_body(parser, attrs, &dir, reader, cache, depth) {
                    Ok(tileset) => Ok(
                        EmbeddedParseResult {
                            first_gid,
                            result_type: EmbeddedParseResultType::Embedded { tileset },
                        },
                    ),
                    Err(e) => Err(e),
                }
            },
        }
    }

    /// Parses a tileset element's attributes and children: its image, its
    /// per-tile records (animation, collision, properties), its Wang sets
    /// and its properties, all in declaration order.
    pub fn parse_tileset_body<R: ResourceReader>(
        parser: &mut Parser,
        attrs: &Vec<Attr>,
        base_dir: &String,
        reader: &mut R,
        cache: &mut ResourceCache,
        depth: u32,
    ) -> (r: Result<Tileset, Error>)
        requires
            old(parser).wf(),
            old(cache).wf(),
        ensures
            final(parser).wf(),
            final(parser).events == old(parser).events,
            old(parser).pos <= final(parser).pos,
        old(parser).last_event_was_empty ==> (final(parser).pos == old(parser).pos && (r is Ok
            <==> tileset_attrs_ok(attrs@)) && (r matches Ok(ts) ==> ts.image is None
            && ts.tiles@.len() == 0 && ts.wang_sets@.len() == 0 && ts.properties.entries@.len()
            == 0)),
        (!old(parser).last_event_was_empty && r matches Ok(_)) ==> (final(parser).pos
            > old(parser).pos && (old(parser).token_at(final(parser).pos - 1)
            matches XmlEvent::End { name: nm } && nm@ == "tileset"@)),
            final(cache).wf(),
            cache_extends(*final(cache), *old(cache)),
            r matches Ok(ts) ==> ts.properties.keys_unique() && ts.tiles_unique(),
            attr_value(attrs@, "name"@) is None ==> (r matches Err(e) && e
                matches Error::MalformedAttributes(_)),
            r matches Ok(ts) ==> ({
                &&& attr_value(attrs@, "name"@) matches Some(n) && ts.name@ == n
                &&& attr_value(attrs@, "tilewidth"@) matches Some(v)
                    && crate::text::parse_u32_spec(vstd::utf8::encode_utf8(v)) == Some(
                    ts.tile_width,
                )
                &&& attr_value(attrs@, "tileheight"@) matches Some(v)
                    && crate::text::parse_u32_spec(vstd::utf8::encode_utf8(v)) == Some(
                    ts.tile_height,
                )
                &&& (match attr_value(attrs@, "spacing"@) {
                    Some(v) => crate::text::parse_u32_spec(vstd::utf8::encode_utf8(v)) == Some(
                        ts.spacing,
                    ),
                    None => ts.spacing == 0,
                })
                &&& (match attr_value(attrs@, "margin"@) {
                    Some(v) => crate::text::parse_u32_spec(vstd::utf8::encode_utf8(v)) == Some(
                        ts.margin,
                    ),
                    None => ts.margin == 0,
                })
                &&& (match attr_value(attrs@, "tilecount"@) {
                    Some(v) => crate::text::parse_u32_spec(vstd::utf8::encode_utf8(v)) matches Some(
                        c,
                    ) && ts.tilecount == Some(c),
                    None => ts.tilecount is None,
                })
                &&& (match attr_value(attrs@, "columns"@) {
                    Some(v) => crate::text::parse_u32_spec(vstd::utf8::encode_utf8(v)) matches Some(
                        c,
                    ) && ts.columns == Some(c),
                    None => ts.columns is None,
                })
            }),
        decreases depth, 5int,
    {
        let name = match crate::xml::req_attr_string(attrs, "name") {
            Ok(v) => v,
            Err(e) => {
                return Err(e);
            },
        };
        let tile_width = match crate::xml::req_attr_u32(attrs, "tilewidth") {
            Ok(v) => v,
            Err(e) => {
                return Err(e);
            },
        };
        let tile_height = match crate::xml::req_attr_u32(attrs, "tileheight") {
            Ok(v) => v,
            Err(e) => {
                return Err(e);
            },
        };
        let spacing = match crate::xml::opt_attr_u32(attrs, "spacing") {
            Ok(Some(v)) => v,
            Ok(None) => 0,
            Err(e) => {
                return Err(e);
            },
        };
        let margin = match crate::xml::opt_attr_u32(attrs, "margin") {
            Ok(Some(v)) => v,
            Ok(None) => 0,
            Err(e) => {
                return Err(e);
            },
        };
        let tilecount = match crate::xml::opt_attr_u32(attrs, "tilecount") {
            Ok(v) => v,
            Err(e) => {
                return Err(e);
            },
        };
        let columns = match crate::xml::opt_attr_u32(attrs, "columns") {
            Ok(v) => v,
            Err(e) => {
                return Err(e);
            },
        };
        let mut image: Option<Image> = None;
        let mut tiles: Vec<(u32, TileData)> = Vec::new();
        let mut wang_sets: Vec<WangSet> = Vec::new();
        let mut properties = Properties::new();
        if !parser.last_event_was_empty {
            loop
                invariant
                    !old(parser).last_event_was_empty,
                    parser.wf(),
                    parser.events == old(parser).events,
                    old(parser).pos <= parser.pos,
                    cache.wf(),
                    cache_extends(*cache, *old(cache)),
                    properties.keys_unique(),
                    attr_value(attrs@, "name"@) is Some,
                    forall|a: int, b: int|
                        0 <= a < b < tiles@.len() ==> #[trigger] tiles@[a].0
                            != #[trigger] tiles@[b].0,
                ensures
                    old(parser).pos < parser.pos,
                    (old(parser).token_at(parser.pos - 1) matches XmlEvent::End { name: nm }
                        && nm@ == "tileset"@),
                decreases parser.remaining(),
            {
                let ev = parser.read_event();
                match ev {
                    XmlEvent::Start { name: n, attrs: a } | XmlEvent::Empty { name: n, attrs: a } => {
                        if crate::xml::string_eq_str(&n, "image") {
                            match Image::new(parser, a, base_dir) {
                                Ok(img) => {
                                    image = Some(img);
                                },
                                Err(e) => {
                                    return Err(e);
                                },
                            }
                        } else if crate::xml::string_eq_str(&n, "tile") {
                            match Tileset::parse_tile(parser, &a, base_dir, reader, cache, depth) {
                                Ok((id, td)) => {
                                    upsert_tile(&mut tiles, id, td);
                                },
                                Err(e) => {
                                    return Err(e);
                                },
                            }
                        } else if crate::xml::string_eq_str(&n, "wangsets") {
                            match Tileset::parse_wang_sets(parser, &mut wang_sets) {
                                Ok(()) => {},
                                Err(e) => {
                                    return Err(e);
                                },
                            }
                        } else if crate::xml::string_eq_str(&n, "properties") {
                            match crate::properties::parse_properties(parser) {
                                Ok(p) => {
                                    properties = p;
                                },
                                Err(e) => {
                                    return Err(e);
                                },
                            }
                        }
                    },
                    XmlEvent::End { name: n } => {
                        if crate::xml::string_eq_str(&n, "tileset") {
                            break ;
                        }
                    },
                    XmlEvent::Eof => {
                        return Err(
                            Error::PrematureEnd(String::from_str("tileset element never closed")),
                        );
                    },
                    _ => {},
                }
            }
        }
        Ok(
            Tileset {
                name,
                tile_width,
                tile_height,
                spacing,
                margin,
                tilecount,
                columns,
                image,
                tiles,
                wang_sets,
                properties,
            },
        )
    }

    /// Reads one `<tile>` element inside a tileset: its local id, its
    /// animation, its collision shapes and its properties.
    fn parse_tile<R: ResourceReader>(
        parser: &mut Parser,
        attrs: &Vec<Attr>,
        base_dir: &String,
        reader: &mut R,
        cache: &mut ResourceCache,
        depth: u32,
    ) -> (r: Result<(u32, TileData), Error>)
        requires
            old(parser).wf(),
            old(cache).wf(),
        ensures
            final(parser).wf(),
            final(parser).events == old(parser).events,
            old(parser).pos <= final(parser).pos,
        old(parser).last_event_was_empty ==> (final(parser).pos == old(parser).pos && (r is Ok
            <==> (attr_value(attrs@, "id"@) matches Some(v) && crate::text::parse_u32_spec(
            vstd::utf8::encode_utf8(v),
        ) is Some)) && (r matches Ok(p) ==> p.1.animation is None && p.1.collision is None
            && p.1.properties.entries@.len() == 0)),
        (!old(parser).last_event_was_empty && r matches Ok(_)) ==> (final(parser).pos
            > old(parser).pos && (old(parser).token_at(final(parser).pos - 1)
            matches XmlEvent::End { name: nm } && nm@ == "tile"@)),
            final(cache).wf(),
            cache_extends(*final(cache), *old(cache)),
        decreases depth, 4int,
    {
        let id = match crate::xml::req_attr_u32(attrs, "id") {
            Ok(v) => v,
            Err(e) => {
                return Err(e);
            },
        };
        let mut animation: Option<Vec<Frame>> = None;
        let mut collision: Option<ObjectLayerData> = None;
        let mut properties = Properties::new();
        if !parser.last_event_was_empty {
            loop
                invariant
                    !old(parser).last_event_was_empty,
                    parser.wf(),
                    parser.events == old(parser).events,
                    old(parser).pos <= parser.pos,
                    cache.wf(),
                    cache_extends(*cache, *old(cache)),
                    properties.keys_unique(),
                ensures
                    old(parser).pos < parser.pos,
                    (old(parser).token_at(parser.pos - 1) matches XmlEvent::End { name: nm }
                        && nm@ == "tile"@),
                decreases parser.remaining(),
            {
                let ev = parser.read_event();
                match ev {
                    XmlEvent::Start { name: n, attrs: a } | XmlEvent::Empty { name: n, attrs: a } => {
                        if crate::xml::string_eq_str(&n, "animation") {
                            match crate::animation::parse_animation(parser) {
                                Ok(frames) => {
                                    animation = Some(frames);
                                },
                                Err(e) => {
                                    return Err(e);
                                },
                            }
                        } else if crate::xml::string_eq_str(&n, "objectgroup") {
                            match ObjectLayerData::new(
                                parser,
                                a,
                                None,
                                base_dir,
                                reader,
                                cache,
                                depth,
                            ) {
                                Ok((layer, _)) => {
                                    collision = Some(layer);
                                },
                                Err(e) => {
                                    return Err(e);
                                },
                            }
                        } else if crate::xml::string_eq_str(&n, "properties") {
                            match crate::properties::parse_properties(parser) {
                                Ok(p) => {
                                    properties = p;
                                },
                                Err(e) => {
                                    return Err(e);
                                },
                            }
                        }
                    },
                    XmlEvent::End { name: n } => {
                        if crate::xml::string_eq_str(&n, "tile") {
                            break ;
                        }
                    },
                    XmlEvent::Eof => {
                        return Err(
                            Error::PrematureEnd(String::from_str("tile element never closed")),
                        );
                    },
                    _ => {},
                }
            }
        }
        Ok((id, TileData { animation, collision, properties }))
    }

    /// Reads the `<wangsets>` container: each `<wangset>` child appended in
    /// declaration order.
    fn parse_wang_sets(parser: &mut Parser, wang_sets: &mut Vec<WangSet>) -> (r: Result<(), Error>)
        requires
            old(parser).wf(),
        ensures
            final(parser).wf(),
            final(parser).events == old(parser).events,
            old(parser).pos <= final(parser).pos,
        old(parser).last_event_was_empty ==> final(parser).pos == old(parser).pos,
        (!old(parser).last_event_was_empty && r matches Ok(_)) ==> (final(parser).pos
            > old(parser).pos && (old(parser).token_at(final(parser).pos - 1)
            matches XmlEvent::End { name: nm } && nm@ == "wangsets"@)),
    {
        if parser.last_event_was_empty {
            return Ok(());
        }
        loop
            invariant
                !old(parser).last_event_was_empty,
                parser.wf(),
                parser.events == old(parser).events,
                old(parser).pos <= parser.pos,
            decreases parser.remaining(),
        {
            let ev = parser.read_event();
            match ev {
                XmlEvent::Start { name: n, attrs: a } | XmlEvent::Empty { name: n, attrs: a } => {
                    if crate::xml::string_eq_str(&n, "wangset") {
                        match WangSet::new(parser, a) {
                            Ok(w) => {
                                wang_sets.push(w);
                            },
                            Err(e) => {
                                return Err(e);
                            },
                        }
                    }
                },
                XmlEvent::End { name: n } => {
                    if crate::xml::string_eq_str(&n, "wangsets") {
                        return Ok(());
                    }
                },
                XmlEvent::Eof => {
                    return Err(
                        Error::PrematureEnd(String::from_str("wangsets element never closed")),
                    );
                },
                _ => {},
            }
        }
    }
}

/// Reads a tileset document: obtains its bytes, tokenizes them, and parses
/// the `<tileset>` element. A resource-loading failure names the path of
/// the resource whose read failed, which for resources referenced from
/// inside the document is the referenced path, not this one.
pub fn parse_tileset<R: ResourceReader>(
    path: &String,
    reader: &mut R,
    cache: &mut ResourceCache,
) -> (r: Result<Tileset, Error>)
    requires
        old(cache).wf(),
    ensures
        final(cache).wf(),
        cache_extends(*final(cache), *old(cache)),
        r matches Ok(ts) ==> ts.properties.keys_unique() && ts.tiles_unique(),
{
    parse_tileset_doc(path, reader, cache, crate::map::MAX_RESOURCE_DEPTH)
}

/// Reads a tileset document with an explicit budget of resource levels
/// still allowed below it.
pub fn parse_tileset_doc<R: ResourceReader>(
    path: &String,
    reader: &mut R,
    cache: &mut ResourceCache,
    depth: u32,
) -> (r: Result<Tileset, Error>)
    requires
        old(cache).wf(),
    ensures
        final(cache).wf(),
        cache_extends(*final(cache), *old(cache)),
        r matches Ok(ts) ==> ts.properties.keys_unique() && ts.tiles_unique(),
    decreases depth, 9int,
{
    let bytes = match reader.read_from(path) {
        Ok(b) => b,
        Err(cause) => {
            return Err(Error::ResourceLoading { path: path.clone(), cause });
        },
    };
    let events = match crate::xml::tokenize(bytes.as_slice()) {
        Ok(e) => e,
        Err(e) => {
            return Err(e);
        },
    };
    let mut parser = Parser::with_reader(events);
    let dir = match crate::text::parent_dir(path) {
        Ok(d) => d,
        Err(e) => {
            return Err(e);
        },
    };
    loop
        invariant
            parser.wf(),
            cache.wf(),
            cache_extends(*cache, *old(cache)),
        decreases parser.remaining(),
    {
        let ev = parser.read_event();
        match ev {
            XmlEvent::Start { name, attrs } | XmlEvent::Empty { name, attrs } => {
                if crate::xml::string_eq_str(&name, "tileset") {
                    return Tileset::parse_tileset_body(
                        &mut parser,
                        &attrs,
                        &dir,
                        reader,
                        cache,
                        depth,
                    );
                }
            },
            XmlEvent::Eof => {
                return Err(
                    Error::PrematureEnd(
                        String::from_str("document ended before a tileset element was found"),
                    ),
                );
            },
            _ => {},
        }
    }
}

/// Loads a tileset through the cache: a path already held is returned as
/// the held shared handle with the cache untouched; otherwise the document
/// is read, parsed once, and cached before returning. Hence two loads of
/// one path through one cache yield the same shared handle, and the
/// underlying reader runs at most once for it.
pub fn load_tileset<R: ResourceReader>(
    path: &String,
    reader: &mut R,
    cache: &mut ResourceCache,
    depth: u32,
) -> (r: Result<Arc<Tileset>, Error>)
    requires
        old(cache).wf(),
    ensures
        final(cache).wf(),
        cache_extends(*final(cache), *old(cache)),
        old(cache).tilesets_view().contains_key(path@) ==> (r matches Ok(t) && *t == old(
            cache
        ).tilesets_view()[path@] && final(cache).tilesets_view() == old(cache).tilesets_view()
            && final(cache).templates_view() == old(cache).templates_view()),
        r matches Ok(t) ==> final(cache).tilesets_view().contains_key(path@) && final(
            cache
        ).tilesets_view()[path@] == *t,
    decreases depth, 1int,
{
    match cache.get_tileset(path) {
        Some(t) => Ok(t),
        None => {
            if depth == 0 {
                return Err(Error::RecursionLimit);
            }
            let ts = match parse_tileset_doc(path, reader, cache, depth - 1) {
                Ok(ts) => Arc::new(ts),
                Err(e) => {
                    return Err(e);
                },
            };
            match cache.get_tileset(path) {
                Some(held) => Ok(held),
                None => {
                    cache.insert_tileset(path.clone(), share_arc(&ts));
                    Ok(ts)
                },
            }
        },
    }
}

} // verus!
