//! Object records and object layers. Objects keep exact declaration order;
//! an object may instantiate a shared template, loaded through the
//! caller-supplied cache.

use crate::cache::{cache_extends, ResourceCache, ResourceReader};
use crate::error::Error;
use crate::gid::{LayerTileData, MapTilesetGid};
use crate::properties::{Color, Properties};
use crate::xml::{Attr, Parser, XmlEvent};
use vstd::prelude::*;

verus! {

broadcast use crate::cache::lemma_cache_extends_trans;

/// Whether an object element's attributes admit a record against the
/// table in scope: optional id and gid parse, and a present gid resolves
/// when a table is in scope.
pub open spec fn object_attrs_ok(attrs: Seq<Attr>, tilesets: Option<Seq<MapTilesetGid>>) -> bool {
    &&& (match crate::xml::attr_value(attrs, "id"@) {
        Some(v) => crate::text::parse_u32_spec(vstd::utf8::encode_utf8(v)) is Some,
        None => true,
    })
    &&& (match crate::xml::attr_value(attrs, "gid"@) {
        Some(v) => crate::text::parse_u32_spec(vstd::utf8::encode_utf8(v)) matches Some(bits) && (
        match tilesets {
            Some(ts) => crate::gid::from_bits_spec(bits, ts) is Ok,
            None => true,
        }),
        None => true,
    })
}

/// The view of an optional tileset-table slice.
pub open spec fn table_view(tilesets: Option<&[MapTilesetGid]>) -> Option<Seq<MapTilesetGid>> {
    match tilesets {
        Some(ts) => Some(ts@),
        None => None,
    }
}

/// Where scanning an `<object>` element ends: the names its last
/// properties child binds and the position just past the closing tag; or
/// failure.
pub enum ObjectScan {
    Done { prop_keys: Set<Seq<char>>, next: int },
    Failed,
}

/// Scans an object element's children from `pos`: a properties block is
/// scanned in turn, everything else but the closing tag is passed over, as
/// the parser does.
pub open spec fn object_scan(events: Seq<XmlEvent>, pos: int, pk: Set<Seq<char>>) -> ObjectScan
    decreases events.len() - pos,
{
    if pos < 0 || pos >= events.len() {
        ObjectScan::Failed
    } else {
        match events[pos] {
            XmlEvent::Start { name, .. } => if name@ == "properties"@ {
                match crate::properties::props_keys(events, pos + 1, Set::empty()) {
                    crate::properties::KeysScan::Done { keys, next } => object_scan(
                        events,
                        crate::properties::clamp_pos(events, pos + 1, next),
                        keys,
                    ),
                    crate::properties::KeysScan::Failed => ObjectScan::Failed,
                }
            } else {
                object_scan(events, pos + 1, pk)
            },
            XmlEvent::Empty { name, .. } => if name@ == "properties"@ {
                object_scan(events, pos + 1, Set::empty())
            } else {
                object_scan(events, pos + 1, pk)
            },
            XmlEvent::End { name } => if name@ == "object"@ {
                ObjectScan::Done { prop_keys: pk, next: pos + 1 }
            } else {
                object_scan(events, pos + 1, pk)
            },
            XmlEvent::Eof => ObjectScan::Failed,
            _ => object_scan(events, pos + 1, pk),
        }
    }
}

/// Whether an object record is the one its attributes denote against the
/// table in scope and the declaring document's directory.
pub open spec fn object_from_attrs(
    attrs: Seq<Attr>,
    tilesets: Option<Seq<MapTilesetGid>>,
    base_dir: Seq<char>,
    o: ObjectData,
) -> bool {
    &&& (match crate::xml::attr_value(attrs, "id"@) {
        Some(v) => crate::text::parse_u32_spec(vstd::utf8::encode_utf8(v)) matches Some(n)
            && o.id == n,
        None => o.id == 0,
    })
    &&& (match crate::xml::attr_value(attrs, "name"@) {
        Some(v) => o.name@ == v,
        None => o.name@ == Seq::<char>::empty(),
    })
    &&& (match crate::xml::attr_value(attrs, "type"@) {
        Some(v) => o.user_type@ == v,
        None => o.user_type@ == Seq::<char>::empty(),
    })
    &&& (match crate::xml::attr_value(attrs, "template"@) {
        Some(rel) => o.template matches Some(tp) && tp@ == crate::text::join_dir_spec(
            base_dir,
            rel,
        ),
        None => o.template is None,
    })
    &&& (match (crate::xml::attr_value(attrs, "gid"@), tilesets) {
        (Some(g), Some(ts)) => crate::text::parse_u32_spec(vstd::utf8::encode_utf8(g))
            matches Some(bits) && crate::gid::from_bits_spec(bits, ts) == Ok::<
            Option<LayerTileData>,
            Error,
        >(o.tile),
        _ => o.tile is None,
    })
}

/// Whether an object record carries what its attributes denote, apart
/// from cell resolution (which needs the table in scope): id, name, type
/// and template path.
pub open spec fn object_from_attrs_basic(attrs: Seq<Attr>, base_dir: Seq<char>, o: ObjectData) -> bool {
    &&& (match crate::xml::attr_value(attrs, "id"@) {
        Some(v) => crate::text::parse_u32_spec(vstd::utf8::encode_utf8(v)) matches Some(n)
            && o.id == n,
        None => o.id == 0,
    })
    &&& (match crate::xml::attr_value(attrs, "name"@) {
        Some(v) => o.name@ == v,
        None => o.name@ == Seq::<char>::empty(),
    })
    &&& (match crate::xml::attr_value(attrs, "type"@) {
        Some(v) => o.user_type@ == v,
        None => o.user_type@ == Seq::<char>::empty(),
    })
    &&& (match crate::xml::attr_value(attrs, "template"@) {
        Some(rel) => o.template matches Some(tp) && tp@ == crate::text::join_dir_spec(
            base_dir,
            rel,
        ),
        None => o.template is None,
    })
}

/// Where scanning an `<objectgroup>` element ends: its object children's
/// attributes (each with the names its properties bind) in declaration
/// order, the names the last properties child binds, and the position just
/// past the closing tag; or failure.
pub enum ObjectGroupScan {
    Done { objs: Seq<(Seq<Attr>, Set<Seq<char>>)>, prop_keys: Set<Seq<char>>, next: int },
    Failed,
}

/// Scans an object group's children from `pos`, as the parser routes them.
pub open spec fn objectgroup_scan(
    events: Seq<XmlEvent>,
    pos: int,
    os: Seq<(Seq<Attr>, Set<Seq<char>>)>,
    pk: Set<Seq<char>>,
) -> ObjectGroupScan
    decreases events.len() - pos,
{
    if pos < 0 || pos >= events.len() {
        ObjectGroupScan::Failed
    } else {
        match events[pos] {
            XmlEvent::Start { name, attrs } => if name@ == "object"@ {
                match object_scan(events, pos + 1, Set::empty()) {
                    ObjectScan::Done { prop_keys, next } => objectgroup_scan(
                        events,
                        crate::properties::clamp_pos(events, pos + 1, next),
                        os.push((attrs@, prop_keys)),
                        pk,
                    ),
                    ObjectScan::Failed => ObjectGroupScan::Failed,
                }
            } else if name@ == "properties"@ {
                match crate::properties::props_keys(events, pos + 1, Set::empty()) {
                    crate::properties::KeysScan::Done { keys, next } => objectgroup_scan(
                        events,
                        crate::properties::clamp_pos(events, pos + 1, next),
                        os,
                        keys,
                    ),
                    crate::properties::KeysScan::Failed => ObjectGroupScan::Failed,
                }
            } else {
                objectgroup_scan(events, pos + 1, os, pk)
            },
            XmlEvent::Empty { name, attrs } => if name@ == "object"@ {
                objectgroup_scan(events, pos + 1, os.push((attrs@, Set::empty())), pk)
            } else if name@ == "properties"@ {
                objectgroup_scan(events, pos + 1, os, Set::empty())
            } else {
                objectgroup_scan(events, pos + 1, os, pk)
            },
            XmlEvent::End { name } => if name@ == "objectgroup"@ {
                ObjectGroupScan::Done { objs: os, prop_keys: pk, next: pos + 1 }
            } else {
                objectgroup_scan(events, pos + 1, os, pk)
            },
            XmlEvent::Eof => ObjectGroupScan::Failed,
            _ => objectgroup_scan(events, pos + 1, os, pk),
        }
    }
}

/// The raw data of one object.
#[derive(Debug, PartialEq)]
pub struct ObjectData {
    pub id: u32,
    pub name: String,
    pub user_type: String,
    /// The resolved tile this object shows, when it carries a cell value
    /// and a tileset table is in scope.
    pub tile: Option<LayerTileData>,
    /// The canonical path of the template this object instantiates, if
    /// any; the parsed template is shared through the cache.
    pub template: Option<String>,
    pub properties: Properties,
}

impl ObjectData {
    /// Reads one `<object>` element: its attributes, its template reference
    /// (loaded through the cache), its cell value resolved against the
    /// table in scope, and its properties.
    pub fn new<R: ResourceReader>(
        parser: &mut Parser,
        attrs: Vec<Attr>,
        tilesets: Option<&[MapTilesetGid]>,
        base_dir: &String,
        reader: &mut R,
        cache: &mut ResourceCache,
        depth: u32,
    ) -> (r: Result<ObjectData, Error>)
        requires
            old(parser).wf(),
            old(cache).wf(),
        ensures
            final(parser).wf(),
            final(parser).events == old(parser).events,
            old(parser).pos <= final(parser).pos,
        old(parser).last_event_was_empty ==> (final(parser).pos == old(parser).pos && ((
        crate::xml::attr_value(attrs@, "template"@) is None) ==> (r is Ok <==> object_attrs_ok(
            attrs@,
            table_view(tilesets),
        ))) && (r matches Ok(o) ==> o.properties.entries@.len() == 0)),
        (!old(parser).last_event_was_empty && r matches Ok(_)) ==> (final(parser).pos
            > old(parser).pos && (old(parser).token_at(final(parser).pos - 1)
            matches XmlEvent::End { name: nm } && nm@ == "object"@)),
            final(cache).wf(),
            cache_extends(*final(cache), *old(cache)),
            r matches Ok(o) ==> o.properties.keys_unique(),
            !old(parser).last_event_was_empty ==> match object_scan(
                old(parser).events@,
                old(parser).pos as int,
                Set::empty(),
            ) {
                ObjectScan::Done { prop_keys, next } => ((r matches Ok(o) ==> (final(parser).pos
                    == next && o.properties@.dom() == prop_keys)) && ((crate::xml::attr_value(
                    attrs@,
                    "template"@,
                ) is None) ==> (r is Ok <==> object_attrs_ok(attrs@, table_view(tilesets))))),
                ObjectScan::Failed => r is Err,
            },
            r matches Ok(o) ==> ({
                &&& (match crate::xml::attr_value(attrs@, "id"@) {
                    Some(v) => crate::text::parse_u32_spec(vstd::utf8::encode_utf8(v)) == Some(
                        o.id,
                    ),
                    None => o.id == 0,
                })
                &&& (match crate::xml::attr_value(attrs@, "name"@) {
                    Some(v) => o.name@ == v,
                    None => o.name@ == Seq::<char>::empty(),
                })
                &&& (match crate::xml::attr_value(attrs@, "type"@) {
                    Some(v) => o.user_type@ == v,
                    None => o.user_type@ == Seq::<char>::empty(),
                })
                &&& (match crate::xml::attr_value(attrs@, "template"@) {
                    Some(rel) => o.template matches Some(tp) && tp@ == crate::text::join_dir_spec(
                        base_dir@,
                        rel,
                    ),
                    None => o.template is None,
                })
                &&& (match (crate::xml::attr_value(attrs@, "gid"@), tilesets) {
                    (Some(g), Some(ts)) => crate::text::parse_u32_spec(
                        vstd::utf8::encode_utf8(g),
                    ) matches Some(bits) && crate::gid::from_bits_spec(bits, ts@) == Ok::<
                        Option<LayerTileData>,
                        Error,
                    >(o.tile),
                    _ => o.tile is None,
                })
            }),
        decreases depth, 2int,
    {
        let id = match crate::xml::opt_attr_u32(&attrs, "id") {
            Ok(Some(v)) => v,
            Ok(None) => 0,
            Err(e) => {
                return Err(e);
            },
        };
        let name = match crate::xml::opt_attr_string(&attrs, "name") {
            Some(v) => v,
            None => String::new(),
        };
        let user_type = match crate::xml::opt_attr_string(&attrs, "type") {
            Some(v) => v,
            None => String::new(),
        };
        let gid = match crate::xml::opt_attr_u32(&attrs, "gid") {
            Ok(v) => v,
            Err(e) => {
                return Err(e);
            },
        };
        let template: Option<String> = match crate::xml::opt_attr_string(&attrs, "template") {
            Some(rel) => {
                let full = crate::text::join_dir(base_dir, &rel);
                match crate::template::load_template(&full, reader, cache, depth) {
                    Ok(_) => {},
                    Err(e) => {
                        return Err(e);
                    },
                }
                Some(full)
            },
            None => None,
        };
        let tile: Option<LayerTileData> = match (gid, tilesets) {
            (Some(bits), Some(ts)) => match LayerTileData::from_bits(bits, ts) {
                Ok(t) => t,
                Err(e) => {
                    return Err(e);
                },
            },
            _ => None,
        };
        let mut properties = Properties::new();
        proof {
            assert(properties@.dom() =~= Set::<Seq<char>>::empty());
        }
        if !parser.last_event_was_empty {
            loop
                invariant_except_break
                    object_scan(parser.events@, old(parser).pos as int, Set::empty())
                        == object_scan(parser.events@, parser.pos as int, properties@.dom()),
                invariant
                    !old(parser).last_event_was_empty,
                    parser.wf(),
                    parser.events == old(parser).events,
                    old(parser).pos <= parser.pos,
                    cache.wf(),
                    cache_extends(*cache, *old(cache)),
                    properties.keys_unique(),
                ensures
                    old(parser).pos < parser.pos,
                    (old(parser).token_at(parser.pos - 1) matches XmlEvent::End { name: nm }
                        && nm@ == "object"@),
                    object_scan(parser.events@, old(parser).pos as int, Set::empty()) == (
                    ObjectScan::Done { prop_keys: properties@.dom(), next: parser.pos as int }),
                    properties.keys_unique(),
                decreases parser.remaining(),
            {
                let ev = parser.read_event();
                match ev {
                    XmlEvent::Start { name: n, .. } | XmlEvent::Empty { name: n, .. } => {
                        if crate::xml::string_eq_str(&n, "properties") {
                            match crate::properties::parse_properties(parser) {
                                Ok(p) => {
                                    properties = p;
                                },
                                Err(e) => {
                                    return Err(e);
                                },
                            }
                        }
                    },
                    XmlEvent::End { name: n } => {
                        if crate::xml::string_eq_str(&n, "object") {
                            break ;
                        }
                    },
                    XmlEvent::Eof => {
                        return Err(
                            Error::PrematureEnd(String::from_str("object element never closed")),
                        );
                    },
                    _ => {},
                }
            }
        }
        Ok(ObjectData { id, name, user_type, tile, template, properties })
    }
}

/// Raw data referring to a map object layer or tile collision data.
#[derive(Debug, PartialEq)]
pub struct ObjectLayerData {
    pub objects: Vec<ObjectData>,
    /// The color used in the editor to display this layer's objects.
    pub colour: Option<Color>,
}

impl ObjectLayerData {
    /// Reads one `<objectgroup>` element: its objects in the exact order
    /// they are declared, and its properties. Collision data inside a
    /// tileset passes no table, so its objects resolve no cell values.
    pub fn new<R: ResourceReader>(
        parser: &mut Parser,
        attrs: Vec<Attr>,
        tilesets: Option<&[MapTilesetGid]>,
        base_dir: &String,
        reader: &mut R,
        cache: &mut ResourceCache,
        depth: u32,
    ) -> (r: Result<(ObjectLayerData, Properties), Error>)
        requires
            old(parser).wf(),
            old(cache).wf(),
        ensures
            final(parser).wf(),
            final(parser).events == old(parser).events,
            old(parser).pos <= final(parser).pos,
        old(parser).last_event_was_empty ==> (final(parser).pos == old(parser).pos && (r is Ok
            <==> (match crate::xml::attr_value(attrs@, "color"@) {
            Some(cv) => crate::properties::color_spec(vstd::utf8::encode_utf8(cv)) is Some,
            None => true,
        })) && (r matches Ok(p) ==> p.0.objects@.len() == 0 && p.1.entries@.len() == 0)),
        (!old(parser).last_event_was_empty && r matches Ok(_)) ==> (final(parser).pos
            > old(parser).pos && (old(parser).token_at(final(parser).pos - 1)
            matches XmlEvent::End { name: nm } && nm@ == "objectgroup"@)),
            final(cache).wf(),
            cache_extends(*final(cache), *old(cache)),
            r matches Ok(p) ==> p.1.keys_unique(),
            r matches Ok(p) ==> (match crate::xml::attr_value(attrs@, "color"@) {
                Some(cv) => crate::properties::color_spec(vstd::utf8::encode_utf8(cv))
                    matches Some(c) && p.0.colour == Some(c),
                None => p.0.colour is None,
            }),
            !old(parser).last_event_was_empty ==> match objectgroup_scan(
                old(parser).events@,
                old(parser).pos as int,
                Seq::empty(),
                Set::empty(),
            ) {
                ObjectGroupScan::Done { objs, prop_keys, next } => (r matches Ok(p) ==> (final(
                    parser
                ).pos == next && p.0.objects@.len() == objs.len() && (forall|i: int|
                    0 <= i < objs.len() ==> object_from_attrs(
                        objs[i].0,
                        table_view(tilesets),
                        base_dir@,
                        #[trigger] p.0.objects@[i],
                    ) && p.0.objects@[i].properties@.dom() == objs[i].1) && p.1@.dom()
                    == prop_keys)),
                ObjectGroupScan::Failed => r is Err,
            },
        decreases depth, 3int,
    {
        let colour = match crate::properties::opt_attr_color(&attrs, "color") {
            Ok(c) => c,
            Err(e) => {
                return Err(e);
            },
        };
        let mut objects: Vec<ObjectData> = Vec::new();
        let mut properties = Properties::new();
        let ghost mut g_objs: Seq<(Seq<Attr>, Set<Seq<char>>)> = Seq::empty();
        proof {
            assert(properties@.dom() =~= Set::<Seq<char>>::empty());
        }
        if !parser.last_event_was_empty {
            loop
                invariant_except_break
                    objectgroup_scan(
                        parser.events@,
                        old(parser).pos as int,
                        Seq::empty(),
                        Set::empty(),
                    ) == objectgroup_scan(
                        parser.events@,
                        parser.pos as int,
                        g_objs,
                        properties@.dom(),
                    ),
                invariant
                    !old(parser).last_event_was_empty,
                    parser.wf(),
                    parser.events == old(parser).events,
                    old(parser).pos <= parser.pos,
                    cache.wf(),
                    cache_extends(*cache, *old(cache)),
                    properties.keys_unique(),
                    objects@.len() == g_objs.len(),
                    forall|i: int|
                        0 <= i < g_objs.len() ==> object_from_attrs(
                            g_objs[i].0,
                            table_view(tilesets),
                            base_dir@,
                            #[trigger] objects@[i],
                        ) && objects@[i].properties@.dom() == g_objs[i].1,
                ensures
                    old(parser).pos < parser.pos,
                    (old(parser).token_at(parser.pos - 1) matches XmlEvent::End { name: nm }
                        && nm@ == "objectgroup"@),
                    objectgroup_scan(
                        parser.events@,
                        old(parser).pos as int,
                        Seq::empty(),
                        Set::empty(),
                    ) == (ObjectGroupScan::Done {
                        objs: g_objs,
                        prop_keys: properties@.dom(),
                        next: parser.pos as int,
                    }),
                    objects@.len() == g_objs.len(),
                    forall|i: int|
                        0 <= i < g_objs.len() ==> object_from_attrs(
                            g_objs[i].0,
                            table_view(tilesets),
                            base_dir@,
                            #[trigger] objects@[i],
                        ) && objects@[i].properties@.dom() == g_objs[i].1,
                    properties.keys_unique(),
                decreases parser.remaining(),
            {
                let ghost q: int = parser.pos as int;
                let ev = parser.read_event();
                match ev {
                    XmlEvent::Start { name: n, attrs: a } | XmlEvent::Empty { name: n, attrs: a } => {
                        if crate::xml::string_eq_str(&n, "object") {
                            let ghost gattrs = a@;
                            let ghost was_empty = parser.last_event_was_empty;
                            let ghost p_call = parser.pos as int;
                            match ObjectData::new(parser, a, tilesets, base_dir, reader, cache, depth) {
                                Ok(o) => {
                                    let ghost okeys = o.properties@.dom();
                                    proof {
                                        if o.properties.entries@.len() == 0 {
                                            assert(o.properties@.dom() =~= Set::<
                                                Seq<char>,
                                            >::empty());
                                        }
                                    }
                                    objects.push(o);
                                    proof {
                                        g_objs = g_objs.push((gattrs, okeys));
                                        let events = parser.events@;
                                        assert(0 <= q < events.len());
                                        assert(p_call == q + 1);
                                        if events[q] matches XmlEvent::Start { .. } {
                                            assert(ev matches XmlEvent::Start { .. });
                                            assert(!was_empty);
                                            assert(match object_scan(events, q + 1, Set::empty()) {
                                                ObjectScan::Done { prop_keys, next } => parser.pos
                                                    == next && okeys == prop_keys,
                                                ObjectScan::Failed => false,
                                            });
                                            assert(object_scan(events, q + 1, Set::empty()) == (
                                            ObjectScan::Done {
                                                prop_keys: okeys,
                                                next: parser.pos as int,
                                            }));
                                            assert(crate::properties::clamp_pos(
                                                events,
                                                q + 1,
                                                parser.pos as int,
                                            ) == parser.pos as int);
                                        } else {
                                            assert(parser.pos == q + 1);
                                            assert(okeys =~= Set::<Seq<char>>::empty());
                                        }
                                    }
                                },
                                Err(e) => {
                                    return Err(e);
                                },
                            }
                        } else if crate::xml::string_eq_str(&n, "properties") {
                            match crate::properties::parse_properties(parser) {
                                Ok(p) => {
                                    properties = p;
                                },
                                Err(e) => {
                                    return Err(e);
                                },
                            }
                        }
                    },
                    XmlEvent::End { name: n } => {
                        if crate::xml::string_eq_str(&n, "objectgroup") {
                            break ;
                        }
                    },
                    XmlEvent::Eof => {
                        return Err(
                            Error::PrematureEnd(
                                String::from_str("objectgroup element never closed"),
                            ),
                        );
                    },
                    _ => {},
                }
            }
        }
        Ok((ObjectLayerData { objects, colour }, properties))
    }

    /// The objects contained within the layer, in the order they were
    /// declared in the document.
    pub fn object_data(&self) -> (r: &[ObjectData])
        ensures
            r@ == self.objects@,
    {
        self.objects.as_slice()
    }
}

/// A view of an object layer tied to the map that holds it.
#[derive(Clone, Copy)]
pub struct ObjectLayer<'map> {
    pub map: &'map crate::map::TiledMap,
    pub data: &'map ObjectLayerData,
}

/// A view of one object tied to the map that holds it.
#[derive(Clone, Copy)]
pub struct Object<'map> {
    pub map: &'map crate::map::TiledMap,
    pub data: &'map ObjectData,
}

impl<'map> Object<'map> {
    pub fn new(map: &'map crate::map::TiledMap, data: &'map ObjectData) -> (r: Object<'map>)
        ensures
            r.map == map,
            r.data == data,
    {
        Object { map, data }
    }

    /// The map this object is from.
    pub fn map(&self) -> (r: &'map crate::map::TiledMap)
        ensures
            r == self.map,
    {
        self.map
    }

    /// The object's raw data.
    pub fn data(&self) -> (r: &'map ObjectData)
        ensures
            r == self.data,
    {
        self.data
    }
}

impl<'map> ObjectLayer<'map> {
    pub fn new(map: &'map crate::map::TiledMap, data: &'map ObjectLayerData) -> (r: ObjectLayer<
        'map,
    >)
        ensures
            r.map == map,
            r.data == data,
    {
        ObjectLayer { map, data }
    }

    /// The map this layer is from.
    pub fn map(&self) -> (r: &'map crate::map::TiledMap)
        ensures
            r == self.map,
    {
        self.map
    }

    /// The layer's raw data.
    pub fn data(&self) -> (r: &'map ObjectLayerData)
        ensures
            r == self.data,
    {
        self.data
    }

    /// The object at the given index, in declaration order.
    pub fn get_object(&self, idx: usize) -> (r: Option<Object<'map>>)
        ensures
            match r {
                Some(o) => idx < self.data.objects@.len() && *o.data == self.data.objects@[
                    idx as int
                ] && o.map == self.map,
                None => idx >= self.data.objects@.len(),
            },
    {
        if idx < self.data.objects.len() {
            Some(Object::new(self.map, &self.data.objects[idx]))
        } else {
            None
        }
    }

    /// All objects present in this layer, in the order they were declared
    /// in the document.
    pub fn objects(&self) -> (r: Vec<Object<'map>>)
        ensures
            r@.len() == self.data.objects@.len(),
            forall|i: int|
                0 <= i < r@.len() ==> *(#[trigger] r@[i]).data == self.data.objects@[i] && r@[
                    i
                ].map == self.map,
    {
        let mut out: Vec<Object<'map>> = Vec::new();
        let mut i: usize = 0;
        while i < self.data.objects.len()
            invariant
                i <= self.data.objects@.len(),
                out@.len() == i,
                forall|k: int|
                    0 <= k < i ==> *(#[trigger] out@[k]).data == self.data.objects@[k] && out@[
                        k
                    ].map == self.map,
            decreases self.data.objects@.len() - i,
        {
            out.push(Object::new(self.map, &self.data.objects[i]));
            i = i + 1;
        }
        out
    }
}

} // verus!
