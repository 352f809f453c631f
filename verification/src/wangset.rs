//! Wang set records: terrain-blending metadata carried per tileset. These
//! are declarative records routed off a tileset's child tags; colors and
//! tiles keep declaration order.

use crate::error::Error;
use crate::properties::{Color, Properties};
use crate::xml::{attr_value, Attr, Parser, XmlEvent};
use vstd::prelude::*;

verus! {

/// A Wang set's terrain brush connection type.
#[derive(Debug, PartialEq, Eq, Clone, Copy, Structural)]
pub enum WangSetType {
    Corner,
    Edge,
    Mixed,
}

impl Default for WangSetType {
    /// The type an unrecognized or absent declaration falls back to.
    fn default() -> (r: WangSetType)
        ensures
            r == WangSetType::Mixed,
    {
        WangSetType::Mixed
    }
}

/// One Wang color: a named color usable to define edges and corners of
/// Wang tiles.
#[derive(Debug, PartialEq)]
pub struct WangColor {
    /// The name of this color.
    pub name: String,
    pub color: Color,
    /// The local id of the tile representing this color, when non-negative.
    pub tile: Option<u32>,
    /// The relative probability this color is chosen, kept as its literal
    /// text.
    pub probability: String,
    /// The custom properties of this color.
    pub properties: Properties,
}

/// One Wang tile: the Wang color indices around a tile.
#[derive(Debug, PartialEq)]
pub struct WangTile {
    /// The color indices, in the order the document lists them.
    pub wang_id: Vec<u32>,
}

/// Raw data belonging to a Wang set.
#[derive(Debug, PartialEq)]
pub struct WangSet {
    /// The name of the Wang set.
    pub name: String,
    /// The connection type of the Wang set.
    pub wang_set_type: WangSetType,
    /// The local id of the tile representing this Wang set, when
    /// non-negative.
    pub tile: Option<u32>,
    /// The colors of this Wang set, in declaration order.
    pub wang_colors: Vec<WangColor>,
    /// The Wang tiles of this set, keyed by local tile id, each id held
    /// once, in first-declaration order.
    pub wang_tiles: Vec<(u32, WangTile)>,
    /// The custom properties of this Wang set.
    pub properties: Properties,
}

/// Whether a wangcolor element's attributes admit a record: its name,
/// a color that parses, a signed tile id, and a float-shaped probability.
pub open spec fn wangcolor_attrs_ok(attrs: Seq<Attr>) -> bool {
    &&& attr_value(attrs, "name"@) is Some
    &&& (attr_value(attrs, "color"@) matches Some(cv) && crate::properties::color_spec(
        vstd::utf8::encode_utf8(cv),
    ) is Some)
    &&& (attr_value(attrs, "tile"@) matches Some(tv) && crate::text::parse_i64_spec(
        vstd::utf8::encode_utf8(tv),
    ) is Some)
    &&& (attr_value(attrs, "probability"@) matches Some(pv) && crate::text::is_float_syntax(
        vstd::utf8::encode_utf8(pv),
    ))
}

/// Whether a wangset element's attributes admit a record: its name, its
/// type text, and a signed tile id.
pub open spec fn wangset_attrs_ok(attrs: Seq<Attr>) -> bool {
    &&& attr_value(attrs, "name"@) is Some
    &&& attr_value(attrs, "type"@) is Some
    &&& (attr_value(attrs, "tile"@) matches Some(tv) && crate::text::parse_i64_spec(
        vstd::utf8::encode_utf8(tv),
    ) is Some)
}

/// Whether a wangtile element's attributes admit a record: a tile id and a
/// comma-separated list of color indices, all parsing.
pub open spec fn wangtile_attrs_ok(attrs: Seq<Attr>) -> bool {
    &&& (attr_value(attrs, "tileid"@) matches Some(tv) && crate::text::parse_u32_spec(
        vstd::utf8::encode_utf8(tv),
    ) is Some)
    &&& (attr_value(attrs, "wangid"@) matches Some(wv) && crate::data::csv_gids(
        crate::data::split_commas(vstd::utf8::encode_utf8(wv)),
    ) is Some)
}

/// Where scanning a `<wangcolor>` element ends: the names its last
/// properties child binds and the position just past the closing tag; or
/// failure.
pub enum WangColorScan {
    Done { prop_keys: Set<Seq<char>>, next: int },
    Failed,
}

/// Scans a wangcolor element's children from `pos`: a properties block is
/// scanned in turn, everything else but the closing tag is passed over, as
/// the parser does.
pub open spec fn wangcolor_scan(events: Seq<XmlEvent>, pos: int, pk: Set<Seq<char>>) -> WangColorScan
    decreases events.len() - pos,
{
    if pos < 0 || pos >= events.len() {
        WangColorScan::Failed
    } else {
        match events[pos] {
            XmlEvent::Start { name, .. } => if name@ == "properties"@ {
                match crate::properties::props_keys(events, pos + 1, Set::empty()) {
                    crate::properties::KeysScan::Done { keys, next } => wangcolor_scan(
                        events,
                        crate::properties::clamp_pos(events, pos + 1, next),
                        keys,
                    ),
                    crate::properties::KeysScan::Failed => WangColorScan::Failed,
                }
            } else {
                wangcolor_scan(events, pos + 1, pk)
            },
            XmlEvent::End { name } => if name@ == "wangcolor"@ {
                WangColorScan::Done { prop_keys: pk, next: pos + 1 }
            } else {
                wangcolor_scan(events, pos + 1, pk)
            },
            XmlEvent::Eof => WangColorScan::Failed,
            _ => wangcolor_scan(events, pos + 1, pk),
        }
    }
}

/// Whether a wangcolor record is the one its attributes denote.
pub open spec fn wangcolor_from_attrs(attrs: Seq<Attr>, c: WangColor) -> bool {
    &&& (attr_value(attrs, "name"@) matches Some(n) && c.name@ == n)
    &&& (attr_value(attrs, "color"@) matches Some(cv) && crate::properties::color_spec(
        vstd::utf8::encode_utf8(cv),
    ) == Some(c.color))
    &&& (attr_value(attrs, "tile"@) matches Some(tv) && (crate::text::parse_i64_spec(
        vstd::utf8::encode_utf8(tv),
    ) matches Some(ti) && c.tile == (if 0 <= ti <= 0xFFFF_FFFFi64 {
        Some(ti as u32)
    } else {
        None::<u32>
    })))
    &&& (attr_value(attrs, "probability"@) matches Some(pv) && crate::text::is_float_syntax(
        vstd::utf8::encode_utf8(pv),
    ) && c.probability@ == pv)
}

impl WangColor {
    /// Reads one `<wangcolor>` element.
    pub fn new(parser: &mut Parser, attrs: Vec<Attr>) -> (r: Result<WangColor, Error>)
        requires
            old(parser).wf(),
        ensures
            final(parser).wf(),
            final(parser).events == old(parser).events,
            old(parser).pos <= final(parser).pos,
        old(parser).last_event_was_empty ==> (final(parser).pos == old(parser).pos && (r is Ok
            <==> wangcolor_attrs_ok(attrs@)) && (r matches Ok(c) ==> c.properties.entries@.len()
            == 0)),
        (!old(parser).last_event_was_empty && r matches Ok(_)) ==> (final(parser).pos
            > old(parser).pos && (old(parser).token_at(final(parser).pos - 1)
            matches XmlEvent::End { name: nm } && nm@ == "wangcolor"@)),
            r matches Ok(c) ==> c.properties.keys_unique(),
            attr_value(attrs@, "name"@) is None ==> (r matches Err(e) && e
                matches Error::MalformedAttributes(_)),
            !old(parser).last_event_was_empty ==> match wangcolor_scan(
                old(parser).events@,
                old(parser).pos as int,
                Set::empty(),
            ) {
                WangColorScan::Done { prop_keys, next } => ((r is Ok <==> wangcolor_attrs_ok(
                    attrs@,
                )) && (r matches Ok(c) ==> final(parser).pos == next && c.properties@.dom()
                    == prop_keys)),
                WangColorScan::Failed => (wangcolor_attrs_ok(attrs@) ==> r is Err),
            },
            r matches Ok(c) ==> ({
                &&& attr_value(attrs@, "name"@) matches Some(n) && c.name@ == n
                &&& attr_value(attrs@, "color"@) matches Some(cv) && crate::properties::color_spec(
                    vstd::utf8::encode_utf8(cv),
                ) == Some(c.color)
                &&& attr_value(attrs@, "tile"@) matches Some(tv)
                    && (crate::text::parse_i64_spec(vstd::utf8::encode_utf8(tv)) matches Some(ti)
                    && c.tile == (if 0 <= ti <= 0xFFFF_FFFFi64 {
                    Some(ti as u32)
                } else {
                    None::<u32>
                }))
                &&& attr_value(attrs@, "probability"@) matches Some(pv)
                    && crate::text::is_float_syntax(vstd::utf8::encode_utf8(pv))
                    && c.probability@ == pv
            }),
    {
        let name = match crate::xml::req_attr_string(&attrs, "name") {
            Ok(v) => v,
            Err(e) => {
                return Err(e);
            },
        };
        let color_text = match crate::xml::req_attr_string(&attrs, "color") {
            Ok(v) => v,
            Err(e) => {
                return Err(e);
            },
        };
        let color = match Color::from_str(color_text.as_str()) {
            Ok(c) => c,
            Err(_) => {
                return Err(Error::MalformedAttributes(String::from_str("color")));
            },
        };
        let tile_raw = match crate::xml::req_attr_i64(&attrs, "tile") {
            Ok(v) => v,
            Err(e) => {
                return Err(e);
            },
        };
        let tile: Option<u32> = if tile_raw >= 0 && tile_raw <= 0xFFFF_FFFF {
            Some(tile_raw as u32)
        } else {
            None
        };
        let probability = match crate::xml::req_attr_string(&attrs, "probability") {
            Ok(v) => v,
            Err(e) => {
                return Err(e);
            },
        };
        if !crate::text::is_float_literal(probability.as_str().as_bytes()) {
            return Err(Error::MalformedAttributes(String::from_str("probability")));
        }
        let mut properties = Properties::new();
        proof {
            assert(properties@.dom() =~= Set::<Seq<char>>::empty());
        }
        if !parser.last_event_was_empty {
            loop
                invariant_except_break
                    wangcolor_scan(parser.events@, old(parser).pos as int, Set::empty())
                        == wangcolor_scan(parser.events@, parser.pos as int, properties@.dom()),
                invariant
                    !old(parser).last_event_was_empty,
                    parser.wf(),
                    parser.events == old(parser).events,
                    old(parser).pos <= parser.pos,
                    properties.keys_unique(),
                    wangcolor_attrs_ok(attrs@),
                ensures
                    old(parser).pos < parser.pos,
                    (old(parser).token_at(parser.pos - 1) matches XmlEvent::End { name: nm }
                        && nm@ == "wangcolor"@),
                    wangcolor_scan(parser.events@, old(parser).pos as int, Set::empty()) == (
                    WangColorScan::Done {
                        prop_keys: properties@.dom(),
                        next: parser.pos as int,
                    }),
                    properties.keys_unique(),
                decreases parser.remaining(),
            {
                let ev = parser.read_event();
                match ev {
                    XmlEvent::Start { name: n, .. } => {
                        if crate::xml::string_eq_str(&n, "properties") {
                            match crate::properties::parse_properties(parser) {
                                Ok(p) => {
                                    properties = p;
                                },
                                Err(e) => {
                                    return Err(e);
                                },
                            }
                        }
                    },
                    XmlEvent::End { name: n } => {
                        if crate::xml::string_eq_str(&n, "wangcolor") {
                            break ;
                        }
                    },
                    XmlEvent::Eof => {
                        return Err(
                            Error::PrematureEnd(
                                String::from_str("wangcolor element never closed"),
                            ),
                        );
                    },
                    _ => {},
                }
            }
        }
        Ok(WangColor { name, color, tile, probability, properties })
    }
}

impl WangTile {
    /// Reads one `<wangtile>` element's attributes: the owning tile's local
    /// id and its comma-separated Wang color indices.
    pub fn new(attrs: Vec<Attr>) -> (r: Result<(u32, WangTile), Error>)
        ensures
            attr_value(attrs@, "tileid"@) is None ==> (r matches Err(e) && e
                matches Error::MalformedAttributes(_)),
            r is Ok <==> wangtile_attrs_ok(attrs@),
            r matches Ok(p) ==> ({
                &&& attr_value(attrs@, "tileid"@) matches Some(tv)
                    && crate::text::parse_u32_spec(vstd::utf8::encode_utf8(tv)) == Some(p.0)
                &&& attr_value(attrs@, "wangid"@) matches Some(wv) && crate::data::csv_gids(
                    crate::data::split_commas(vstd::utf8::encode_utf8(wv)),
                ) == Some(p.1.wang_id@)
            }),
    {
        let tile_id = match crate::xml::req_attr_u32(&attrs, "tileid") {
            Ok(v) => v,
            Err(e) => {
                return Err(e);
            },
        };
        let wang_text = match crate::xml::req_attr_string(&attrs, "wangid") {
            Ok(v) => v,
            Err(e) => {
                return Err(e);
            },
        };
        let fields = crate::data::split_commas_exec(wang_text.as_str().as_bytes());
        let mut wang_id: Vec<u32> = Vec::new();
        let mut j: usize = 0;
        while j < fields.len()
            invariant
                j <= fields@.len(),
                wang_id@.len() == j,
                attr_value(attrs@, "wangid"@) == Some(wang_text@),
                attr_value(attrs@, "tileid"@) matches Some(tv) && crate::text::parse_u32_spec(
                    vstd::utf8::encode_utf8(tv),
                ) == Some(tile_id),
                crate::data::fields_view(fields@) == crate::data::split_commas(
                    vstd::utf8::encode_utf8(wang_text@),
                ),
                forall|k: int|
                    0 <= k < j ==> crate::text::parse_u32_spec(
                        crate::text::trim_spec(#[trigger] crate::data::fields_view(fields@)[k]),
                    ) == Some(wang_id@[k]),
            decreases fields@.len() - j,
        {
            let fs: &[u8] = fields[j].as_slice();
            proof {
                assert(fs@ == crate::data::fields_view(fields@)[j as int]);
            }
            let (lo, hi) = crate::text::trim_bounds(fs);
            let sub = vstd::slice::slice_subrange(fs, lo, hi);
            match crate::text::parse_u32_bytes(sub) {
                Some(g) => {
                    wang_id.push(g);
                },
                None => {
                    proof {
                        crate::data::lemma_csv_gids_bad(
                            crate::data::fields_view(fields@),
                            j as int,
                        );
                    }
                    return Err(Error::MalformedAttributes(String::from_str("wangid")));
                },
            }
            j = j + 1;
        }
        proof {
            crate::data::lemma_csv_gids_all(crate::data::fields_view(fields@), wang_id@);
        }
        Ok((tile_id, WangTile { wang_id }))
    }
}

/// The wang-tile list after binding an id: the first entry under it
/// replaced in place, a new entry appended otherwise.
pub open spec fn upsert_wang_spec(ss: Seq<(u32, Seq<u32>)>, id: u32, wid: Seq<u32>) -> Seq<
    (u32, Seq<u32>),
>
    decreases ss.len(),
{
    if ss.len() == 0 {
        seq![(id, wid)]
    } else if ss.first().0 == id {
        seq![(id, wid)] + ss.drop_first()
    } else {
        seq![ss.first()] + upsert_wang_spec(ss.drop_first(), id, wid)
    }
}

/// Whether the held wang tiles are exactly the scanned ones, id for id and
/// index list for index list.
pub open spec fn wang_tiles_match(es: Seq<(u32, WangTile)>, ss: Seq<(u32, Seq<u32>)>) -> bool {
    es.len() == ss.len() && forall|i: int|
        0 <= i < es.len() ==> (#[trigger] es[i]).0 == ss[i].0 && es[i].1.wang_id@ == ss[i].1
}

proof fn lemma_upsert_at(ss: Seq<(u32, Seq<u32>)>, id: u32, wid: Seq<u32>, j: int)
    requires
        0 <= j < ss.len(),
        ss[j].0 == id,
        forall|i: int| 0 <= i < j ==> (#[trigger] ss[i]).0 != id,
    ensures
        upsert_wang_spec(ss, id, wid) =~= ss.update(j, (id, wid)),
    decreases ss.len(),
{
    if j > 0 {
        lemma_upsert_at(ss.drop_first(), id, wid, j - 1);
        assert(seq![ss.first()] + ss.drop_first().update(j - 1, (id, wid)) =~= ss.update(
            j,
            (id, wid),
        ));
    }
}

proof fn lemma_upsert_absent(ss: Seq<(u32, Seq<u32>)>, id: u32, wid: Seq<u32>)
    requires
        forall|i: int| 0 <= i < ss.len() ==> (#[trigger] ss[i]).0 != id,
    ensures
        upsert_wang_spec(ss, id, wid) =~= ss.push((id, wid)),
    decreases ss.len(),
{
    if ss.len() > 0 {
        lemma_upsert_absent(ss.drop_first(), id, wid);
        assert(seq![ss.first()] + ss.drop_first().push((id, wid)) =~= ss.push((id, wid)));
    }
}

/// The tile id a wangtile element's attributes declare.
pub open spec fn wangtile_id_of(attrs: Seq<Attr>) -> u32 {
    crate::text::parse_u32_spec(vstd::utf8::encode_utf8(attr_value(attrs, "tileid"@)->0))->0
}

/// The color indices a wangtile element's attributes declare.
pub open spec fn wangtile_gids_of(attrs: Seq<Attr>) -> Seq<u32> {
    crate::data::csv_gids(
        crate::data::split_commas(vstd::utf8::encode_utf8(attr_value(attrs, "wangid"@)->0)),
    )->0
}

/// Where scanning a `<wangset>` element ends: its color children's
/// attributes (each with the names its properties bind) in declaration
/// order, its tile entries with last-id-wins replacement, the names its
/// last properties child binds, and the position just past the closing
/// tag; or failure.
pub enum WangSetScan {
    Done {
        colors: Seq<(Seq<Attr>, Set<Seq<char>>)>,
        tiles: Seq<(u32, Seq<u32>)>,
        prop_keys: Set<Seq<char>>,
        next: int,
    },
    Failed,
}

/// Scans a wangset element's children from `pos`, as the parser routes
/// them.
pub open spec fn wangset_scan(
    events: Seq<XmlEvent>,
    pos: int,
    cs: Seq<(Seq<Attr>, Set<Seq<char>>)>,
    ts: Seq<(u32, Seq<u32>)>,
    pk: Set<Seq<char>>,
) -> WangSetScan
    decreases events.len() - pos,
{
    if pos < 0 || pos >= events.len() {
        WangSetScan::Failed
    } else {
        match events[pos] {
            XmlEvent::Start { name, attrs } => if name@ == "wangcolor"@ {
                if wangcolor_attrs_ok(attrs@) {
                    match wangcolor_scan(events, pos + 1, Set::empty()) {
                        WangColorScan::Done { prop_keys, next } => wangset_scan(
                            events,
                            crate::properties::clamp_pos(events, pos + 1, next),
                            cs.push((attrs@, prop_keys)),
                            ts,
                            pk,
                        ),
                        WangColorScan::Failed => WangSetScan::Failed,
                    }
                } else {
                    WangSetScan::Failed
                }
            } else if name@ == "wangtile"@ {
                if wangtile_attrs_ok(attrs@) {
                    wangset_scan(
                        events,
                        pos + 1,
                        cs,
                        upsert_wang_spec(ts, wangtile_id_of(attrs@), wangtile_gids_of(attrs@)),
                        pk,
                    )
                } else {
                    WangSetScan::Failed
                }
            } else if name@ == "properties"@ {
                match crate::properties::props_keys(events, pos + 1, Set::empty()) {
                    crate::properties::KeysScan::Done { keys, next } => wangset_scan(
                        events,
                        crate::properties::clamp_pos(events, pos + 1, next),
                        cs,
                        ts,
                        keys,
                    ),
                    crate::properties::KeysScan::Failed => WangSetScan::Failed,
                }
            } else {
                wangset_scan(events, pos + 1, cs, ts, pk)
            },
            XmlEvent::Empty { name, attrs } => if name@ == "wangcolor"@ {
                if wangcolor_attrs_ok(attrs@) {
                    wangset_scan(events, pos + 1, cs.push((attrs@, Set::empty())), ts, pk)
                } else {
                    WangSetScan::Failed
                }
            } else if name@ == "wangtile"@ {
                if wangtile_attrs_ok(attrs@) {
                    wangset_scan(
                        events,
                        pos + 1,
                        cs,
                        upsert_wang_spec(ts, wangtile_id_of(attrs@), wangtile_gids_of(attrs@)),
                        pk,
                    )
                } else {
                    WangSetScan::Failed
                }
            } else if name@ == "properties"@ {
                wangset_scan(events, pos + 1, cs, ts, Set::empty())
            } else {
                wangset_scan(events, pos + 1, cs, ts, pk)
            },
            XmlEvent::End { name } => if name@ == "wangset"@ {
                WangSetScan::Done { colors: cs, tiles: ts, prop_keys: pk, next: pos + 1 }
            } else {
                wangset_scan(events, pos + 1, cs, ts, pk)
            },
            XmlEvent::Eof => WangSetScan::Failed,
            _ => wangset_scan(events, pos + 1, cs, ts, pk),
        }
    }
}

/// Replaces the entry under a tile id, or appends a new one, keeping each
/// id at most once.
fn upsert_wang_tile(tiles: &mut Vec<(u32, WangTile)>, id: u32, t: WangTile)
    requires
        forall|a: int, b: int|
            0 <= a < b < old(tiles)@.len() ==> #[trigger] old(tiles)@[a].0 != #[trigger] old(
                tiles,
            )@[b].0,
    ensures
        forall|a: int, b: int|
            0 <= a < b < final(tiles)@.len() ==> #[trigger] final(tiles)@[a].0
                != #[trigger] final(tiles)@[b].0,
        forall|ss: Seq<(u32, Seq<u32>)>|
            wang_tiles_match(old(tiles)@, ss) ==> wang_tiles_match(
                final(tiles)@,
                #[trigger] upsert_wang_spec(ss, id, t.wang_id@),
            ),
{
    let mut i: usize = 0;
    while i < tiles.len()
        invariant
            i <= tiles@.len(),
            *tiles == *old(tiles),
            forall|a: int, b: int|
                0 <= a < b < old(tiles)@.len() ==> #[trigger] old(tiles)@[a].0 != #[trigger] old(
                    tiles,
                )@[b].0,
            forall|k: int| 0 <= k < i ==> #[trigger] tiles@[k].0 != id,
        decreases tiles@.len() - i,
    {
        if tiles[i].0 == id {
            tiles.set(i, (id, t));
            proof {
                assert forall|a: int, b: int|
                    0 <= a < b < tiles@.len() implies #[trigger] tiles@[a].0
                    != #[trigger] tiles@[b].0 by {
                    assert(old(tiles)@[a].0 != old(tiles)@[b].0);
                }
                assert forall|ss: Seq<(u32, Seq<u32>)>|
                    wang_tiles_match(old(tiles)@, ss) implies wang_tiles_match(
                    tiles@,
                    #[trigger] upsert_wang_spec(ss, id, t.wang_id@),
                ) by {
                    assert forall|k: int| 0 <= k < i implies (#[trigger] ss[k]).0 != id by {
                        assert(old(tiles)@[k].0 != id);
                        assert(ss[k].0 == old(tiles)@[k].0);
                    }
                    assert(ss[i as int].0 == old(tiles)@[i as int].0);
                    lemma_upsert_at(ss, id, t.wang_id@, i as int);
                }
            }
            return ;
        }
        i = i + 1;
    }
    tiles.push((id, t));
    proof {
        assert forall|a: int, b: int|
            0 <= a < b < tiles@.len() implies #[trigger] tiles@[a].0 != #[trigger] tiles@[b].0 by {
            if b < tiles@.len() - 1 {
                assert(old(tiles)@[a].0 != old(tiles)@[b].0);
            }
        }
        assert forall|ss: Seq<(u32, Seq<u32>)>|
            wang_tiles_match(old(tiles)@, ss) implies wang_tiles_match(
            tiles@,
            #[trigger] upsert_wang_spec(ss, id, t.wang_id@),
        ) by {
            assert forall|k: int| 0 <= k < ss.len() implies (#[trigger] ss[k]).0 != id by {
                assert(old(tiles)@[k].0 != id);
                assert(ss[k].0 == old(tiles)@[k].0);
            }
            lemma_upsert_absent(ss, id, t.wang_id@);
        }
    }
}

impl WangSet {
    /// Every Wang tile id is held at most once.
    pub open spec fn tiles_unique(self) -> bool {
        forall|a: int, b: int|
            0 <= a < b < self.wang_tiles@.len() ==> #[trigger] self.wang_tiles@[a].0
                != #[trigger] self.wang_tiles@[b].0
    }

    /// Reads one `<wangset>` element: its name, type and representative
    /// tile, then its colors, tiles and properties in document order.
    pub fn new(parser: &mut Parser, attrs: Vec<Attr>) -> (r: Result<WangSet, Error>)
        requires
            old(parser).wf(),
        ensures
            final(parser).wf(),
            final(parser).events == old(parser).events,
            old(parser).pos <= final(parser).pos,
        old(parser).last_event_was_empty ==> (final(parser).pos == old(parser).pos && (r is Ok
            <==> wangset_attrs_ok(attrs@)) && (r matches Ok(w) ==> w.wang_colors@.len() == 0
            && w.wang_tiles@.len() == 0 && w.properties.entries@.len() == 0)),
        (!old(parser).last_event_was_empty && r matches Ok(_)) ==> (final(parser).pos
            > old(parser).pos && (old(parser).token_at(final(parser).pos - 1)
            matches XmlEvent::End { name: nm } && nm@ == "wangset"@)),
            r matches Ok(w) ==> w.properties.keys_unique() && w.tiles_unique(),
            attr_value(attrs@, "name"@) is None ==> (r matches Err(e) && e
                matches Error::MalformedAttributes(_)),
            !old(parser).last_event_was_empty ==> match wangset_scan(
                old(parser).events@,
                old(parser).pos as int,
                Seq::empty(),
                Seq::empty(),
                Set::empty(),
            ) {
                WangSetScan::Done { colors, tiles, prop_keys, next } => ((r is Ok
                    <==> wangset_attrs_ok(attrs@)) && (r matches Ok(w) ==> (final(parser).pos
                    == next && w.wang_colors@.len() == colors.len() && (forall|i: int|
                    0 <= i < colors.len() ==> wangcolor_from_attrs(
                        colors[i].0,
                        #[trigger] w.wang_colors@[i],
                    ) && w.wang_colors@[i].properties@.dom() == colors[i].1)
                    && wang_tiles_match(w.wang_tiles@, tiles) && w.properties@.dom()
                    == prop_keys))),
                WangSetScan::Failed => (wangset_attrs_ok(attrs@) ==> r is Err),
            },
            r matches Ok(w) ==> ({
                &&& attr_value(attrs@, "name"@) matches Some(n) && w.name@ == n
                &&& attr_value(attrs@, "type"@) matches Some(tv) && w.wang_set_type == (if tv
                    == "corner"@ {
                    WangSetType::Corner
                } else if tv == "edge"@ {
                    WangSetType::Edge
                } else {
                    WangSetType::Mixed
                })
                &&& attr_value(attrs@, "tile"@) matches Some(ts)
                    && (crate::text::parse_i64_spec(vstd::utf8::encode_utf8(ts)) matches Some(ti)
                    && w.tile == (if 0 <= ti <= 0xFFFF_FFFFi64 {
                    Some(ti as u32)
                } else {
                    None::<u32>
                }))
            }),
    {
        let name = match crate::xml::req_attr_string(&attrs, "name") {
            Ok(v) => v,
            Err(e) => {
                return Err(e);
            },
        };
        let type_text = match crate::xml::req_attr_string(&attrs, "type") {
            Ok(v) => v,
            Err(e) => {
                return Err(e);
            },
        };
        let wang_set_type = if crate::xml::string_eq_str(&type_text, "corner") {
            WangSetType::Corner
        } else if crate::xml::string_eq_str(&type_text, "edge") {
            WangSetType::Edge
        } else {
            WangSetType::Mixed
        };
        let tile_raw = match crate::xml::req_attr_i64(&attrs, "tile") {
            Ok(v) => v,
            Err(e) => {
                return Err(e);
            },
        };
        let tile: Option<u32> = if tile_raw >= 0 && tile_raw <= 0xFFFF_FFFF {
            Some(tile_raw as u32)
        } else {
            None
        };
        let mut wang_colors: Vec<WangColor> = Vec::new();
        let mut wang_tiles: Vec<(u32, WangTile)> = Vec::new();
        let mut properties = Properties::new();
        let ghost mut g_colors: Seq<(Seq<Attr>, Set<Seq<char>>)> = Seq::empty();
        let ghost mut g_tiles: Seq<(u32, Seq<u32>)> = Seq::empty();
        proof {
            assert(properties@.dom() =~= Set::<Seq<char>>::empty());
        }
        if !parser.last_event_was_empty {
            loop
                invariant_except_break
                    wangset_scan(
                        parser.events@,
                        old(parser).pos as int,
                        Seq::empty(),
                        Seq::empty(),
                        Set::empty(),
                    ) == wangset_scan(
                        parser.events@,
                        parser.pos as int,
                        g_colors,
                        g_tiles,
                        properties@.dom(),
                    ),
                invariant
                    !old(parser).last_event_was_empty,
                    parser.wf(),
                    parser.events == old(parser).events,
                    old(parser).pos <= parser.pos,
                    properties.keys_unique(),
                    wangset_attrs_ok(attrs@),
                    wang_colors@.len() == g_colors.len(),
                    forall|i: int|
                        0 <= i < g_colors.len() ==> wangcolor_from_attrs(
                            g_colors[i].0,
                            #[trigger] wang_colors@[i],
                        ) && wang_colors@[i].properties@.dom() == g_colors[i].1,
                    wang_tiles_match(wang_tiles@, g_tiles),
                    forall|a: int, b: int|
                        0 <= a < b < wang_tiles@.len() ==> #[trigger] wang_tiles@[a].0
                            != #[trigger] wang_tiles@[b].0,
                ensures
                    old(parser).pos < parser.pos,
                    (old(parser).token_at(parser.pos - 1) matches XmlEvent::End { name: nm }
                        && nm@ == "wangset"@),
                    wangset_scan(
                        parser.events@,
                        old(parser).pos as int,
                        Seq::empty(),
                        Seq::empty(),
                        Set::empty(),
                    ) == (WangSetScan::Done {
                        colors: g_colors,
                        tiles: g_tiles,
                        prop_keys: properties@.dom(),
                        next: parser.pos as int,
                    }),
                    wang_colors@.len() == g_colors.len(),
                    forall|i: int|
                        0 <= i < g_colors.len() ==> wangcolor_from_attrs(
                            g_colors[i].0,
                            #[trigger] wang_colors@[i],
                        ) && wang_colors@[i].properties@.dom() == g_colors[i].1,
                    wang_tiles_match(wang_tiles@, g_tiles),
                    properties.keys_unique(),
                    forall|a: int, b: int|
                        0 <= a < b < wang_tiles@.len() ==> #[trigger] wang_tiles@[a].0
                            != #[trigger] wang_tiles@[b].0,
                decreases parser.remaining(),
            {
                let ev = parser.read_event();
                match ev {
                    XmlEvent::Start { name: n, attrs: a } | XmlEvent::Empty { name: n, attrs: a } => {
                        if crate::xml::string_eq_str(&n, "wangcolor") {
                            let ghost gattrs = a@;
                            match WangColor::new(parser, a) {
                                Ok(c) => {
                                    let ghost ckeys = c.properties@.dom();
                                    wang_colors.push(c);
                                    proof {
                                        g_colors = g_colors.push((gattrs, ckeys));
                                    }
                                },
                                Err(e) => {
                                    return Err(e);
                                },
                            }
                        } else if crate::xml::string_eq_str(&n, "wangtile") {
                            let ghost gattrs = a@;
                            match WangTile::new(a) {
                                Ok((id, t)) => {
                                    let ghost wid = t.wang_id@;
                                    upsert_wang_tile(&mut wang_tiles, id, t);
                                    proof {
                                        g_tiles = upsert_wang_spec(g_tiles, id, wid);
                                    }
                                },
                                Err(e) => {
                                    return Err(e);
                                },
                            }
                        } else if crate::xml::string_eq_str(&n, "properties") {
                            match crate::properties::parse_properties(parser) {
                                Ok(p) => {
                                    properties = p;
                                },
                                Err(e) => {
                                    return Err(e);
                                },
                            }
                        }
                    },
                    XmlEvent::End { name: n } => {
                        if crate::xml::string_eq_str(&n, "wangset") {
                            break ;
                        }
                    },
                    XmlEvent::Eof => {
                        return Err(
                            Error::PrematureEnd(String::from_str("wangset element never closed")),
                        );
                    },
                    _ => {},
                }
            }
        }
        Ok(WangSet { name, wang_set_type, tile, wang_colors, wang_tiles, properties })
    }
}

} // verus!
