//! Templates: a reusable object definition with an optional tileset
//! reference, loaded once per canonical path and shared through the cache.

use crate::cache::{cache_extends, share_arc, ResourceCache, ResourceReader};
use crate::error::Error;
use crate::gid::MapTilesetGid;
use crate::objects::ObjectData;
use crate::tileset::{EmbeddedParseResultType, Tileset};
use crate::xml::{Attr, Parser, XmlEvent};
use std::sync::Arc;
use vstd::prelude::*;

verus! {

broadcast use crate::cache::lemma_cache_extends_trans;

/// A reusable object definition bundled with an optional tileset
/// reference, shareable across maps; loaded once per canonical path.
#[derive(Debug, PartialEq)]
pub struct Template {
    /// The tileset this template references, if any.
    pub tileset: Option<Arc<Tileset>>,
    /// The object data this template defines.
    pub object: ObjectData,
}

/// Where scanning a `<template>` element ends: its object children's
/// attributes (each with the names its properties bind) in declaration
/// order and the position just past the closing tag; failure; or unknown,
/// when a tileset is embedded in place (whose extent this scan does not
/// follow).
pub enum TemplateScan {
    Done { objs: Seq<(Seq<Attr>, Set<Seq<char>>)>, next: int },
    Failed,
    Unknown,
}

/// Scans a template element's children from `pos`, as the parser routes
/// them: objects are collected, external tileset references are skipped to
/// their closing tag, and an embedded tileset makes the scan give up.
pub open spec fn template_scan(
    events: Seq<XmlEvent>,
    pos: int,
    os: Seq<(Seq<Attr>, Set<Seq<char>>)>,
) -> TemplateScan
    decreases events.len() - pos,
{
    if pos < 0 || pos >= events.len() {
        TemplateScan::Failed
    } else {
        match events[pos] {
            XmlEvent::Start { name, attrs } => if name@ == "object"@ {
                match crate::objects::object_scan(events, pos + 1, Set::empty()) {
                    crate::objects::ObjectScan::Done { prop_keys, next } => template_scan(
                        events,
                        crate::properties::clamp_pos(events, pos + 1, next),
                        os.push((attrs@, prop_keys)),
                    ),
                    crate::objects::ObjectScan::Failed => TemplateScan::Failed,
                }
            } else if name@ == "tileset"@ {
                if crate::xml::attr_value(attrs@, "source"@) is Some {
                    match crate::xml::close_scan(events, pos + 1, "tileset"@) {
                        Some(nx) => template_scan(
                            events,
                            crate::properties::clamp_pos(events, pos + 1, nx),
                            os,
                        ),
                        None => TemplateScan::Failed,
                    }
                } else {
                    TemplateScan::Unknown
                }
            } else {
                template_scan(events, pos + 1, os)
            },
            XmlEvent::Empty { name, attrs } => if name@ == "object"@ {
                template_scan(events, pos + 1, os.push((attrs@, Set::empty())))
            } else {
                template_scan(events, pos + 1, os)
            },
            XmlEvent::End { name } => if name@ == "template"@ {
                TemplateScan::Done { objs: os, next: pos + 1 }
            } else {
                template_scan(events, pos + 1, os)
            },
            XmlEvent::Eof => TemplateScan::Failed,
            _ => template_scan(events, pos + 1, os),
        }
    }
}

impl Template {
    /// Reads a template document: obtains its bytes, tokenizes them, and
    /// parses the `<template>` element. A resource-loading failure names
    /// the path of the resource whose read failed, which for resources
    /// referenced from inside the document is the referenced path, not
    /// this one.
    pub fn parse_template<R: ResourceReader>(
        path: &String,
        reader: &mut R,
        cache: &mut ResourceCache,
        depth: u32,
    ) -> (r: Result<Arc<Template>, Error>)
        requires
            old(cache).wf(),
        ensures
            final(cache).wf(),
            cache_extends(*final(cache), *old(cache)),
        decreases depth, 9int,
    {
        let bytes = match reader.read_from(path) {
            Ok(b) => b,
            Err(cause) => {
                return Err(Error::ResourceLoading { path: path.clone(), cause });
            },
        };
        let events = match crate::xml::tokenize(bytes.as_slice()) {
            Ok(e) => e,
            Err(e) => {
                return Err(e);
            },
        };
        let mut parser = Parser::with_reader(events);
        loop
            invariant
                parser.wf(),
                cache.wf(),
                cache_extends(*cache, *old(cache)),
            decreases parser.remaining(),
        {
            let ev = parser.read_event();
            match ev {
                XmlEvent::Start { name, .. } => {
                    if crate::xml::string_eq_str(&name, "template") {
                        return Template::parse_external_template(
                            &mut parser,
                            path,
                            reader,
                            cache,
                            depth,
                        );
                    }
                },
                XmlEvent::Eof => {
                    return Err(
                        Error::PrematureEnd(
                            String::from_str(
                                "document ended before a template element was found",
                            ),
                        ),
                    );
                },
                _ => {},
            }
        }
    }

    /// Parses the children of a `<template>` element: at most one tileset
    /// reference and the one object the template defines.
    pub fn parse_external_template<R: ResourceReader>(
        parser: &mut Parser,
        template_path: &String,
        reader: &mut R,
        cache: &mut ResourceCache,
        depth: u32,
    ) -> (r: Result<Arc<Template>, Error>)
        requires
            old(parser).wf(),
            old(cache).wf(),
        ensures
            final(parser).wf(),
            final(parser).events == old(parser).events,
            old(parser).pos <= final(parser).pos,
        old(parser).last_event_was_empty ==> (final(parser).pos == old(parser).pos && r == (
        if crate::text::parent_spec(template_path@) is None {
            Err::<Arc<Template>, Error>(Error::PathIsNotFile)
        } else {
            Err::<Arc<Template>, Error>(Error::TemplateHasNoObject)
        })),
        (!old(parser).last_event_was_empty && r matches Ok(_)) ==> (final(parser).pos
            > old(parser).pos && (old(parser).token_at(final(parser).pos - 1)
            matches XmlEvent::End { name: nm } && nm@ == "template"@)),
            final(cache).wf(),
            cache_extends(*final(cache), *old(cache)),
            (!old(parser).last_event_was_empty && crate::text::parent_spec(template_path@)
                is Some) ==> match template_scan(
                old(parser).events@,
                old(parser).pos as int,
                Seq::empty(),
            ) {
                TemplateScan::Done { objs, next } => ((r matches Ok(t) ==> (final(parser).pos
                    == next && objs.len() > 0 && crate::objects::object_from_attrs_basic(
                    objs.last().0,
                    crate::text::parent_spec(template_path@)->0,
                    t.object,
                ) && t.object.properties@.dom() == objs.last().1)) && (objs.len() == 0 ==> !(
                r is Ok))),
                TemplateScan::Failed => r is Err,
                TemplateScan::Unknown => true,
            },
        decreases depth, 7int,
    {
        let dir = match crate::text::parent_dir(template_path) {
            Ok(d) => d,
            Err(e) => {
                return Err(e);
            },
        };
        let mut object: Option<ObjectData> = None;
        let mut tileset: Option<Arc<Tileset>> = None;
        let mut tileset_gid: Vec<MapTilesetGid> = Vec::new();
        let ghost mut g_objs: Seq<(Seq<Attr>, Set<Seq<char>>)> = Seq::empty();
        if !parser.last_event_was_empty {
            loop
                invariant_except_break
                    template_scan(parser.events@, old(parser).pos as int, Seq::empty())
                        == template_scan(parser.events@, parser.pos as int, g_objs)
                        || template_scan(parser.events@, old(parser).pos as int, Seq::empty())
                        == TemplateScan::Unknown,
                invariant
                    !old(parser).last_event_was_empty,
                    parser.wf(),
                    parser.events == old(parser).events,
                    old(parser).pos <= parser.pos,
                    cache.wf(),
                    cache_extends(*cache, *old(cache)),
                    crate::text::parent_spec(template_path@) is Some,
                    dir@ == crate::text::parent_spec(template_path@)->0,
                    match object {
                        Some(o) => g_objs.len() > 0 && crate::objects::object_from_attrs_basic(
                            g_objs.last().0,
                            dir@,
                            o,
                        ) && o.properties@.dom() == g_objs.last().1,
                        None => g_objs.len() == 0,
                    },
                ensures
                    old(parser).pos < parser.pos,
                    (old(parser).token_at(parser.pos - 1) matches XmlEvent::End { name: nm }
                        && nm@ == "template"@),
                    template_scan(parser.events@, old(parser).pos as int, Seq::empty()) == (
                    TemplateScan::Done { objs: g_objs, next: parser.pos as int })
                        || template_scan(parser.events@, old(parser).pos as int, Seq::empty())
                        == TemplateScan::Unknown,
                    match object {
                        Some(o) => g_objs.len() > 0 && crate::objects::object_from_attrs_basic(
                            g_objs.last().0,
                            dir@,
                            o,
                        ) && o.properties@.dom() == g_objs.last().1,
                        None => g_objs.len() == 0,
                    },
                decreases parser.remaining(),
            {
                let ghost q: int = parser.pos as int;
                let ev = parser.read_event();
                match ev {
                    XmlEvent::Start { name: n, attrs: a } | XmlEvent::Empty { name: n, attrs: a } => {
                        if crate::xml::string_eq_str(&n, "object") {
                            let ghost gattrs = a@;
                            match ObjectData::new(
                                parser,
                                a,
                                Some(tileset_gid.as_slice()),
                                &dir,
                                reader,
                                cache,
                                depth,
                            ) {
                                Ok(o) => {
                                    let ghost okeys = o.properties@.dom();
                                    proof {
                                        if o.properties.entries@.len() == 0 {
                                            assert(o.properties@.dom() =~= Set::<
                                                Seq<char>,
                                            >::empty());
                                        }
                                    }
                                    object = Some(o);
                                    proof {
                                        g_objs = g_objs.push((gattrs, okeys));
                                    }
                                },
                                Err(e) => {
                                    return Err(e);
                                },
                            }
                        } else if crate::xml::string_eq_str(&n, "tileset") {
                            let ghost gattrs = a@;
                            let res = match Tileset::parse_xml_in_map(
                                parser,
                                &a,
                                template_path,
                                reader,
                                cache,
                                depth,
                            ) {
                                Ok(res) => res,
                                Err(e) => {
                                    return Err(e);
                                },
                            };
                            let ts: Arc<Tileset> = match res.result_type {
                                EmbeddedParseResultType::ExternalReference { tileset_path } => {
                                    match crate::tileset::load_tileset(
                                        &tileset_path,
                                        reader,
                                        cache,
                                        depth,
                                    ) {
                                        Ok(t) => t,
                                        Err(e) => {
                                            return Err(e);
                                        },
                                    }
                                },
                                EmbeddedParseResultType::Embedded { tileset: embedded } => {
                                    Arc::new(embedded)
                                },
                            };
                            tileset = Some(share_arc(&ts));
                            tileset_gid.push(
                                MapTilesetGid { first_gid: res.first_gid, tileset: ts },
                            );
                        }
                    },
                    XmlEvent::End { name: n } => {
                        if crate::xml::string_eq_str(&n, "template") {
                            break ;
                        }
                    },
                    XmlEvent::Eof => {
                        return Err(
                            Error::PrematureEnd(
                                String::from_str("template element never closed"),
                            ),
                        );
                    },
                    _ => {},
                }
            }
        }
        match object {
            Some(o) => Ok(Arc::new(Template { tileset, object: o })),
            None => Err(Error::TemplateHasNoObject),
        }
    }
}

/// Loads a template through the cache: a path already held is returned as
/// the held shared handle with the cache untouched; otherwise the document
/// is read, parsed once, and cached before returning. Hence two loads of
/// one path through one cache yield the same shared handle, and the
/// underlying reader runs at most once for it.
pub fn load_template<R: ResourceReader>(
    path: &String,
    reader: &mut R,
    cache: &mut ResourceCache,
    depth: u32,
) -> (r: Result<Arc<Template>, Error>)
    requires
        old(cache).wf(),
    ensures
        final(cache).wf(),
        cache_extends(*final(cache), *old(cache)),
        old(cache).templates_view().contains_key(path@) ==> (r matches Ok(t) && *t == old(
            cache
        ).templates_view()[path@] && final(cache).templates_view() == old(cache).templates_view()
            && final(cache).tilesets_view() == old(cache).tilesets_view()),
        r matches Ok(t) ==> final(cache).templates_view().contains_key(path@) && final(
            cache
        ).templates_view()[path@] == *t,
    decreases depth, 1int,
{
    match cache.get_template(path) {
        Some(t) => Ok(t),
        None => {
            if depth == 0 {
                return Err(Error::RecursionLimit);
            }
            let t = match Template::parse_template(path, reader, cache, depth - 1) {
                Ok(t) => t,
                Err(e) => {
                    return Err(e);
                },
            };
            match cache.get_template(path) {
                Some(held) => Ok(held),
                None => {
                    cache.insert_template(path.clone(), share_arc(&t));
                    Ok(t)
                },
            }
        },
    }
}

} // verus!
