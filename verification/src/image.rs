//! Image records and the image layer container.

use crate::error::Error;
use crate::properties::Properties;
use crate::xml::{attr_value, Attr, Parser, XmlEvent};
use vstd::prelude::*;

verus! {

/// One referenced image: its path resolved against the referencing
/// document's directory, and its declared size.
#[derive(Debug, PartialEq)]
pub struct Image {
    /// The image path, relative paths resolved against the referencing
    /// document's directory.
    pub source: String,
    pub width: i32,
    pub height: i32,
    /// The color treated as transparent, if one is declared.
    pub transparent_colour: Option<crate::properties::Color>,
}

/// Whether an image element's attributes admit an image record: a source,
/// a width and a height that parse in 32-bit range, and a transparency
/// color that parses when present.
pub open spec fn image_attrs_ok(attrs: Seq<Attr>) -> bool {
    &&& attr_value(attrs, "source"@) is Some
    &&& (attr_value(attrs, "width"@) matches Some(w) && (crate::text::parse_i64_spec(
        vstd::utf8::encode_utf8(w),
    ) matches Some(wv) && -0x8000_0000i64 <= wv <= 0x7FFF_FFFFi64))
    &&& (attr_value(attrs, "height"@) matches Some(h) && (crate::text::parse_i64_spec(
        vstd::utf8::encode_utf8(h),
    ) matches Some(hv) && -0x8000_0000i64 <= hv <= 0x7FFF_FFFFi64))
    &&& (match attr_value(attrs, "trans"@) {
        Some(cv) => crate::properties::color_spec(vstd::utf8::encode_utf8(cv)) is Some,
        None => true,
    })
}

impl Image {
    /// Reads one `<image>` element; the element's own children (if any) are
    /// skipped.
    pub fn new(parser: &mut Parser, attrs: Vec<Attr>, path_relative_to: &String) -> (r: Result<
        Image,
        Error,
    >)
        requires
            old(parser).wf(),
        ensures
            final(parser).wf(),
            final(parser).events == old(parser).events,
            old(parser).pos <= final(parser).pos,
            attr_value(attrs@, "source"@) is None ==> (r matches Err(e) && e
                matches Error::MalformedAttributes(_)),
            old(parser).last_event_was_empty ==> final(parser).pos == old(parser).pos,
            (!old(parser).last_event_was_empty && r matches Ok(_)) ==> (final(parser).pos > old(
                parser
            ).pos && (old(parser).token_at(final(parser).pos - 1) matches XmlEvent::End {
                name: nm,
            } && nm@ == "image"@)),
            r matches Err(e) ==> (e matches Error::MalformedAttributes(_) || e
                matches Error::PrematureEnd(_)),
            (!old(parser).last_event_was_empty && r matches Ok(_)) ==> (crate::xml::close_scan(
                old(parser).events@,
                old(parser).pos as int,
                "image"@,
            ) matches Some(nx) && final(parser).pos == nx),
            r matches Ok(img) ==> (attr_value(attrs@, "source"@) matches Some(s) && img.source@
                == crate::text::join_dir_spec(path_relative_to@, s)),
            r is Ok <==> (image_attrs_ok(attrs@) && (old(parser).last_event_was_empty
                || crate::xml::close_scan(
                old(parser).events@,
                old(parser).pos as int,
                "image"@,
            ) is Some)),
            r matches Ok(img) ==> ({
                &&& attr_value(attrs@, "width"@) matches Some(v) && (crate::text::parse_i64_spec(
                    vstd::utf8::encode_utf8(v),
                ) matches Some(wv) && img.width == wv)
                &&& attr_value(attrs@, "height"@) matches Some(v) && (crate::text::parse_i64_spec(
                    vstd::utf8::encode_utf8(v),
                ) matches Some(hv) && img.height == hv)
                &&& (match attr_value(attrs@, "trans"@) {
                    Some(cv) => crate::properties::color_spec(vstd::utf8::encode_utf8(cv))
                        matches Some(c) && img.transparent_colour == Some(c),
                    None => img.transparent_colour is None,
                })
            }),
    {
        let source_rel = match crate::xml::req_attr_string(&attrs, "source") {
            Ok(v) => v,
            Err(e) => {
                return Err(e);
            },
        };
        let width_raw = match crate::xml::req_attr_i64(&attrs, "width") {
            Ok(v) => v,
            Err(e) => {
                return Err(e);
            },
        };
        let height_raw = match crate::xml::req_attr_i64(&attrs, "height") {
            Ok(v) => v,
            Err(e) => {
                return Err(e);
            },
        };
        if width_raw < -0x8000_0000 || width_raw > 0x7FFF_FFFF || height_raw < -0x8000_0000
            || height_raw > 0x7FFF_FFFF {
            return Err(Error::MalformedAttributes(String::from_str("image size")));
        }
        let transparent_colour = match crate::properties::opt_attr_color(&attrs, "trans") {
            Ok(c) => c,
            Err(e) => {
                return Err(e);
            },
        };
        let source = crate::text::join_dir(path_relative_to, &source_rel);
        if !parser.last_event_was_empty {
            match crate::xml::skip_element(parser, "image") {
                Ok(()) => {},
                Err(e) => {
                    return Err(e);
                },
            }
        }
        Ok(
            Image {
                source,
                width: width_raw as i32,
                height: height_raw as i32,
                transparent_colour,
            },
        )
    }
}

/// Whether an image record is the one an image element's attributes
/// denote, resolved against the given directory.
pub open spec fn image_from_attrs(attrs: Seq<Attr>, dir: Seq<char>, img: Image) -> bool {
    &&& (attr_value(attrs, "source"@) matches Some(s) && img.source@
        == crate::text::join_dir_spec(dir, s))
    &&& (attr_value(attrs, "width"@) matches Some(v) && (crate::text::parse_i64_spec(
        vstd::utf8::encode_utf8(v),
    ) matches Some(wv) && img.width == wv))
    &&& (attr_value(attrs, "height"@) matches Some(v) && (crate::text::parse_i64_spec(
        vstd::utf8::encode_utf8(v),
    ) matches Some(hv) && img.height == hv))
    &&& (match attr_value(attrs, "trans"@) {
        Some(cv) => crate::properties::color_spec(vstd::utf8::encode_utf8(cv)) matches Some(c)
            && img.transparent_colour == Some(c),
        None => img.transparent_colour is None,
    })
}

/// Where scanning an `<imagelayer>` element ends: the last image child's
/// attributes (if any), the names the last properties child binds, and the
/// position just past the closing tag; or failure.
pub enum ImageLayerScan {
    Done { image_attrs: Option<Seq<Attr>>, prop_keys: Set<Seq<char>>, next: int },
    Failed,
}

/// Scans an image layer's children from `pos`, carrying the last image
/// child's attributes and the last properties child's names; everything
/// else is passed over, as the parser does.
pub open spec fn imagelayer_scan(
    events: Seq<XmlEvent>,
    pos: int,
    img: Option<Seq<Attr>>,
    pk: Set<Seq<char>>,
) -> ImageLayerScan
    decreases events.len() - pos,
{
    if pos < 0 || pos >= events.len() {
        ImageLayerScan::Failed
    } else {
        match events[pos] {
            XmlEvent::Start { name, attrs } => if name@ == "image"@ {
                if image_attrs_ok(attrs@) {
                    match crate::xml::close_scan(events, pos + 1, "image"@) {
                        Some(nx) => imagelayer_scan(
                            events,
                            crate::properties::clamp_pos(events, pos + 1, nx),
                            Some(attrs@),
                            pk,
                        ),
                        None => ImageLayerScan::Failed,
                    }
                } else {
                    ImageLayerScan::Failed
                }
            } else if name@ == "properties"@ {
                match crate::properties::props_keys(events, pos + 1, Set::empty()) {
                    crate::properties::KeysScan::Done { keys, next } => imagelayer_scan(
                        events,
                        crate::properties::clamp_pos(events, pos + 1, next),
                        img,
                        keys,
                    ),
                    crate::properties::KeysScan::Failed => ImageLayerScan::Failed,
                }
            } else {
                imagelayer_scan(events, pos + 1, img, pk)
            },
            XmlEvent::Empty { name, attrs } => if name@ == "image"@ {
                if image_attrs_ok(attrs@) {
                    imagelayer_scan(events, pos + 1, Some(attrs@), pk)
                } else {
                    ImageLayerScan::Failed
                }
            } else if name@ == "properties"@ {
                imagelayer_scan(events, pos + 1, img, Set::empty())
            } else {
                imagelayer_scan(events, pos + 1, img, pk)
            },
            XmlEvent::End { name } => if name@ == "imagelayer"@ {
                ImageLayerScan::Done { image_attrs: img, prop_keys: pk, next: pos + 1 }
            } else {
                imagelayer_scan(events, pos + 1, img, pk)
            },
            XmlEvent::Eof => ImageLayerScan::Failed,
            _ => imagelayer_scan(events, pos + 1, img, pk),
        }
    }
}

/// The raw data of an image layer: the single image it shows, if any.
#[derive(Debug, PartialEq)]
pub struct ImageLayerData {
    /// The single image this layer contains, if it exists.
    pub image: Option<Image>,
}

impl ImageLayerData {
    /// Reads one `<imagelayer>` element: its image and its properties.
    pub fn new(parser: &mut Parser, map_path: &String) -> (r: Result<
        (ImageLayerData, Properties),
        Error,
    >)
        requires
            old(parser).wf(),
        ensures
            final(parser).wf(),
            final(parser).events == old(parser).events,
            old(parser).pos <= final(parser).pos,
        old(parser).last_event_was_empty ==> (final(parser).pos == old(parser).pos && (r is Ok
            <==> crate::text::parent_spec(map_path@) is Some) && (r matches Ok(p) ==> p.0.image
            is None && p.1.entries@.len() == 0)),
        (!old(parser).last_event_was_empty && r matches Ok(_)) ==> (final(parser).pos
            > old(parser).pos && (old(parser).token_at(final(parser).pos - 1)
            matches XmlEvent::End { name: nm } && nm@ == "imagelayer"@)),
            r matches Ok(p) ==> p.1.keys_unique(),
            crate::text::parent_spec(map_path@) is None ==> r == Err::<
                (ImageLayerData, Properties),
                Error,
            >(Error::PathIsNotFile),
            r matches Err(e) ==> (e matches Error::PathIsNotFile <==> crate::text::parent_spec(
                map_path@,
            ) is None),
            (!old(parser).last_event_was_empty && crate::text::parent_spec(map_path@) is Some)
                ==> match imagelayer_scan(
                old(parser).events@,
                old(parser).pos as int,
                None,
                Set::empty(),
            ) {
                ImageLayerScan::Done { image_attrs, prop_keys, next } => r matches Ok(p) && final(
                    parser
                ).pos == next && p.1@.dom() == prop_keys && (match image_attrs {
                    Some(ia) => p.0.image matches Some(im) && image_from_attrs(
                        ia,
                        crate::text::parent_spec(map_path@)->0,
                        im,
                    ),
                    None => p.0.image is None,
                }),
                ImageLayerScan::Failed => r is Err,
            },
    {
        let path_relative_to = match crate::text::parent_dir(map_path) {
            Ok(d) => d,
            Err(e) => {
                return Err(e);
            },
        };
        let mut image: Option<Image> = None;
        let mut properties = Properties::new();
        let ghost mut g_img: Option<Seq<Attr>> = None;
        proof {
            assert(properties@.dom() =~= Set::<Seq<char>>::empty());
        }
        if !parser.last_event_was_empty {
            loop
                invariant_except_break
                    imagelayer_scan(
                        parser.events@,
                        old(parser).pos as int,
                        None,
                        Set::empty(),
                    ) == imagelayer_scan(parser.events@, parser.pos as int, g_img, properties@.dom()),
                invariant
                    !old(parser).last_event_was_empty,
                    parser.wf(),
                    parser.events == old(parser).events,
                    old(parser).pos <= parser.pos,
                    properties.keys_unique(),
                    crate::text::parent_spec(map_path@) is Some,
                    path_relative_to@ == crate::text::parent_spec(map_path@)->0,
                    match g_img {
                        Some(ia) => image matches Some(im) && image_from_attrs(
                            ia,
                            crate::text::parent_spec(map_path@)->0,
                            im,
                        ),
                        None => image is None,
                    },
                ensures
                    old(parser).pos < parser.pos,
                    (old(parser).token_at(parser.pos - 1) matches XmlEvent::End { name: nm }
                        && nm@ == "imagelayer"@),
                    imagelayer_scan(
                        parser.events@,
                        old(parser).pos as int,
                        None,
                        Set::empty(),
                    ) == (ImageLayerScan::Done {
                        image_attrs: g_img,
                        prop_keys: properties@.dom(),
                        next: parser.pos as int,
                    }),
                    match g_img {
                        Some(ia) => image matches Some(im) && image_from_attrs(
                            ia,
                            crate::text::parent_spec(map_path@)->0,
                            im,
                        ),
                        None => image is None,
                    },
                    properties.keys_unique(),
                decreases parser.remaining(),
            {
                let ghost q: int = parser.pos as int;
                let ev = parser.read_event();
                match ev {
                    XmlEvent::Start { name, attrs } | XmlEvent::Empty { name, attrs } => {
                        if crate::xml::string_eq_str(&name, "image") {
                            let ghost gattrs = attrs@;
                            match Image::new(parser, attrs, &path_relative_to) {
                                Ok(img) => {
                                    image = Some(img);
                                    proof {
                                        g_img = Some(gattrs);
                                    }
                                },
                                Err(e) => {
                                    return Err(e);
                                },
                            }
                        } else if crate::xml::string_eq_str(&name, "properties") {
                            match crate::properties::parse_properties(parser) {
                                Ok(p) => {
                                    properties = p;
                                },
                                Err(e) => {
                                    return Err(e);
                                },
                            }
                        }
                    },
                    XmlEvent::End { name } => {
                        if crate::xml::string_eq_str(&name, "imagelayer") {
                            break ;
                        }
                    },
                    XmlEvent::Eof => {
                        return Err(
                            Error::PrematureEnd(
                                String::from_str("imagelayer element never closed"),
                            ),
                        );
                    },
                    _ => {},
                }
            }
        }
        Ok((ImageLayerData { image }, properties))
    }
}

} // verus!
