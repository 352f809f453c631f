//! Tile animations: per-frame records and the `<animation>` element parser.
//! The frame sequence keeps exact declaration order.

use crate::error::Error;
use crate::text::parse_u32_spec;
use crate::xml::{attr_value, Attr, Parser, XmlEvent};
use vstd::prelude::*;
use vstd::utf8::encode_utf8;

verus! {

/// One frame of a tile animation: the local tile id shown and for how many
/// milliseconds.
#[derive(Debug, PartialEq, Eq, Clone, Copy, Structural)]
pub struct Frame {
    /// The local id of a tile within the parent tileset.
    pub tile_id: u32,
    /// How long this frame is displayed before the next one.
    pub duration: u32,
}

/// What a frame element's attributes denote: both `tileid` and `duration`
/// present and parsed as unsigned 32-bit decimals.
pub open spec fn frame_spec(attrs: Seq<Attr>) -> Option<Frame> {
    match (attr_value(attrs, "tileid"@), attr_value(attrs, "duration"@)) {
        (Some(t), Some(d)) => match (
            parse_u32_spec(encode_utf8(t)),
            parse_u32_spec(encode_utf8(d)),
        ) {
            (Some(tile_id), Some(duration)) => Some(Frame { tile_id, duration }),
            _ => None,
        },
        _ => None,
    }
}

impl Frame {
    /// Builds a frame from a frame element's attributes.
    pub fn new(attrs: Vec<Attr>) -> (r: Result<Frame, Error>)
        ensures
            match frame_spec(attrs@) {
                Some(f) => r == Ok::<Frame, Error>(f),
                None => r matches Err(e) && e matches Error::MalformedAttributes(_),
            },
    {
        let tile_id = match crate::xml::req_attr_u32(&attrs, "tileid") {
            Ok(v) => v,
            Err(e) => {
                return Err(e);
            },
        };
        let duration = match crate::xml::req_attr_u32(&attrs, "duration") {
            Ok(v) => v,
            Err(e) => {
                return Err(e);
            },
        };
        Ok(Frame { tile_id, duration })
    }
}

/// The frame sequence an `<animation>` element's tokens denote from `pos`:
/// each frame child in document order, through the closing tag; `None` when
/// a frame is malformed or input ends first.
pub open spec fn frames_from(events: Seq<XmlEvent>, pos: int) -> Option<(Seq<Frame>, int)>
    decreases events.len() - pos,
{
    if pos < 0 || pos >= events.len() {
        None
    } else {
        match events[pos] {
            XmlEvent::Start { name, attrs } | XmlEvent::Empty { name, attrs } => if name@
                == "frame"@ {
                match frame_spec(attrs@) {
                    Some(f) => match frames_from(events, pos + 1) {
                        Some((rest, nx)) => Some((seq![f] + rest, nx)),
                        None => None,
                    },
                    None => None,
                }
            } else {
                frames_from(events, pos + 1)
            },
            XmlEvent::End { name } => if name@ == "animation"@ {
                Some((Seq::empty(), pos + 1))
            } else {
                frames_from(events, pos + 1)
            },
            XmlEvent::Eof => None,
            _ => frames_from(events, pos + 1),
        }
    }
}

/// Parses an `<animation>` element into its frames, in the exact order they
/// are declared. A self-closing element has no frames.
pub fn parse_animation(parser: &mut Parser) -> (r: Result<Vec<Frame>, Error>)
    requires
        old(parser).wf(),
    ensures
        final(parser).wf(),
        final(parser).events == old(parser).events,
        old(parser).pos <= final(parser).pos,
        old(parser).last_event_was_empty ==> (r matches Ok(v) && v@ =~= Seq::<Frame>::empty()
            && final(parser).pos == old(parser).pos),
        !old(parser).last_event_was_empty ==> match frames_from(
            old(parser).events@,
            old(parser).pos as int,
        ) {
            Some((fs, nx)) => r matches Ok(v) && v@ == fs && final(parser).pos == nx,
            None => r is Err,
        },
{
    let mut animation: Vec<Frame> = Vec::new();
    if parser.last_event_was_empty {
        return Ok(animation);
    }
    loop
        invariant
            !old(parser).last_event_was_empty,
            parser.wf(),
            parser.events == old(parser).events,
            old(parser).pos <= parser.pos,
            match frames_from(parser.events@, parser.pos as int) {
                Some((rest, nx)) => frames_from(old(parser).events@, old(parser).pos as int)
                    == Some((animation@ + rest, nx)),
                None => frames_from(old(parser).events@, old(parser).pos as int) is None,
            },
        decreases parser.remaining(),
    {
        let ev = parser.read_event();
        match ev {
            XmlEvent::Start { name, attrs } | XmlEvent::Empty { name, attrs } => {
                if crate::xml::string_eq_str(&name, "frame") {
                    match Frame::new(attrs) {
                        Ok(f) => {
                            animation.push(f);
                            proof {
                                match frames_from(parser.events@, parser.pos as int) {
                                    Some((rest, nx)) => {
                                        assert(animation@ + rest =~= animation@.drop_last() + (
                                        seq![f] + rest));
                                    },
                                    None => {},
                                }
                            }
                        },
                        Err(e) => {
                            return Err(e);
                        },
                    }
                }
            },
            XmlEvent::End { name } => {
                if crate::xml::string_eq_str(&name, "animation") {
                    proof {
                        assert(animation@ + Seq::<Frame>::empty() =~= animation@);
                    }
                    return Ok(animation);
                }
            },
            XmlEvent::Eof => {
                return Err(
                    Error::PrematureEnd(String::from_str("animation element never closed")),
                );
            },
            _ => {},
        }
    }
}

} // verus!
