//! The token source: structural markup tokens, produced by the underlying
//! tokenizer, and the cursor (`Parser`) the recursive-descent parsing logic
//! consumes them through. The tokenizer itself is an outside collaborator;
//! everything downstream of it is verified over the token sequence, whatever
//! tokens it produced.

use crate::error::Error;
use crate::text::trim_spec;
use vstd::prelude::*;

verus! {

/// One attribute of a start tag: its name (without namespace prefix) and its
/// raw textual value.
#[derive(Debug, Clone, PartialEq)]
pub struct Attr {
    pub key: String,
    pub value: String,
}

/// One structural token of a document.
#[derive(Debug, Clone, PartialEq)]
pub enum XmlEvent {
    /// `<name attrs...>`
    Start { name: String, attrs: Vec<Attr> },
    /// `<name attrs.../>`
    Empty { name: String, attrs: Vec<Attr> },
    /// `</name>`
    End { name: String },
    /// Character data between tags.
    Text { text: String },
    /// A comment; its content plays no role in parsing.
    Comment,
    /// Any other token kind (declarations, processing instructions, CDATA,
    /// references); parsing ignores these where the format allows it.
    Other,
    /// The end of the document.
    Eof,
}

impl Attr {
    /// An owned copy, equal to the original.
    pub fn dup(&self) -> (r: Attr)
        ensures
            r == *self,
    {
        Attr { key: self.key.clone(), value: self.value.clone() }
    }
}

fn dup_attrs(v: &Vec<Attr>) -> (r: Vec<Attr>)
    ensures
        r@ == v@,
{
    let mut out: Vec<Attr> = Vec::new();
    let mut i: usize = 0;
    while i < v.len()
        invariant
            i <= v@.len(),
            out@ == v@.subrange(0, i as int),
        decreases v@.len() - i,
    {
        out.push(v[i].dup());
        proof {
            assert(out@ =~= v@.subrange(0, i + 1));
        }
        i = i + 1;
    }
    proof {
        assert(out@ =~= v@);
    }
    out
}

/// Two tokens that carry the same content: equal in every field, with
/// attribute lists compared by their element sequences.
pub open spec fn ev_like(a: XmlEvent, b: XmlEvent) -> bool {
    match (a, b) {
        (XmlEvent::Start { name: n1, attrs: a1 }, XmlEvent::Start { name: n2, attrs: a2 }) => n1
            == n2 && a1@ == a2@,
        (XmlEvent::Empty { name: n1, attrs: a1 }, XmlEvent::Empty { name: n2, attrs: a2 }) => n1
            == n2 && a1@ == a2@,
        _ => a == b,
    }
}

impl XmlEvent {
    /// An owned copy, carrying the same content as the original.
    pub fn dup(&self) -> (r: XmlEvent)
        ensures
            ev_like(r, *self),
    {
        match self {
            XmlEvent::Start { name, attrs } => XmlEvent::Start {
                name: name.clone(),
                attrs: dup_attrs(attrs),
            },
            XmlEvent::Empty { name, attrs } => XmlEvent::Empty {
                name: name.clone(),
                attrs: dup_attrs(attrs),
            },
            XmlEvent::End { name } => XmlEvent::End { name: name.clone() },
            XmlEvent::Text { text } => XmlEvent::Text { text: text.clone() },
            XmlEvent::Comment => XmlEvent::Comment,
            XmlEvent::Other => XmlEvent::Other,
            XmlEvent::Eof => XmlEvent::Eof,
        }
    }
}

/// Whether a text token is blank: nothing is left of it after trimming the
/// format's whitespace from its UTF-8 bytes.
pub open spec fn is_blank(s: Seq<char>) -> bool {
    trim_spec(vstd::utf8::encode_utf8(s)) == Seq::<u8>::empty()
}

/// Decides whether a string is blank (whitespace only, or empty).
pub fn text_is_blank(s: &String) -> (b: bool)
    ensures
        b == is_blank(s@),
{
    let bytes: &[u8] = s.as_str().as_bytes();
    let (lo, hi) = crate::text::trim_bounds(bytes);
    proof {
        if lo == hi {
            assert(bytes@.subrange(lo as int, hi as int) =~= Seq::<u8>::empty());
        } else {
            assert(trim_spec(bytes@).len() == hi - lo);
        }
    }
    lo == hi
}

/// Compares a string against a literal.
pub fn string_eq_str(s: &String, lit: &str) -> (b: bool)
    ensures
        b == (s@ == lit@),
{
    let l: String = lit.to_owned();
    s.eq(&l)
}

/// The value of the last attribute with the given name, as the attribute
/// extraction helper sees it: a later occurrence of the same name wins.
pub open spec fn attr_value(attrs: Seq<Attr>, key: Seq<char>) -> Option<Seq<char>>
    decreases attrs.len(),
{
    if attrs.len() == 0 {
        None
    } else if attrs.last().key@ == key {
        Some(attrs.last().value@)
    } else {
        attr_value(attrs.drop_last(), key)
    }
}

/// Looks an attribute up by name; the last occurrence wins.
pub fn find_attr<'a>(attrs: &'a Vec<Attr>, key: &str) -> (r: Option<&'a String>)
    ensures
        match r {
            Some(v) => attr_value(attrs@, key@) == Some(v@),
            None => attr_value(attrs@, key@) is None,
        },
{
    let mut idx: usize = attrs.len();
    proof {
        assert(attrs@.subrange(0, attrs@.len() as int) =~= attrs@);
    }
    while idx > 0
        invariant
            idx <= attrs@.len(),
            attr_value(attrs@, key@) == attr_value(attrs@.subrange(0, idx as int), key@),
        decreases idx,
    {
        idx = idx - 1;
        proof {
            assert(attrs@.subrange(0, idx + 1).last() == attrs@[idx as int]);
            assert(attrs@.subrange(0, idx + 1).drop_last() =~= attrs@.subrange(0, idx as int));
        }
        if string_eq_str(&attrs[idx].key, key) {
            return Some(&attrs[idx].value);
        }
    }
    proof {
        assert(attrs@.subrange(0, 0) =~= Seq::<Attr>::empty());
    }
    None
}

/// The value of a required string attribute, or the malformed-attributes
/// failure naming it.
pub fn req_attr_string(attrs: &Vec<Attr>, key: &str) -> (r: Result<String, Error>)
    ensures
        match r {
            Ok(v) => attr_value(attrs@, key@) == Some(v@),
            Err(e) => attr_value(attrs@, key@) is None && e matches Error::MalformedAttributes(_),
        },
{
    match find_attr(attrs, key) {
        Some(v) => Ok(v.clone()),
        None => Err(Error::MalformedAttributes(key.to_owned())),
    }
}

/// The value of an optional string attribute.
pub fn opt_attr_string(attrs: &Vec<Attr>, key: &str) -> (r: Option<String>)
    ensures
        match r {
            Some(v) => attr_value(attrs@, key@) == Some(v@),
            None => attr_value(attrs@, key@) is None,
        },
{
    match find_attr(attrs, key) {
        Some(v) => Some(v.clone()),
        None => None,
    }
}

/// A required unsigned attribute: missing, or present but not a 32-bit
/// unsigned decimal, is the malformed-attributes failure.
pub fn req_attr_u32(attrs: &Vec<Attr>, key: &str) -> (r: Result<u32, Error>)
    ensures
        match attr_value(attrs@, key@) {
            Some(s) => match crate::text::parse_u32_spec(vstd::utf8::encode_utf8(s)) {
                Some(v) => r == Ok::<u32, Error>(v),
                None => r matches Err(e) && e matches Error::MalformedAttributes(_),
            },
            None => r matches Err(e) && e matches Error::MalformedAttributes(_),
        },
{
    match find_attr(attrs, key) {
        Some(v) => match crate::text::parse_u32_bytes(v.as_str().as_bytes()) {
            Some(n) => Ok(n),
            None => Err(Error::MalformedAttributes(key.to_owned())),
        },
        None => Err(Error::MalformedAttributes(key.to_owned())),
    }
}

/// An optional unsigned attribute: present but not a 32-bit unsigned
/// decimal is the malformed-attributes failure.
pub fn opt_attr_u32(attrs: &Vec<Attr>, key: &str) -> (r: Result<Option<u32>, Error>)
    ensures
        match attr_value(attrs@, key@) {
            Some(s) => match crate::text::parse_u32_spec(vstd::utf8::encode_utf8(s)) {
                Some(v) => r == Ok::<Option<u32>, Error>(Some(v)),
                None => r matches Err(e) && e matches Error::MalformedAttributes(_),
            },
            None => r == Ok::<Option<u32>, Error>(None),
        },
{
    match find_attr(attrs, key) {
        Some(v) => match crate::text::parse_u32_bytes(v.as_str().as_bytes()) {
            Some(n) => Ok(Some(n)),
            None => Err(Error::MalformedAttributes(key.to_owned())),
        },
        None => Ok(None),
    }
}

/// A required signed 64-bit attribute, as tile references use it.
pub fn req_attr_i64(attrs: &Vec<Attr>, key: &str) -> (r: Result<i64, Error>)
    ensures
        match attr_value(attrs@, key@) {
            Some(s) => match crate::text::parse_i64_spec(vstd::utf8::encode_utf8(s)) {
                Some(v) => r == Ok::<i64, Error>(v),
                None => r matches Err(e) && e matches Error::MalformedAttributes(_),
            },
            None => r matches Err(e) && e matches Error::MalformedAttributes(_),
        },
{
    match find_attr(attrs, key) {
        Some(v) => match crate::text::parse_i64_bytes(v.as_str().as_bytes()) {
            Some(n) => Ok(n),
            None => Err(Error::MalformedAttributes(key.to_owned())),
        },
        None => Err(Error::MalformedAttributes(key.to_owned())),
    }
}

/// The position just past the first matching closing tag at or after
/// `pos`; `None` when input ends first.
pub open spec fn close_scan(events: Seq<XmlEvent>, pos: int, close: Seq<char>) -> Option<int>
    decreases events.len() - pos,
{
    if pos < 0 || pos >= events.len() {
        None
    } else {
        match events[pos] {
            XmlEvent::End { name } => if name@ == close {
                Some(pos + 1)
            } else {
                close_scan(events, pos + 1, close)
            },
            XmlEvent::Eof => None,
            _ => close_scan(events, pos + 1, close),
        }
    }
}

/// Skips the rest of an element: reads and ignores everything until the
/// named closing tag, succeeding exactly when one arrives before the end
/// of input; input ending first is the premature-end failure.
pub fn skip_element(parser: &mut Parser, close: &str) -> (r: Result<(), Error>)
    requires
        old(parser).wf(),
    ensures
        final(parser).wf(),
        final(parser).events == old(parser).events,
        old(parser).pos <= final(parser).pos,
        match close_scan(old(parser).events@, old(parser).pos as int, close@) {
            Some(nx) => r matches Ok(_) && final(parser).pos == nx,
            None => r matches Err(e) && e matches Error::PrematureEnd(_),
        },
        r matches Ok(_) ==> (final(parser).pos > old(parser).pos && (old(
            parser
        ).token_at(final(parser).pos - 1) matches XmlEvent::End { name: nm } && nm@ == close@)),
{
    loop
        invariant
            parser.wf(),
            parser.events == old(parser).events,
            old(parser).pos <= parser.pos,
            close_scan(old(parser).events@, old(parser).pos as int, close@) == close_scan(
                parser.events@,
                parser.pos as int,
                close@,
            ),
        decreases parser.remaining(),
    {
        let ev = parser.read_event();
        match ev {
            XmlEvent::End { name } => {
                if string_eq_str(&name, close) {
                    return Ok(());
                }
            },
            XmlEvent::Eof => {
                return Err(Error::PrematureEnd(String::from_str("element never closed")));
            },
            _ => {},
        }
    }
}

#[verifier::external_type_specification]
#[verifier::external_body]
#[verifier::reject_recursive_types(R)]
pub struct ExXmlReader<R>(quick_xml::Reader<R>);

#[verifier::external_type_specification]
#[verifier::external_body]
pub struct ExBytesStart<'a>(quick_xml::events::BytesStart<'a>);

/// Relies on quick_xml::reader::Reader::from_reader: builds a tokenizer over
/// an in-memory byte slice, with the default configuration (text is not
/// trimmed, end names are checked).
#[verifier::external_body]
fn xml_reader<'a>(bytes: &'a [u8]) -> quick_xml::Reader<&'a [u8]> {
    quick_xml::Reader::from_reader(bytes)
}

/// Relies on quick_xml::events::BytesStart::local_name and
/// BytesStart::attributes: the tag name without its namespace prefix, and
/// the attribute list in document order (an ill-formed attribute is the
/// tokenizer's error).
#[verifier::external_body]
fn conv_start(s: &quick_xml::events::BytesStart<'_>, empty: bool) -> (r: Result<XmlEvent, String>) {
    let name = s.local_name().into_inner().to_string();
    let mut attrs: Vec<Attr> = Vec::new();
    for a in s.attributes() {
        match a {
            Ok(a) => attrs.push(
                Attr { key: a.key.local_name().into_inner().to_string(), value: a.value.into_owned() },
            ),
            Err(e) => return Err(e.to_string()),
        }
    }
    Ok(if empty { XmlEvent::Empty { name, attrs } } else { XmlEvent::Start { name, attrs } })
}

/// Relies on quick_xml::reader::Reader::read_event: the document's next raw
/// token, `Eof` once input is exhausted, or the tokenizer's error for
/// malformed markup.
#[verifier::external_body]
fn read_token<'a>(rd: &mut quick_xml::Reader<&'a [u8]>) -> (r: Result<XmlEvent, String>) {
    match rd.read_event() {
        Ok(quick_xml::events::Event::Start(s)) => conv_start(&s, false),
        Ok(quick_xml::events::Event::Empty(s)) => conv_start(&s, true),
        Ok(quick_xml::events::Event::End(e)) => Ok(
            XmlEvent::End { name: e.local_name().into_inner().to_string() },
        ),
        Ok(quick_xml::events::Event::Text(t)) => Ok(XmlEvent::Text { text: t.into_inner().into_owned() }),
        Ok(quick_xml::events::Event::Comment(_)) => Ok(XmlEvent::Comment),
        Ok(quick_xml::events::Event::Eof) => Ok(XmlEvent::Eof),
        Ok(_) => Ok(XmlEvent::Other),
        Err(e) => Err(e.to_string()),
    }
}

/// Turns a document's bytes into its token sequence, stopping at the end of
/// input. A tokenizer failure surfaces as a token-decoding error. Every
/// non-terminal token consumes input, so the stream is bounded by the input
/// length; a tokenizer that kept yielding tokens past that bound would be
/// reported as a token-decoding error rather than looped on.
pub fn tokenize(bytes: &[u8]) -> (r: Result<Vec<XmlEvent>, Error>)
    ensures
        r matches Err(e) ==> e matches Error::XmlDecoding(_),
{
    let mut rd = xml_reader(bytes);
    let mut out: Vec<XmlEvent> = Vec::new();
    loop
        invariant
            out@.len() <= bytes@.len() + 1,
        decreases bytes@.len() + 1 - out@.len(),
    {
        if out.len() > bytes.len() {
            return Err(Error::XmlDecoding(String::from_str("token stream outgrew its input")));
        }
        match read_token(&mut rd) {
            Ok(XmlEvent::Eof) => {
                return Ok(out);
            },
            Ok(ev) => {
                out.push(ev);
            },
            Err(m) => {
                return Err(Error::XmlDecoding(m));
            },
        }
    }
}

/// A cursor over a token sequence; `pos` is the next token to read. Past the
/// end, reading yields `Eof`.
pub struct Parser {
    pub events: Vec<XmlEvent>,
    pub pos: usize,
    /// Whether the last start-like token read was a self-closing tag; such
    /// an element has no children to scan for.
    pub last_event_was_empty: bool,
}

impl Parser {
    /// The cursor never points past one-past-the-end.
    pub open spec fn wf(self) -> bool {
        self.pos <= self.events@.len()
    }

    /// How many tokens are left to read.
    pub open spec fn remaining(self) -> int {
        self.events@.len() - self.pos
    }

    /// A cursor at the start of the given token sequence.
    pub fn with_reader(events: Vec<XmlEvent>) -> (r: Parser)
        ensures
            r.events == events,
            r.pos == 0,
            r.last_event_was_empty == false,
            r.wf(),
    {
        Parser { events, pos: 0, last_event_was_empty: false }
    }

    /// What reading at position `pos` yields: the token there, or `Eof` past
    /// the end.
    pub open spec fn token_at(self, pos: int) -> XmlEvent {
        if 0 <= pos < self.events@.len() {
            self.events@[pos]
        } else {
            XmlEvent::Eof
        }
    }

    /// Reads the next token and advances; at the end of the sequence yields
    /// `Eof` without advancing.
    pub fn read_event(&mut self) -> (ev: XmlEvent)
        requires
            old(self).wf(),
        ensures
            final(self).wf(),
            final(self).events == old(self).events,
            ev_like(ev, old(self).token_at(old(self).pos as int)),
            final(self).pos == (if old(self).pos < old(self).events@.len() {
                old(self).pos + 1
            } else {
                old(self).pos as int
            }),
            final(self).last_event_was_empty == (match ev {
                XmlEvent::Start { .. } => false,
                XmlEvent::Empty { .. } => true,
                _ => old(self).last_event_was_empty,
            }),
    {
        if self.pos < self.events.len() {
            let ev = self.events[self.pos].dup();
            self.pos = self.pos + 1;
            match &ev {
                XmlEvent::Start { .. } => {
                    self.last_event_was_empty = false;
                },
                XmlEvent::Empty { .. } => {
                    self.last_event_was_empty = true;
                },
                _ => {},
            }
            ev
        } else {
            XmlEvent::Eof
        }
    }
}

} // verus!
