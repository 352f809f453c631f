//! The property value model: colors, typed property values, and the
//! recursive `<properties>` parser, including the one-token-lookahead for a
//! class-typed property's optional nested block. The lookahead uses an
//! explicit pushback: a token that does not start a nested block is left in
//! the stream rather than discarded.

use crate::error::Error;
use crate::text::{hex_pair, is_float_syntax, parse_i32_spec, parse_u32_spec};
use crate::xml::{attr_value, Attr, Parser, XmlEvent};
use vstd::prelude::*;
use vstd::utf8::encode_utf8;

verus! {

/// An RGBA color with 8-bit depth on each channel.
#[derive(Debug, PartialEq, Eq, Copy, Clone, Structural)]
pub struct Color {
    pub alpha: u8,
    pub red: u8,
    pub green: u8,
    pub blue: u8,
}

/// What color text parses to: an optional leading `#`, then six hex digits
/// (alpha 255) or eight hex digits (alpha first); anything else is refused.
pub open spec fn color_spec(s: Seq<u8>) -> Option<Color> {
    let t = if s.len() > 0 && s[0] == 35 {
        s.drop_first()
    } else {
        s
    };
    if t.len() == 6 {
        match (hex_pair(t[0], t[1]), hex_pair(t[2], t[3]), hex_pair(t[4], t[5])) {
            (Some(r), Some(g), Some(b)) => Some(Color { alpha: 255, red: r, green: g, blue: b }),
            _ => None,
        }
    } else if t.len() == 8 {
        match (hex_pair(t[0], t[1]), hex_pair(t[2], t[3]), hex_pair(t[4], t[5]), hex_pair(
            t[6],
            t[7],
        )) {
            (Some(a), Some(r), Some(g), Some(b)) => Some(
                Color { alpha: a, red: r, green: g, blue: b },
            ),
            _ => None,
        }
    } else {
        None
    }
}

impl Color {
    /// Parses color text: `#AARRGGBB`, `#RRGGBB`, or the same without the
    /// leading `#`.
    pub fn from_str(s: &str) -> (r: Result<Color, ()>)
        ensures
            match r {
                Ok(c) => color_spec(encode_utf8(s@)) == Some(c),
                Err(_) => color_spec(encode_utf8(s@)) is None,
            },
    {
        let bytes: &[u8] = s.as_bytes();
        let n: usize = bytes.len();
        let t: &[u8] = if n > 0 && bytes[0] == 35 {
            let sub = vstd::slice::slice_subrange(bytes, 1, n);
            proof {
                assert(sub@ =~= bytes@.drop_first());
            }
            sub
        } else {
            bytes
        };
        if t.len() == 6 {
            match (
                crate::text::parse_hex_pair(t[0], t[1]),
                crate::text::parse_hex_pair(t[2], t[3]),
                crate::text::parse_hex_pair(t[4], t[5]),
            ) {
                (Some(r), Some(g), Some(b)) => Ok(Color { alpha: 255, red: r, green: g, blue: b }),
                _ => Err(()),
            }
        } else if t.len() == 8 {
            match (
                crate::text::parse_hex_pair(t[0], t[1]),
                crate::text::parse_hex_pair(t[2], t[3]),
                crate::text::parse_hex_pair(t[4], t[5]),
                crate::text::parse_hex_pair(t[6], t[7]),
            ) {
                (Some(a), Some(r), Some(g), Some(b)) => Ok(
                    Color { alpha: a, red: r, green: g, blue: b },
                ),
                _ => Err(()),
            }
        } else {
            Err(())
        }
    }
}

/// A custom property's value.
#[derive(Debug, PartialEq)]
pub enum PropertyValue {
    /// A boolean value.
    BoolValue(bool),
    /// A floating-point value, kept as its validated literal text.
    FloatValue(String),
    /// A signed integer value.
    IntValue(i32),
    /// A color value.
    ColorValue(Color),
    /// A string value.
    StringValue(String),
    /// A file path, relative to the document that holds it.
    FileValue(String),
    /// A referenced object's id, 0 when unset.
    ObjectValue(u32),
    /// A class value: a type name and a nested bag of properties.
    ClassValue { property_type: String, properties: Properties },
}

/// A property container: named values, each name held once. Insertion
/// replaces an existing name.
#[derive(Debug, PartialEq)]
pub struct Properties {
    pub entries: Vec<(String, PropertyValue)>,
}

/// The mapping a list of entries denotes: later entries win.
pub open spec fn props_map(entries: Seq<(String, PropertyValue)>) -> Map<Seq<char>, PropertyValue>
    decreases entries.len(),
{
    if entries.len() == 0 {
        Map::empty()
    } else {
        props_map(entries.drop_last()).insert(entries.last().0@, entries.last().1)
    }
}

impl View for Properties {
    type V = Map<Seq<char>, PropertyValue>;

    open spec fn view(&self) -> Map<Seq<char>, PropertyValue> {
        props_map(self.entries@)
    }
}

proof fn lemma_props_map_get(entries: Seq<(String, PropertyValue)>, i: int)
    requires
        0 <= i < entries.len(),
        forall|a: int, b: int|
            0 <= a < b < entries.len() ==> #[trigger] entries[a].0@ != #[trigger] entries[b].0@,
    ensures
        props_map(entries).contains_key(entries[i].0@),
        props_map(entries)[entries[i].0@] == entries[i].1,
    decreases entries.len(),
{
    if i == entries.len() - 1 {
    } else {
        lemma_props_map_get(entries.drop_last(), i);
        assert(entries.last().0@ != entries[i].0@);
    }
}

proof fn lemma_props_map_absent(entries: Seq<(String, PropertyValue)>, k: Seq<char>)
    requires
        forall|i: int| 0 <= i < entries.len() ==> #[trigger] entries[i].0@ != k,
    ensures
        !props_map(entries).contains_key(k),
    decreases entries.len(),
{
    if entries.len() > 0 {
        lemma_props_map_absent(entries.drop_last(), k);
    }
}

proof fn lemma_props_map_update(
    entries: Seq<(String, PropertyValue)>,
    i: int,
    p: (String, PropertyValue),
)
    requires
        0 <= i < entries.len(),
        forall|a: int, b: int|
            0 <= a < b < entries.len() ==> #[trigger] entries[a].0@ != #[trigger] entries[b].0@,
        p.0@ == entries[i].0@,
    ensures
        props_map(entries.update(i, p)) =~= props_map(entries).insert(p.0@, p.1),
    decreases entries.len(),
{
    let u = entries.update(i, p);
    if i == entries.len() - 1 {
        assert(u.drop_last() =~= entries.drop_last());
        assert(u.last() == p);
    } else {
        assert(u.drop_last() =~= entries.drop_last().update(i, p));
        lemma_props_map_update(entries.drop_last(), i, p);
        assert(u.last() == entries.last());
        assert(entries.last().0@ != p.0@);
    }
}

impl Properties {
    /// No two entries hold the same name.
    pub open spec fn keys_unique(self) -> bool {
        forall|a: int, b: int|
            0 <= a < b < self.entries@.len() ==> #[trigger] self.entries@[a].0@
                != #[trigger] self.entries@[b].0@
    }

    /// An empty container.
    pub fn new() -> (r: Properties)
        ensures
            r.keys_unique(),
            r@ =~= Map::<Seq<char>, PropertyValue>::empty(),
            r.entries@.len() == 0,
    {
        Properties { entries: Vec::new() }
    }

    /// How many properties the container holds.
    pub fn len(&self) -> (r: usize)
        ensures
            r == self.entries@.len(),
    {
        self.entries.len()
    }

    /// Sets a property: replaces the value under an existing name, appends
    /// otherwise.
    pub fn insert(&mut self, key: String, value: PropertyValue)
        requires
            old(self).keys_unique(),
        ensures
            final(self).keys_unique(),
            final(self)@ == old(self)@.insert(key@, value),
    {
        let mut i: usize = 0;
        while i < self.entries.len()
            invariant
                i <= self.entries@.len(),
                *self == *old(self),
                old(self).keys_unique(),
                forall|k: int| 0 <= k < i ==> #[trigger] self.entries@[k].0@ != key@,
            decreases self.entries@.len() - i,
        {
            if self.entries[i].0.eq(&key) {
                proof {
                    lemma_props_map_update(self.entries@, i as int, (key, value));
                }
                self.entries.set(i, (key, value));
                proof {
                    assert forall|a: int, b: int|
                        0 <= a < b < self.entries@.len() implies #[trigger] self.entries@[a].0@
                        != #[trigger] self.entries@[b].0@ by {
                        assert(old(self).entries@[a].0@ != old(self).entries@[b].0@);
                    }
                }
                return ;
            }
            i = i + 1;
        }
        proof {
            assert(self.entries@.push((key, value)).drop_last() =~= self.entries@);
            lemma_props_map_absent(self.entries@, key@);
        }
        self.entries.push((key, value));
        proof {
            assert forall|a: int, b: int|
                0 <= a < b < self.entries@.len() implies #[trigger] self.entries@[a].0@
                != #[trigger] self.entries@[b].0@ by {
                if b < self.entries@.len() - 1 {
                    assert(old(self).entries@[a].0@ != old(self).entries@[b].0@);
                }
            }
        }
    }

    /// Looks a property up by name.
    pub fn get<'a>(&'a self, key: &str) -> (r: Option<&'a PropertyValue>)
        requires
            self.keys_unique(),
        ensures
            match r {
                Some(v) => self@.contains_key(key@) && *v == self@[key@],
                None => !self@.contains_key(key@),
            },
    {
        let mut i: usize = 0;
        while i < self.entries.len()
            invariant
                i <= self.entries@.len(),
                self.keys_unique(),
                forall|k: int| 0 <= k < i ==> #[trigger] self.entries@[k].0@ != key@,
            decreases self.entries@.len() - i,
        {
            if crate::xml::string_eq_str(&self.entries[i].0, key) {
                proof {
                    lemma_props_map_get(self.entries@, i as int);
                }
                return Some(&self.entries[i].1);
            }
            i = i + 1;
        }
        proof {
            lemma_props_map_absent(self.entries@, key@);
        }
        None
    }
}

/// An optional color attribute: present but unparsable is the
/// malformed-attributes failure.
pub fn opt_attr_color(attrs: &Vec<Attr>, key: &str) -> (r: Result<Option<Color>, Error>)
    ensures
        match attr_value(attrs@, key@) {
            Some(s) => match color_spec(encode_utf8(s)) {
                Some(c) => r == Ok::<Option<Color>, Error>(Some(c)),
                None => r matches Err(e) && e matches Error::MalformedAttributes(_),
            },
            None => r == Ok::<Option<Color>, Error>(None),
        },
{
    match crate::xml::find_attr(attrs, key) {
        Some(v) => match Color::from_str(v.as_str()) {
            Ok(c) => Ok(Some(c)),
            Err(_) => Err(Error::MalformedAttributes(key.to_owned())),
        },
        None => Ok(None),
    }
}

/// What converting textual value `v` under type name `t` must yield:
/// every supported type's conversion, pinned up to the views of the strings
/// the result carries; an unsupported type name is the unknown-type error,
/// and any conversion failure the invalid-value error, as the format's
/// table has it.
pub open spec fn convert_post(t: Seq<char>, v: Seq<char>, r: Result<PropertyValue, Error>) -> bool {
    if t == "bool"@ {
        if v == "true"@ {
            r == Ok::<PropertyValue, Error>(PropertyValue::BoolValue(true))
        } else if v == "false"@ {
            r == Ok::<PropertyValue, Error>(PropertyValue::BoolValue(false))
        } else {
            r matches Err(e) && e matches Error::InvalidPropertyValue(_)
        }
    } else if t == "float"@ {
        if is_float_syntax(encode_utf8(v)) {
            r matches Ok(pv) && (pv matches PropertyValue::FloatValue(s) && s@ == v)
        } else {
            r matches Err(e) && e matches Error::InvalidPropertyValue(_)
        }
    } else if t == "int"@ {
        match parse_i32_spec(encode_utf8(v)) {
            Some(i) => r == Ok::<PropertyValue, Error>(PropertyValue::IntValue(i)),
            None => r matches Err(e) && e matches Error::InvalidPropertyValue(_),
        }
    } else if t == "color"@ {
        match color_spec(encode_utf8(v)) {
            Some(c) => r == Ok::<PropertyValue, Error>(PropertyValue::ColorValue(c)),
            None => r matches Err(e) && e matches Error::InvalidPropertyValue(_),
        }
    } else if t == "string"@ {
        r matches Ok(pv) && (pv matches PropertyValue::StringValue(s) && s@ == v)
    } else if t == "object"@ {
        match parse_u32_spec(encode_utf8(v)) {
            Some(id) => r == Ok::<PropertyValue, Error>(PropertyValue::ObjectValue(id)),
            None => r matches Err(e) && e matches Error::InvalidPropertyValue(_),
        }
    } else if t == "file"@ {
        r matches Ok(pv) && (pv matches PropertyValue::FileValue(s) && s@ == v)
    } else {
        r matches Err(e) && (e matches Error::UnknownPropertyType(s) && s@ == t)
    }
}

impl PropertyValue {
    /// Converts a textual value according to its declared type name.
    pub fn new(property_type: String, value: String) -> (r: Result<PropertyValue, Error>)
        ensures
            convert_post(property_type@, value@, r),
    {
        if crate::xml::string_eq_str(&property_type, "bool") {
            if crate::xml::string_eq_str(&value, "true") {
                Ok(PropertyValue::BoolValue(true))
            } else if crate::xml::string_eq_str(&value, "false") {
                Ok(PropertyValue::BoolValue(false))
            } else {
                Err(Error::InvalidPropertyValue(String::from_str("not a boolean")))
            }
        } else if crate::xml::string_eq_str(&property_type, "float") {
            if crate::text::is_float_literal(value.as_str().as_bytes()) {
                Ok(PropertyValue::FloatValue(value))
            } else {
                Err(Error::InvalidPropertyValue(String::from_str("not a float literal")))
            }
        } else if crate::xml::string_eq_str(&property_type, "int") {
            match crate::text::parse_i32_bytes(value.as_str().as_bytes()) {
                Some(i) => Ok(PropertyValue::IntValue(i)),
                None => Err(
                    Error::InvalidPropertyValue(String::from_str("not a 32-bit integer")),
                ),
            }
        } else if crate::xml::string_eq_str(&property_type, "color") {
            match Color::from_str(value.as_str()) {
                Ok(c) => Ok(PropertyValue::ColorValue(c)),
                Err(_) => Err(
                    Error::InvalidPropertyValue(String::from_str("could not parse color")),
                ),
            }
        } else if crate::xml::string_eq_str(&property_type, "string") {
            Ok(PropertyValue::StringValue(value))
        } else if crate::xml::string_eq_str(&property_type, "object") {
            match crate::text::parse_u32_bytes(value.as_str().as_bytes()) {
                Some(id) => Ok(PropertyValue::ObjectValue(id)),
                None => Err(
                    Error::InvalidPropertyValue(String::from_str("not an object id")),
                ),
            }
        } else if crate::xml::string_eq_str(&property_type, "file") {
            Ok(PropertyValue::FileValue(value))
        } else {
            Err(Error::UnknownPropertyType(property_type))
        }
    }
}

/// Whether converting value text `v` under type name `t` succeeds; the
/// success half of the conversion table.
pub open spec fn convert_ok(t: Seq<char>, v: Seq<char>) -> bool {
    if t == "bool"@ {
        v == "true"@ || v == "false"@
    } else if t == "float"@ {
        is_float_syntax(encode_utf8(v))
    } else if t == "int"@ {
        parse_i32_spec(encode_utf8(v)) is Some
    } else if t == "color"@ {
        color_spec(encode_utf8(v)) is Some
    } else if t == "string"@ {
        true
    } else if t == "object"@ {
        parse_u32_spec(encode_utf8(v)) is Some
    } else {
        t == "file"@
    }
}

/// A conversion outcome is successful exactly when the conversion table
/// accepts the pair.
pub proof fn lemma_convert_ok(t: Seq<char>, v: Seq<char>, r: Result<PropertyValue, Error>)
    requires
        convert_post(t, v, r),
    ensures
        r is Ok <==> convert_ok(t, v),
{
}

/// Where scanning a `<properties>` element ends: the names it binds and the
/// position just past its closing tag, or failure (a malformed child,
/// a failing conversion, or input ending first).
pub enum KeysScan {
    Done { keys: Set<Seq<char>>, next: int },
    Failed,
}

/// The names a `<properties>` element binds, scanning its children from
/// `pos` with the names bound so far: each property child adds its name,
/// the element's own closing tag ends the scan, and everything else is
/// passed over, as the parser does.
pub open spec fn props_keys(events: Seq<XmlEvent>, pos: int, acc: Set<Seq<char>>) -> KeysScan
    decreases events.len() - pos, 0int,
{
    if pos < 0 || pos >= events.len() {
        KeysScan::Failed
    } else {
        match events[pos] {
            XmlEvent::Start { name, attrs } | XmlEvent::Empty { name, attrs } => if name@
                == "property"@ {
                prop_child_keys(events, pos + 1, acc, attrs@)
            } else {
                props_keys(events, pos + 1, acc)
            },
            XmlEvent::End { name } => if name@ == "properties"@ {
                KeysScan::Done { keys: acc, next: pos + 1 }
            } else {
                props_keys(events, pos + 1, acc)
            },
            XmlEvent::Eof => KeysScan::Failed,
            _ => props_keys(events, pos + 1, acc),
        }
    }
}

/// One property child, its start tag already consumed, the cursor at
/// `pos`: a class property looks ahead for a nested block (scanned in
/// turn), any other converts its value attribute or the following text
/// token; then scanning resumes. The two inner position clamps only guard
/// termination; the positions scanned from never actually lie before `pos`.
/// A position brought into `[lo, len]`; the property scans only ever
/// resume inside that range, so the clamp changes nothing on reachable
/// inputs and only keeps the recursion measure in bounds.
pub open spec fn clamp_pos(events: Seq<XmlEvent>, lo: int, x: int) -> int {
    if x < lo {
        lo
    } else if x > events.len() {
        events.len() as int
    } else {
        x
    }
}

pub open spec fn prop_child_keys(
    events: Seq<XmlEvent>,
    pos: int,
    acc: Set<Seq<char>>,
    attrs: Seq<Attr>,
) -> KeysScan
    decreases events.len() - pos, 1int,
{
    let t = match attr_value(attrs, "type"@) {
        Some(x) => x,
        None => "string"@,
    };
    if pos < 0 || pos > events.len() {
        KeysScan::Failed
    } else {
        match attr_value(attrs, "name"@) {
        None => KeysScan::Failed,
        Some(k) => if t == "class"@ {
            let la = lookahead_props(events, pos);
            if la.0 {
                match props_keys(events, clamp_pos(events, pos, la.1), Set::empty()) {
                    KeysScan::Done { keys: _, next } => props_keys(
                        events,
                        clamp_pos(events, pos, next),
                        acc.insert(k),
                    ),
                    KeysScan::Failed => KeysScan::Failed,
                }
            } else {
                props_keys(events, clamp_pos(events, pos, la.1), acc.insert(k))
            }
        } else {
            match attr_value(attrs, "value"@) {
                Some(val) => if convert_ok(t, val) {
                    props_keys(events, pos, acc.insert(k))
                } else {
                    KeysScan::Failed
                },
                None => if 0 <= pos < events.len() {
                    match events[pos] {
                        XmlEvent::Text { text } => if convert_ok(t, text@) {
                            props_keys(events, pos + 1, acc.insert(k))
                        } else {
                            KeysScan::Failed
                        },
                        _ => KeysScan::Failed,
                    }
                } else {
                    KeysScan::Failed
                },
            }
        },
        }
    }
}

/// What converting value text `v` under type `t` must do to the container
/// for a property named `k`: on success exactly that one binding is added
/// or replaced, holding the converted value; on failure the error is the
/// conversion's own and the container is untouched.
pub open spec fn plain_value_outcome(
    t: Seq<char>,
    v: Seq<char>,
    k: Seq<char>,
    pre: Map<Seq<char>, PropertyValue>,
    post: Map<Seq<char>, PropertyValue>,
    r: Result<(), Error>,
) -> bool {
    (r matches Ok(()) ==> (post.contains_key(k) && convert_post(t, v, Ok(post[k])) && post
        == pre.insert(k, post[k]))) && (r matches Err(e) ==> convert_post(
        t,
        v,
        Err::<PropertyValue, Error>(e),
    ))
}

/// What parsing one non-class property must yield, given the token standing
/// at the cursor: the value attribute converts in place; with no value
/// attribute a text token is consumed and converted; anything else is the
/// missing-value error naming the property.
pub open spec fn plain_property_post(
    attrs: Seq<Attr>,
    tok: XmlEvent,
    pre: Map<Seq<char>, PropertyValue>,
    post: Map<Seq<char>, PropertyValue>,
    pos0: int,
    pos1: int,
    r: Result<(), Error>,
) -> bool {
    let t = match attr_value(attrs, "type"@) {
        Some(x) => x,
        None => "string"@,
    };
    match attr_value(attrs, "name"@) {
        Some(k) => t == "class"@ || (match attr_value(attrs, "value"@) {
            Some(val) => plain_value_outcome(t, val, k, pre, post, r) && (r is Ok ==> pos1
                == pos0),
            None => match tok {
                XmlEvent::Text { text } => plain_value_outcome(t, text@, k, pre, post, r) && (
                r is Ok ==> pos1 == pos0 + 1),
                _ => r matches Err(e) && (e matches Error::MalformedAttributes(s) && s@ == k),
            },
        }),
        None => true,
    }
}

/// What parsing one class property with a following nested block must
/// yield: the nested block's scan decides success, the binding holds a
/// class value whose nested names are the scanned ones, and the cursor
/// stands just past the nested block's closing tag.
pub open spec fn class_property_post(
    attrs: Seq<Attr>,
    events: Seq<XmlEvent>,
    pos0: int,
    pre: Map<Seq<char>, PropertyValue>,
    post: Map<Seq<char>, PropertyValue>,
    pos1: int,
    r: Result<(), Error>,
) -> bool {
    let t = match attr_value(attrs, "type"@) {
        Some(x) => x,
        None => "string"@,
    };
    let la = lookahead_props(events, pos0);
    match attr_value(attrs, "name"@) {
        Some(k) => (t == "class"@ && la.0) ==> (match props_keys(events, la.1, Set::empty()) {
            KeysScan::Done { keys, next } => r matches Ok(()) && post.contains_key(k) && (post[k]
                matches PropertyValue::ClassValue { properties: ps, .. } && ps@.dom() == keys)
                && post == pre.insert(k, post[k]) && pos1 == next,
            KeysScan::Failed => r is Err,
        }),
        None => true,
    }
}

/// Where the lookahead for a nested properties block ends: whether the block
/// starts here (after skipping blank text and comments), and the position
/// the cursor stands at afterwards. When no block follows, the cursor
/// stands on the offending token, which stays in the stream.
pub open spec fn lookahead_props(events: Seq<XmlEvent>, pos: int) -> (bool, int)
    decreases events.len() - pos,
{
    if pos < 0 || pos >= events.len() {
        (false, events.len() as int)
    } else {
        match events[pos] {
            XmlEvent::Start { name, .. } => if name@ == "properties"@ {
                (true, pos + 1)
            } else {
                (false, pos)
            },
            XmlEvent::Text { text } => if crate::xml::is_blank(text@) {
                lookahead_props(events, pos + 1)
            } else {
                (false, pos)
            },
            XmlEvent::Comment => lookahead_props(events, pos + 1),
            _ => (false, pos),
        }
    }
}

/// A found nested block lies strictly ahead of where the lookahead began.
pub proof fn lemma_lookahead_advances(events: Seq<XmlEvent>, pos: int)
    requires
        0 <= pos <= events.len(),
    ensures
        pos <= lookahead_props(events, pos).1 <= events.len(),
        lookahead_props(events, pos).0 ==> lookahead_props(events, pos).1 > pos,
    decreases events.len() - pos,
{
    if pos < events.len() {
        lemma_lookahead_advances(events, pos + 1);
    }
}

/// Checks whether a nested properties block starts here, consuming blank
/// text and comments, and the block's opening tag when there is one. A
/// token that is none of these is left in the stream.
pub fn has_properties_tag_next(parser: &mut Parser) -> (found: bool)
    requires
        old(parser).wf(),
    ensures
        final(parser).wf(),
        final(parser).events == old(parser).events,
        found == lookahead_props(old(parser).events@, old(parser).pos as int).0,
        final(parser).pos == lookahead_props(old(parser).events@, old(parser).pos as int).1,
        !found ==> final(parser).last_event_was_empty == old(parser).last_event_was_empty,
        found ==> final(parser).last_event_was_empty == false,
        old(parser).pos <= final(parser).pos,
{
    loop
        invariant
            parser.wf(),
            parser.events == old(parser).events,
            old(parser).pos <= parser.pos,
            parser.last_event_was_empty == old(parser).last_event_was_empty,
            lookahead_props(old(parser).events@, old(parser).pos as int) == lookahead_props(
                parser.events@,
                parser.pos as int,
            ),
        decreases parser.remaining(),
    {
        let pos0: usize = parser.pos;
        let flag0: bool = parser.last_event_was_empty;
        let ev = parser.read_event();
        match ev {
            XmlEvent::Start { name, .. } => {
                if crate::xml::string_eq_str(&name, "properties") {
                    return true;
                }
                parser.pos = pos0;
                parser.last_event_was_empty = flag0;
                return false;
            },
            XmlEvent::Text { text } => {
                if !crate::xml::text_is_blank(&text) {
                    parser.pos = pos0;
                    return false;
                }
            },
            XmlEvent::Comment => {},
            XmlEvent::Eof => {
                parser.pos = pos0;
                return false;
            },
            _ => {
                parser.pos = pos0;
                parser.last_event_was_empty = flag0;
                return false;
            },
        }
    }
}

/// Parses a `<properties>` element into a property container: each
/// `<property>` child is added under its name, later names replacing
/// earlier ones; the element's closing tag ends it.
pub fn parse_properties(parser: &mut Parser) -> (r: Result<Properties, Error>)
    requires
        old(parser).wf(),
    ensures
        final(parser).wf(),
        final(parser).events == old(parser).events,
        old(parser).pos <= final(parser).pos,
        old(parser).last_event_was_empty ==> (final(parser).pos == old(parser).pos && (r
            matches Ok(p) && p.entries@.len() == 0)),
        (!old(parser).last_event_was_empty && r matches Ok(_)) ==> (final(parser).pos
            > old(parser).pos && (old(parser).token_at(final(parser).pos - 1)
            matches XmlEvent::End { name: nm } && nm@ == "properties"@)),
        r matches Ok(p) ==> p.keys_unique(),
        r matches Err(e) ==> !(e matches Error::PathIsNotFile),
        !old(parser).last_event_was_empty ==> match props_keys(
            old(parser).events@,
            old(parser).pos as int,
            Set::empty(),
        ) {
            KeysScan::Done { keys, next } => r matches Ok(p) && p@.dom() == keys && final(
                parser
            ).pos == next,
            KeysScan::Failed => r is Err,
        },
    decreases old(parser).remaining(),
{
    let mut p = Properties::new();
    if parser.last_event_was_empty {
        return Ok(p);
    }
    proof {
        assert(p@.dom() =~= Set::<Seq<char>>::empty());
    }
    loop
        invariant
            !old(parser).last_event_was_empty,
            parser.wf(),
            parser.events == old(parser).events,
            old(parser).pos <= parser.pos,
            p.keys_unique(),
            props_keys(old(parser).events@, old(parser).pos as int, Set::empty()) == props_keys(
                parser.events@,
                parser.pos as int,
                p@.dom(),
            ),
        decreases parser.remaining(),
    {
        let ghost q: int = parser.pos as int;
        let ev = parser.read_event();
        match ev {
            XmlEvent::Start { name, attrs } | XmlEvent::Empty { name, attrs } => {
                if crate::xml::string_eq_str(&name, "property") {
                    let ghost gattrs = attrs@;
                    let ghost pre_dom = p@.dom();
                    proof {
                        lemma_lookahead_advances(parser.events@, q + 1);
                    }
                    match parse_properties_inner(parser, &mut p, attrs) {
                        Ok(()) => {
                            proof {
                                reveal_strlit("string");
                                reveal_strlit("class");
                                assert("string"@.len() == 6);
                                assert("class"@.len() == 5);
                                let events = parser.events@;
                                let t = match attr_value(gattrs, "type"@) {
                                    Some(x) => x,
                                    None => "string"@,
                                };
                                let la = lookahead_props(events, q + 1);
                                let k = attr_value(gattrs, "name"@)->0;
                                assert(0 <= q < events.len());
                                assert(props_keys(events, q, pre_dom) == prop_child_keys(
                                    events,
                                    q + 1,
                                    pre_dom,
                                    gattrs,
                                ));
                                if t == "class"@ && la.0 {
                                    match props_keys(events, la.1, Set::<Seq<char>>::empty()) {
                                        KeysScan::Done { keys, next } => {
                                            assert(p@.dom() =~= pre_dom.insert(k));
                                            assert(clamp_pos(events, q + 1, la.1) == la.1);
                                            assert(clamp_pos(events, q + 1, next) == next);
                                            assert(prop_child_keys(events, q + 1, pre_dom, gattrs)
                                                == props_keys(events, next, pre_dom.insert(k)));
                                            assert(props_keys(
                                                events,
                                                parser.pos as int,
                                                p@.dom(),
                                            ) == props_keys(events, next, pre_dom.insert(k)));
                                        },
                                        KeysScan::Failed => {
                                            assert(false);
                                        },
                                    }
                                } else if t == "class"@ {
                                    assert(clamp_pos(events, q + 1, la.1) == la.1);
                                    assert(p@.dom() =~= pre_dom.insert(k));
                                    assert(prop_child_keys(events, q + 1, pre_dom, gattrs)
                                        == props_keys(events, la.1, pre_dom.insert(k)));
                                    assert(props_keys(events, parser.pos as int, p@.dom())
                                        == props_keys(events, la.1, pre_dom.insert(k)));
                                } else {
                                    match attr_value(gattrs, "value"@) {
                                        Some(val) => {
                                            lemma_convert_ok(t, val, Ok(p@[k]));
                                            assert(p@.dom() =~= pre_dom.insert(k));
                                            assert(prop_child_keys(events, q + 1, pre_dom, gattrs)
                                                == props_keys(
                                                events,
                                                q + 1,
                                                pre_dom.insert(k),
                                            ));
                                            assert(props_keys(
                                                events,
                                                parser.pos as int,
                                                p@.dom(),
                                            ) == props_keys(events, q + 1, pre_dom.insert(k)));
                                        },
                                        None => {
                                            if q + 1 < events.len() && (events[q + 1]
                                                matches XmlEvent::Text { .. }) {
                                                let tx = events[q + 1]->Text_text;
                                                lemma_convert_ok(t, tx@, Ok(p@[k]));
                                                assert(p@.dom() =~= pre_dom.insert(k));
                                                assert(prop_child_keys(
                                                    events,
                                                    q + 1,
                                                    pre_dom,
                                                    gattrs,
                                                ) == props_keys(
                                                    events,
                                                    q + 2,
                                                    pre_dom.insert(k),
                                                ));
                                                assert(props_keys(
                                                    events,
                                                    parser.pos as int,
                                                    p@.dom(),
                                                ) == props_keys(
                                                    events,
                                                    q + 2,
                                                    pre_dom.insert(k),
                                                ));
                                            } else {
                                                assert(false);
                                            }
                                        },
                                    }
                                }
                            }
                        },
                        Err(e) => {
                            proof {
                                reveal_strlit("string");
                                reveal_strlit("class");
                                assert("string"@.len() == 6);
                                assert("class"@.len() == 5);
                                let events = parser.events@;
                                let t = match attr_value(gattrs, "type"@) {
                                    Some(x) => x,
                                    None => "string"@,
                                };
                                let la = lookahead_props(events, q + 1);
                                assert(0 <= q < events.len());
                                assert(props_keys(events, q, pre_dom) == prop_child_keys(
                                    events,
                                    q + 1,
                                    pre_dom,
                                    gattrs,
                                ));
                                match attr_value(gattrs, "name"@) {
                                    None => {},
                                    Some(k) => {
                                        if t == "class"@ && la.0 {
                                            assert(clamp_pos(events, q + 1, la.1) == la.1);
                                            match props_keys(
                                                events,
                                                la.1,
                                                Set::<Seq<char>>::empty(),
                                            ) {
                                                KeysScan::Done { keys, next } => {
                                                    assert(false);
                                                },
                                                KeysScan::Failed => {},
                                            }
                                        } else if t == "class"@ {
                                            assert(false);
                                        } else {
                                            match attr_value(gattrs, "value"@) {
                                                Some(val) => {
                                                    lemma_convert_ok(
                                                        t,
                                                        val,
                                                        Err::<PropertyValue, Error>(e),
                                                    );
                                                    assert(!convert_ok(t, val));
                                                },
                                                None => {
                                                    if q + 1 < events.len() && (events[q + 1]
                                                        matches XmlEvent::Text { .. }) {
                                                        let tx = events[q + 1]->Text_text;
                                                        lemma_convert_ok(
                                                            t,
                                                            tx@,
                                                            Err::<PropertyValue, Error>(e),
                                                        );
                                                    }
                                                },
                                            }
                                        }
                                    },
                                }
                            }
                            return Err(e);
                        },
                    }
                }
            },
            XmlEvent::End { name } => {
                if crate::xml::string_eq_str(&name, "properties") {
                    return Ok(p);
                }
            },
            XmlEvent::Eof => {
                return Err(
                    Error::PrematureEnd(String::from_str("properties element never closed")),
                );
            },
            _ => {},
        }
    }
}

/// Parses one `<property>` element and adds it to the container. A
/// class-typed property looks ahead for an optional nested block: when none
/// follows, its nested mapping is empty and the looked-at token stays in
/// the stream.
pub fn parse_properties_inner(parser: &mut Parser, p: &mut Properties, attrs: Vec<Attr>) -> (r:
    Result<(), Error>)
    requires
        old(parser).wf(),
        old(p).keys_unique(),
    ensures
        final(parser).wf(),
        final(parser).events == old(parser).events,
        old(parser).pos <= final(parser).pos,
        final(p).keys_unique(),
        r is Err ==> final(p)@ == old(p)@,
        r matches Err(e) ==> !(e matches Error::PathIsNotFile),
        attr_value(attrs@, "name"@) is None ==> (r matches Err(e) && e
            matches Error::MalformedAttributes(_)),
        ({
            let t = attr_value(attrs@, "type"@);
            let nm = attr_value(attrs@, "name"@);
            let pt = attr_value(attrs@, "propertytype"@);
            (t == Some("class"@) && nm is Some && !lookahead_props(
                old(parser).events@,
                old(parser).pos as int,
            ).0) ==> (r matches Ok(()) && final(p)@.contains_key(nm->0) && (final(p)@[nm->0]
                matches PropertyValue::ClassValue { property_type: pt2, properties: ps } && ps@
                =~= Map::<Seq<char>, PropertyValue>::empty() && pt2@ == (match pt {
                Some(x) => x,
                None => Seq::<char>::empty(),
            })) && final(p)@ == old(p)@.insert(nm->0, final(p)@[nm->0]) && final(parser).pos
                == lookahead_props(old(parser).events@, old(parser).pos as int).1)
        }),
        plain_property_post(
            attrs@,
            old(parser).token_at(old(parser).pos as int),
            old(p)@,
            final(p)@,
            old(parser).pos as int,
            final(parser).pos as int,
            r,
        ),
        class_property_post(
            attrs@,
            old(parser).events@,
            old(parser).pos as int,
            old(p)@,
            final(p)@,
            final(parser).pos as int,
            r,
        ),
    decreases old(parser).remaining(),
{
    let name: String = match crate::xml::find_attr(&attrs, "name") {
        Some(n) => n.clone(),
        None => {
            return Err(Error::MalformedAttributes(String::from_str("name")));
        },
    };
    let t: String = match crate::xml::find_attr(&attrs, "type") {
        Some(s) => s.clone(),
        None => String::from_str("string"),
    };
    if crate::xml::string_eq_str(&t, "class") {
        proof {
            lemma_lookahead_advances(old(parser).events@, old(parser).pos as int);
        }
        let properties: Properties = if has_properties_tag_next(parser) {
            match parse_properties(parser) {
                Ok(ps) => ps,
                Err(e) => {
                    return Err(e);
                },
            }
        } else {
            Properties::new()
        };
        let ptype: String = match crate::xml::find_attr(&attrs, "propertytype") {
            Some(s) => s.clone(),
            None => String::new(),
        };
        p.insert(name, PropertyValue::ClassValue { property_type: ptype, properties });
        return Ok(());
    }
    let v: String = match crate::xml::find_attr(&attrs, "value") {
        Some(val) => val.clone(),
        None => {
            // no value attribute: the value may follow as a text token
            match parser.read_event() {
                XmlEvent::Text { text } => text,
                _ => {
                    return Err(Error::MalformedAttributes(name));
                },
            }
        },
    };
    match PropertyValue::new(t, v) {
        Ok(pv) => {
            p.insert(name, pv);
            Ok(())
        },
        Err(e) => Err(e),
    }
}

} // verus!
