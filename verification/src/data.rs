//! Layer payload decoding: dispatch on the `(encoding, compression)` pair,
//! scan the element for its one text payload, decode and decompress it, and
//! resolve every raw cell value through the tileset table, preserving source
//! order.

use base64::Engine;

use crate::error::Error;
use crate::gid::{from_bits_spec, LayerTileData, MapTilesetGid};
use crate::text::{le_u32, parse_u32_spec, trim_spec};
use crate::xml::{Parser, XmlEvent};
use vstd::prelude::*;
use vstd::utf8::encode_utf8;

verus! {

/// What scanning a data element for its payload finds: its first text token
/// (and the position after it), the element's closing tag before any text
/// (an empty payload), or the end of input.
pub enum PayloadScan {
    Payload { text: Seq<char>, next: int },
    Closed { next: int },
    Truncated,
}

/// Scans from `pos` for the first text token, ignoring everything else
/// except the element's own closing tag and the end of input.
pub open spec fn scan_payload(events: Seq<XmlEvent>, pos: int) -> PayloadScan
    decreases events.len() - pos,
{
    if pos < 0 || pos >= events.len() {
        PayloadScan::Truncated
    } else {
        match events[pos] {
            XmlEvent::Text { text } => PayloadScan::Payload { text: text@, next: pos + 1 },
            XmlEvent::End { name } => if name@ == "data"@ {
                PayloadScan::Closed { next: pos + 1 }
            } else {
                scan_payload(events, pos + 1)
            },
            XmlEvent::Eof => PayloadScan::Truncated,
            _ => scan_payload(events, pos + 1),
        }
    }
}

/// The fields of `s[start..]` split on commas, `cur` being how far the
/// current field reaches so far.
pub open spec fn split_fields(s: Seq<u8>, start: int, cur: int) -> Seq<Seq<u8>>
    decreases s.len() - cur,
{
    if !(0 <= start <= cur <= s.len()) {
        Seq::empty()
    } else if cur == s.len() {
        seq![s.subrange(start, cur)]
    } else if s[cur] == 44 {
        seq![s.subrange(start, cur)] + split_fields(s, cur + 1, cur + 1)
    } else {
        split_fields(s, start, cur + 1)
    }
}

/// The comma-separated fields of a byte sequence. Splitting is total: an
/// empty sequence yields one empty field, as the textual format does.
pub open spec fn split_commas(s: Seq<u8>) -> Seq<Seq<u8>> {
    split_fields(s, 0, 0)
}

/// Every field trimmed and parsed as an unsigned 32-bit value; `None` as
/// soon as any field fails.
pub open spec fn csv_gids(fields: Seq<Seq<u8>>) -> Option<Seq<u32>>
    decreases fields.len(),
{
    if fields.len() == 0 {
        Some(Seq::empty())
    } else {
        match (parse_u32_spec(trim_spec(fields.first())), csv_gids(fields.drop_first())) {
            (Some(g), Some(rest)) => Some(seq![g] + rest),
            _ => None,
        }
    }
}

/// Consecutive 4-byte little-endian unsigned integers; a trailing fragment
/// shorter than 4 bytes is ignored.
pub open spec fn le_gids(b: Seq<u8>) -> Seq<u32> {
    Seq::new((b.len() / 4) as nat, |k: int| le_u32(b[4 * k], b[4 * k + 1], b[4 * k + 2], b[4 * k + 3]))
}

/// Every raw cell value resolved through the table in order; the first
/// failing resolution is the result's error.
pub open spec fn resolve_cells(gids: Seq<u32>, ts: Seq<MapTilesetGid>) -> Result<
    Seq<Option<LayerTileData>>,
    Error,
>
    decreases gids.len(),
{
    if gids.len() == 0 {
        Ok(Seq::empty())
    } else {
        match from_bits_spec(gids.first(), ts) {
            Ok(c) => match resolve_cells(gids.drop_first(), ts) {
                Ok(rest) => Ok(seq![c] + rest),
                Err(e) => Err(e),
            },
            Err(e) => Err(e),
        }
    }
}

pub(crate) proof fn lemma_csv_gids_all(fields: Seq<Seq<u8>>, gids: Seq<u32>)
    requires
        fields.len() == gids.len(),
        forall|k: int|
            0 <= k < fields.len() ==> parse_u32_spec(trim_spec(#[trigger] fields[k])) == Some(
                gids[k],
            ),
    ensures
        csv_gids(fields) == Some(gids),
    decreases fields.len(),
{
    if fields.len() > 0 {
        lemma_csv_gids_all(fields.drop_first(), gids.drop_first());
        assert(seq![gids.first()] + gids.drop_first() =~= gids);
    } else {
        assert(gids =~= Seq::<u32>::empty());
    }
}

pub(crate) proof fn lemma_csv_gids_bad(fields: Seq<Seq<u8>>, k: int)
    requires
        0 <= k < fields.len(),
        parse_u32_spec(trim_spec(fields[k])) is None,
    ensures
        csv_gids(fields) is None,
    decreases fields.len(),
{
    if k > 0 {
        lemma_csv_gids_bad(fields.drop_first(), k - 1);
    }
}

proof fn lemma_resolve_cells_ok(gids: Seq<u32>, ts: Seq<MapTilesetGid>, cells: Seq<Option<LayerTileData>>)
    requires
        gids.len() == cells.len(),
        forall|k: int|
            0 <= k < gids.len() ==> from_bits_spec(#[trigger] gids[k], ts) == Ok::<
                Option<LayerTileData>,
                Error,
            >(cells[k]),
    ensures
        resolve_cells(gids, ts) == Ok::<Seq<Option<LayerTileData>>, Error>(cells),
    decreases gids.len(),
{
    if gids.len() > 0 {
        lemma_resolve_cells_ok(gids.drop_first(), ts, cells.drop_first());
        assert(seq![cells.first()] + cells.drop_first() =~= cells);
    } else {
        assert(cells =~= Seq::<Option<LayerTileData>>::empty());
    }
}

proof fn lemma_resolve_cells_err(gids: Seq<u32>, ts: Seq<MapTilesetGid>, k: int, e: Error)
    requires
        0 <= k < gids.len(),
        forall|j: int|
            0 <= j < k ==> from_bits_spec(#[trigger] gids[j], ts) is Ok,
        from_bits_spec(gids[k], ts) == Err::<Option<LayerTileData>, Error>(e),
    ensures
        resolve_cells(gids, ts) == Err::<Seq<Option<LayerTileData>>, Error>(e),
    decreases gids.len(),
{
    if k > 0 {
        lemma_resolve_cells_err(gids.drop_first(), ts, k - 1, e);
    }
}

/// The byte sequences a vector of byte vectors holds.
pub open spec fn fields_view(v: Seq<Vec<u8>>) -> Seq<Seq<u8>> {
    Seq::new(v.len(), |k: int| v[k]@)
}

/// Splits a byte slice on commas.
pub fn split_commas_exec(v: &[u8]) -> (r: Vec<Vec<u8>>)
    ensures
        fields_view(r@) == split_commas(v@),
{
    let mut out: Vec<Vec<u8>> = Vec::new();
    let mut start: usize = 0;
    let mut i: usize = 0;
    proof {
        assert(fields_view(out@) + split_fields(v@, 0, 0) =~= split_commas(v@));
    }
    while i < v.len()
        invariant
            start <= i <= v@.len(),
            fields_view(out@) + split_fields(v@, start as int, i as int) == split_commas(v@),
        decreases v@.len() - i,
    {
        if v[i] == 44 {
            let ghost prev = out@;
            let field = vstd::slice::slice_to_vec(vstd::slice::slice_subrange(v, start, i));
            out.push(field);
            proof {
                assert(fields_view(out@) =~= fields_view(prev) + seq![
                    v@.subrange(start as int, i as int),
                ]);
                assert(fields_view(out@) + split_fields(v@, i + 1, i + 1) =~= split_commas(v@));
            }
            start = i + 1;
        }
        i = i + 1;
    }
    let ghost prev = out@;
    let field = vstd::slice::slice_to_vec(vstd::slice::slice_subrange(v, start, v.len()));
    out.push(field);
    proof {
        assert(fields_view(out@) =~= fields_view(prev) + seq![
            v@.subrange(start as int, v@.len() as int),
        ]);
        assert(fields_view(out@) =~= split_commas(v@));
    }
    out
}

/// Resolves a sequence of raw cell values in order; the first failure is
/// returned.
pub fn resolve_gid_vec(gids: &Vec<u32>, tilesets: &[MapTilesetGid]) -> (r: Result<
    Vec<Option<LayerTileData>>,
    Error,
>)
    ensures
        match r {
            Ok(v) => resolve_cells(gids@, tilesets@) == Ok::<Seq<Option<LayerTileData>>, Error>(
                v@,
            ),
            Err(e) => resolve_cells(gids@, tilesets@) == Err::<Seq<Option<LayerTileData>>, Error>(
                e,
            ),
        },
{
    let mut out: Vec<Option<LayerTileData>> = Vec::new();
    let mut i: usize = 0;
    while i < gids.len()
        invariant
            i <= gids@.len(),
            out@.len() == i,
            forall|k: int|
                0 <= k < i ==> from_bits_spec(#[trigger] gids@[k], tilesets@) == Ok::<
                    Option<LayerTileData>,
                    Error,
                >(out@[k]),
        decreases gids@.len() - i,
    {
        match LayerTileData::from_bits(gids[i], tilesets) {
            Ok(c) => {
                out.push(c);
            },
            Err(e) => {
                proof {
                    lemma_resolve_cells_err(gids@, tilesets@, i as int, e);
                }
                return Err(e);
            },
        }
        i = i + 1;
    }
    proof {
        lemma_resolve_cells_ok(gids@, tilesets@, out@);
    }
    Ok(out)
}

/// Reads consecutive 4-byte little-endian unsigned integers; a trailing
/// fragment is ignored.
pub fn gids_from_bytes(data: &[u8]) -> (r: Vec<u32>)
    ensures
        r@ == le_gids(data@),
{
    let n: usize = data.len();
    let count: usize = n / 4;
    let mut out: Vec<u32> = Vec::new();
    let mut i: usize = 0;
    while i < count
        invariant
            i <= count,
            count == n / 4,
            n == data@.len(),
            out@.len() == i,
            forall|k: int| 0 <= k < i ==> out@[k] == le_gids(data@)[k],
        decreases count - i,
    {
        let g = crate::text::read_le_u32(
            data[4 * i],
            data[4 * i + 1],
            data[4 * i + 2],
            data[4 * i + 3],
        );
        out.push(g);
        i = i + 1;
    }
    proof {
        assert(out@ =~= le_gids(data@));
    }
    out
}

/// Turns decoded payload bytes into the ordered cell sequence: consecutive
/// little-endian 32-bit values, each resolved through the table.
pub fn convert_to_tiles(data: &[u8], tilesets: &[MapTilesetGid]) -> (r: Result<
    Vec<Option<LayerTileData>>,
    Error,
>)
    ensures
        match r {
            Ok(v) => resolve_cells(le_gids(data@), tilesets@) == Ok::<
                Seq<Option<LayerTileData>>,
                Error,
            >(v@),
            Err(e) => resolve_cells(le_gids(data@), tilesets@) == Err::<
                Seq<Option<LayerTileData>>,
                Error,
            >(e),
        },
{
    let gids = gids_from_bytes(data);
    resolve_gid_vec(&gids, tilesets)
}

/// What the base64 engine with the standard alphabet and padding decodes a
/// (trimmed) payload to, when it accepts it.
pub uninterp spec fn base64_decoded(s: Seq<u8>) -> Seq<u8>;

/// Whether the base64 engine with the standard alphabet and padding accepts
/// a payload; acceptance is a function of the input bytes alone.
pub uninterp spec fn base64_valid(s: Seq<u8>) -> bool;

/// Whether a byte sequence is a well-formed zlib stream, as inflating it to
/// the end decides.
pub uninterp spec fn zlib_valid(b: Seq<u8>) -> bool;

/// Whether a byte sequence is a well-formed gzip stream, as decompressing
/// it to the end decides.
pub uninterp spec fn gzip_valid(b: Seq<u8>) -> bool;

/// Whether a byte sequence is a well-formed zstd stream, as decompressing
/// it to the end decides.
pub uninterp spec fn zstd_valid(b: Seq<u8>) -> bool;

/// What inflating a zlib stream yields, when the stream is well-formed.
pub uninterp spec fn zlib_inflated(b: Seq<u8>) -> Seq<u8>;

/// What gunzipping a gzip stream yields, when the stream is well-formed.
pub uninterp spec fn gzip_inflated(b: Seq<u8>) -> Seq<u8>;

/// What zstd decompression yields, when the stream is well-formed.
pub uninterp spec fn zstd_inflated(b: Seq<u8>) -> Seq<u8>;

/// Relies on base64::engine::general_purpose::STANDARD (the standard
/// alphabet with padding, as Engine::decode uses it): decoding is a function
/// of the input bytes alone; rejection is reported with the decoder's
/// message.
#[verifier::external_body]
fn b64_decode(data: &[u8]) -> (r: Result<Vec<u8>, String>)
    ensures
        r is Ok <==> base64_valid(data@),
        r matches Ok(v) ==> v@ == base64_decoded(data@),
{
    base64::engine::general_purpose::STANDARD.decode(data).map_err(|e| e.to_string())
}

/// Relies on flate2::bufread::ZlibDecoder driven by std::io::Read::
/// read_to_end: inflating is a function of the compressed bytes alone; a
/// malformed stream is reported with the decoder's message.
#[verifier::external_body]
fn zlib_decompress(data: &[u8]) -> (r: Result<Vec<u8>, String>)
    ensures
        r is Ok <==> zlib_valid(data@),
        r matches Ok(v) ==> v@ == zlib_inflated(data@),
{
    let mut d = flate2::bufread::ZlibDecoder::new(data);
    let mut out: Vec<u8> = Vec::new();
    match std::io::Read::read_to_end(&mut d, &mut out) {
        Ok(_) => Ok(out),
        Err(e) => Err(e.to_string()),
    }
}

/// Relies on flate2::bufread::GzDecoder driven by std::io::Read::
/// read_to_end: decompression is a function of the compressed bytes alone; a
/// malformed stream is reported with the decoder's message.
#[verifier::external_body]
fn gzip_decompress(data: &[u8]) -> (r: Result<Vec<u8>, String>)
    ensures
        r is Ok <==> gzip_valid(data@),
        r matches Ok(v) ==> v@ == gzip_inflated(data@),
{
    let mut d = flate2::bufread::GzDecoder::new(data);
    let mut out: Vec<u8> = Vec::new();
    match std::io::Read::read_to_end(&mut d, &mut out) {
        Ok(_) => Ok(out),
        Err(e) => Err(e.to_string()),
    }
}

/// Relies on zstd::stream::read::Decoder driven by std::io::Read::
/// read_to_end: decompression is a function of the compressed bytes alone; a
/// malformed stream is reported with the decoder's message.
#[verifier::external_body]
fn zstd_decompress(data: &[u8]) -> (r: Result<Vec<u8>, String>)
    ensures
        r is Ok <==> zstd_valid(data@),
        r matches Ok(v) ==> v@ == zstd_inflated(data@),
{
    let mut out: Vec<u8> = Vec::new();
    match zstd::stream::read::Decoder::with_buffer(data) {
        Ok(mut d) => match std::io::Read::read_to_end(&mut d, &mut out) {
            Ok(_) => Ok(out),
            Err(e) => Err(e.to_string()),
        },
        Err(e) => Err(e.to_string()),
    }
}

/// Reads the data element's one text payload and base64-decodes its trimmed
/// content; the closing tag before any text is an empty payload. Decoding
/// succeeds exactly on payloads the engine accepts, and yields exactly its
/// decoded bytes.
pub fn parse_base64(parser: &mut Parser) -> (r: Result<Vec<u8>, Error>)
    requires
        old(parser).wf(),
    ensures
        final(parser).wf(),
        final(parser).events == old(parser).events,
        old(parser).pos <= final(parser).pos,
        match scan_payload(old(parser).events@, old(parser).pos as int) {
            PayloadScan::Payload { text, next } => final(parser).pos == next && (if base64_valid(
                trim_spec(encode_utf8(text)),
            ) {
                r matches Ok(v) && v@ == base64_decoded(trim_spec(encode_utf8(text)))
            } else {
                r matches Err(e) && e matches Error::Base64Decoding(_)
            }),
            PayloadScan::Closed { next } => final(parser).pos == next && (r matches Ok(v) && v@
                == Seq::<u8>::empty()),
            PayloadScan::Truncated => r matches Err(e) && e matches Error::PrematureEnd(_),
        },
{
    loop
        invariant
            parser.wf(),
            parser.events == old(parser).events,
            old(parser).pos <= parser.pos,
            scan_payload(parser.events@, old(parser).pos as int) == scan_payload(
                parser.events@,
                parser.pos as int,
            ),
        decreases parser.remaining(),
    {
        let ev = parser.read_event();
        match ev {
            XmlEvent::Text { text } => {
                let bytes: &[u8] = text.as_str().as_bytes();
                let (lo, hi) = crate::text::trim_bounds(bytes);
                let sub = vstd::slice::slice_subrange(bytes, lo, hi);
                match b64_decode(sub) {
                    Ok(v) => {
                        return Ok(v);
                    },
                    Err(m) => {
                        return Err(Error::Base64Decoding(m));
                    },
                }
            },
            XmlEvent::End { name } => {
                if crate::xml::string_eq_str(&name, "data") {
                    return Ok(Vec::new());
                }
            },
            XmlEvent::Eof => {
                return Err(Error::PrematureEnd(String::from_str("data element never closed")));
            },
            _ => {},
        }
    }
}

/// What decoding a csv payload against a table must yield: the fields'
/// values resolved in order, a csv error when a field does not parse, the
/// first resolution failure otherwise.
pub open spec fn csv_cells_post(
    text: Seq<char>,
    ts: Seq<MapTilesetGid>,
    r: Result<Vec<Option<LayerTileData>>, Error>,
) -> bool {
    match csv_gids(split_commas(encode_utf8(text))) {
        Some(gids) => match resolve_cells(gids, ts) {
            Ok(cells) => r matches Ok(v) && v@ == cells,
            Err(e) => r matches Err(e2) && e2 == e,
        },
        None => r matches Err(e) && e matches Error::CsvDecoding(_),
    }
}

/// Reads the data element's one text payload and decodes it as
/// comma-separated unsigned cell values, each resolved through the table.
pub fn decode_csv(parser: &mut Parser, tilesets: &[MapTilesetGid]) -> (r: Result<
    Vec<Option<LayerTileData>>,
    Error,
>)
    requires
        old(parser).wf(),
    ensures
        final(parser).wf(),
        final(parser).events == old(parser).events,
        old(parser).pos <= final(parser).pos,
        match scan_payload(old(parser).events@, old(parser).pos as int) {
            PayloadScan::Payload { text, next } => final(parser).pos == next && csv_cells_post(
                text,
                tilesets@,
                r,
            ),
            PayloadScan::Closed { next } => final(parser).pos == next && (r matches Ok(v) && v@
                =~= Seq::<Option<LayerTileData>>::empty()),
            PayloadScan::Truncated => r matches Err(e) && e matches Error::PrematureEnd(_),
        },
{
    loop
        invariant
            parser.wf(),
            parser.events == old(parser).events,
            old(parser).pos <= parser.pos,
            scan_payload(parser.events@, old(parser).pos as int) == scan_payload(
                parser.events@,
                parser.pos as int,
            ),
        decreases parser.remaining(),
    {
        let ev = parser.read_event();
        match ev {
            XmlEvent::Text { text } => {
                let bytes: &[u8] = text.as_str().as_bytes();
                let fields = split_commas_exec(bytes);
                let mut gids: Vec<u32> = Vec::new();
                let mut j: usize = 0;
                while j < fields.len()
                    invariant
                        parser.wf(),
                        old(parser).pos <= parser.pos,
                        parser.events == old(parser).events,
                        scan_payload(old(parser).events@, old(parser).pos as int)
                            == (PayloadScan::Payload { text: text@, next: parser.pos as int }),
                        j <= fields@.len(),
                        gids@.len() == j,
                        fields_view(fields@) == split_commas(encode_utf8(text@)),
                        forall|k: int|
                            0 <= k < j ==> parse_u32_spec(
                                trim_spec(#[trigger] fields_view(fields@)[k]),
                            ) == Some(gids@[k]),
                    decreases fields@.len() - j,
                {
                    let fs: &[u8] = fields[j].as_slice();
                    proof {
                        assert(fs@ == fields_view(fields@)[j as int]);
                    }
                    let (lo, hi) = crate::text::trim_bounds(fs);
                    let sub = vstd::slice::slice_subrange(fs, lo, hi);
                    match crate::text::parse_u32_bytes(sub) {
                        Some(g) => {
                            gids.push(g);
                        },
                        None => {
                            proof {
                                lemma_csv_gids_bad(fields_view(fields@), j as int);
                            }
                            return Err(
                                Error::CsvDecoding(
                                    String::from_str(
                                        "a field is not an unsigned 32-bit integer",
                                    ),
                                ),
                            );
                        },
                    }
                    j = j + 1;
                }
                proof {
                    lemma_csv_gids_all(fields_view(fields@), gids@);
                }
                return resolve_gid_vec(&gids, tilesets);
            },
            XmlEvent::End { name } => {
                if crate::xml::string_eq_str(&name, "data") {
                    return Ok(Vec::new());
                }
            },
            XmlEvent::Eof => {
                return Err(Error::PrematureEnd(String::from_str("data element never closed")));
            },
            _ => {},
        }
    }
}

/// The view of an optional borrowed string.
pub open spec fn opt_ref_view(o: Option<&String>) -> Option<Seq<char>> {
    match o {
        Some(s) => Some(s@),
        None => None,
    }
}

/// The view of an optional owned string.
pub open spec fn opt_string_view(o: Option<String>) -> Option<Seq<char>> {
    match o {
        Some(s) => Some(s@),
        None => None,
    }
}

/// The closed set of supported `(encoding, compression)` pairs.
pub open spec fn pair_supported(enc: Option<Seq<char>>, comp: Option<Seq<char>>) -> bool {
    (enc == Some("csv"@) && comp is None) || (enc == Some("base64"@) && (comp is None || comp
        == Some("zlib"@) || comp == Some("gzip"@) || comp == Some("zstd"@)))
}

/// What decompression yields on the base64-decoded payload for each
/// supported compression.
pub open spec fn inflate_spec(comp: Option<Seq<char>>, b: Seq<u8>) -> Seq<u8> {
    if comp is None {
        b
    } else if comp == Some("zlib"@) {
        zlib_inflated(b)
    } else if comp == Some("gzip"@) {
        gzip_inflated(b)
    } else {
        zstd_inflated(b)
    }
}

/// Whether decompression accepts the base64-decoded payload for each
/// supported compression; no compression accepts everything.
pub open spec fn inflate_valid(comp: Option<Seq<char>>, b: Seq<u8>) -> bool {
    if comp is None {
        true
    } else if comp == Some("zlib"@) {
        zlib_valid(b)
    } else if comp == Some("gzip"@) {
        gzip_valid(b)
    } else {
        zstd_valid(b)
    }
}

/// The decompressed bytes of a base64 payload: an empty decoded payload is
/// an empty cell sequence and is never handed to a decompressor.
pub open spec fn plain_bytes(comp: Option<Seq<char>>, text: Seq<char>) -> Seq<u8> {
    let raw = base64_decoded(trim_spec(encode_utf8(text)));
    if raw.len() == 0 {
        raw
    } else {
        inflate_spec(comp, raw)
    }
}

/// What decoding a base64 payload against a table must yield, exactly: a
/// rejected payload is the base64 failure; an empty decoded payload is the
/// empty cell sequence; a stream the decompressor rejects is the
/// decompression failure; otherwise the decompressed bytes' cell values
/// resolved in order, or the first failing resolution.
pub open spec fn b64_cells_post(
    comp: Option<Seq<char>>,
    text: Seq<char>,
    ts: Seq<MapTilesetGid>,
    r: Result<Vec<Option<LayerTileData>>, Error>,
) -> bool {
    let tb = trim_spec(encode_utf8(text));
    if !base64_valid(tb) {
        r matches Err(e) && e matches Error::Base64Decoding(_)
    } else {
        let raw = base64_decoded(tb);
        if raw.len() == 0 {
            r matches Ok(v) && v@ == Seq::<Option<LayerTileData>>::empty()
        } else if !inflate_valid(comp, raw) {
            r matches Err(e) && e matches Error::Decompressing(_)
        } else {
            match resolve_cells(le_gids(inflate_spec(comp, raw)), ts) {
                Ok(cells) => r matches Ok(v) && v@ == cells,
                Err(e) => r matches Err(e2) && e2 == e,
            }
        }
    }
}

/// Decodes one data element's payload: dispatches on the closed
/// `(encoding, compression)` matrix, reads the element's one text token,
/// decodes, decompresses, and resolves every cell in source order. An
/// unsupported pair fails with the invalid-encoding error carrying both
/// strings exactly; an element closed without text is an empty cell
/// sequence.
pub fn parse_data_line(
    encoding: Option<&String>,
    compression: Option<&String>,
    parser: &mut Parser,
    tilesets: &[MapTilesetGid],
) -> (r: Result<Vec<Option<LayerTileData>>, Error>)
    requires
        old(parser).wf(),
    ensures
        final(parser).wf(),
        final(parser).events == old(parser).events,
        old(parser).pos <= final(parser).pos,
        !pair_supported(opt_ref_view(encoding), opt_ref_view(compression)) ==> (final(parser).pos
            == old(parser).pos && (r matches Err(e) && (e matches Error::InvalidEncodingFormat {
            encoding: e2,
            compression: c2,
        } && opt_string_view(e2) == opt_ref_view(encoding) && opt_string_view(c2) == opt_ref_view(
            compression,
        )))),
        pair_supported(opt_ref_view(encoding), opt_ref_view(compression)) ==> match scan_payload(
            old(parser).events@,
            old(parser).pos as int,
        ) {
            PayloadScan::Payload { text, next } => final(parser).pos == next && (if opt_ref_view(
                encoding,
            ) == Some("csv"@) {
                csv_cells_post(text, tilesets@, r)
            } else {
                b64_cells_post(opt_ref_view(compression), text, tilesets@, r)
            }),
            PayloadScan::Closed { next } => final(parser).pos == next && (r matches Ok(v) && v@
                =~= Seq::<Option<LayerTileData>>::empty()),
            PayloadScan::Truncated => r matches Err(e) && e matches Error::PrematureEnd(_),
        },
{
    proof {
        reveal_strlit("csv");
        reveal_strlit("base64");
        assert("csv"@.len() == 3);
        assert("base64"@.len() == 6);
    }
    let enc_csv = match encoding {
        Some(e) => crate::xml::string_eq_str(e, "csv"),
        None => false,
    };
    let enc_b64 = match encoding {
        Some(e) => crate::xml::string_eq_str(e, "base64"),
        None => false,
    };
    let comp_none = compression.is_none();
    let comp_zlib = match compression {
        Some(c) => crate::xml::string_eq_str(c, "zlib"),
        None => false,
    };
    let comp_gzip = match compression {
        Some(c) => crate::xml::string_eq_str(c, "gzip"),
        None => false,
    };
    let comp_zstd = match compression {
        Some(c) => crate::xml::string_eq_str(c, "zstd"),
        None => false,
    };
    if enc_csv && comp_none {
        decode_csv(parser, tilesets)
    } else if enc_b64 && (comp_none || comp_zlib || comp_gzip || comp_zstd) {
        let data = match parse_base64(parser) {
            Ok(d) => d,
            Err(e) => {
                return Err(e);
            },
        };
        if data.len() == 0 {
            let empty_cells: Vec<Option<LayerTileData>> = Vec::new();
            proof {
                assert(le_gids(data@) =~= Seq::<u32>::empty());
                assert(empty_cells@ =~= Seq::<Option<LayerTileData>>::empty());
            }
            return Ok(empty_cells);
        }
        if comp_none {
            convert_to_tiles(data.as_slice(), tilesets)
        } else if comp_zlib {
            match zlib_decompress(data.as_slice()) {
                Ok(plain) => convert_to_tiles(plain.as_slice(), tilesets),
                Err(m) => Err(Error::Decompressing(m)),
            }
        } else if comp_gzip {
            match gzip_decompress(data.as_slice()) {
                Ok(plain) => convert_to_tiles(plain.as_slice(), tilesets),
                Err(m) => Err(Error::Decompressing(m)),
            }
        } else {
            match zstd_decompress(data.as_slice()) {
                Ok(plain) => convert_to_tiles(plain.as_slice(), tilesets),
                Err(m) => Err(Error::Decompressing(m)),
            }
        }
    } else {
        let e2: Option<String> = match encoding {
            Some(e) => Some(e.clone()),
            None => None,
        };
        let c2: Option<String> = match compression {
            Some(c) => Some(c.clone()),
            None => None,
        };
        Err(Error::InvalidEncodingFormat { encoding: e2, compression: c2 })
    }
}

/// The decoded cell sequence is a function of the decompressed payload
/// bytes alone: whenever two accepted base64 payloads, under any supported
/// compression routes (plain, zlib, gzip or zstd), decompress to the same
/// bytes, the decoder's contract forces the two calls to the same outcome —
/// identical cell sequences on success, the same resolution failure
/// otherwise.
pub proof fn lemma_equivalent_payloads_decode_alike(
    c1: Option<Seq<char>>,
    t1: Seq<char>,
    r1: Result<Vec<Option<LayerTileData>>, Error>,
    c2: Option<Seq<char>>,
    t2: Seq<char>,
    r2: Result<Vec<Option<LayerTileData>>, Error>,
    ts: Seq<MapTilesetGid>,
)
    requires
        base64_valid(trim_spec(encode_utf8(t1))),
        base64_valid(trim_spec(encode_utf8(t2))),
        inflate_valid(c1, base64_decoded(trim_spec(encode_utf8(t1)))),
        inflate_valid(c2, base64_decoded(trim_spec(encode_utf8(t2)))),
        plain_bytes(c1, t1) == plain_bytes(c2, t2),
        b64_cells_post(c1, t1, ts, r1),
        b64_cells_post(c2, t2, ts, r2),
    ensures
        match resolve_cells(le_gids(plain_bytes(c1, t1)), ts) {
            Ok(cells) => (r1 matches Ok(v1) && v1@ == cells) && (r2 matches Ok(v2) && v2@
                == cells),
            Err(e) => (r1 matches Err(e1) && e1 == e) && (r2 matches Err(e2) && e2 == e),
        },
{
    let raw1 = base64_decoded(trim_spec(encode_utf8(t1)));
    let raw2 = base64_decoded(trim_spec(encode_utf8(t2)));
    if raw1.len() == 0 || raw2.len() == 0 {
        assert(le_gids(plain_bytes(c1, t1)) =~= Seq::<u32>::empty());
    }
}

} // verus!
