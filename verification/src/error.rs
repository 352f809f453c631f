use vstd::prelude::*;

verus! {

/// The failures a load can end in. Each variant is distinct so a caller can
/// tell payload corruption from format mismatch from a missing resource.
#[derive(Debug, Clone, PartialEq)]
pub enum Error {
    /// A resource could not be obtained from the reader; holds the requested
    /// path and the reader's own message.
    ResourceLoading { path: String, cause: String },
    /// The underlying markup tokenizer reported an error.
    XmlDecoding(String),
    /// The document ended before the element being parsed was closed.
    PrematureEnd(String),
    /// The `(encoding, compression)` pair of a data element is not supported;
    /// holds both supplied strings exactly as the document gave them.
    InvalidEncodingFormat { encoding: Option<String>, compression: Option<String> },
    /// A base64 payload did not decode; holds the decoder's message.
    Base64Decoding(String),
    /// A compressed payload did not decompress; holds the decoder's message.
    Decompressing(String),
    /// A csv field did not parse as an unsigned 32-bit integer; holds a
    /// description of the failure.
    CsvDecoding(String),
    /// A required attribute was missing or did not parse; names it.
    MalformedAttributes(String),
    /// A property value did not convert to its declared type.
    InvalidPropertyValue(String),
    /// A property declared a type outside the supported set; holds the name.
    UnknownPropertyType(String),
    /// A resource path has no parent directory to resolve a relative
    /// reference against.
    PathIsNotFile,
    /// A template document held no object element.
    TemplateHasNoObject,
    /// A non-zero cell value whose masked identifier no tileset covers.
    GidNotFound(u32),
    /// External resources were nested deeper than the loader follows.
    RecursionLimit,
}

} // verus!
