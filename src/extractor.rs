//! Turning the raw bytes of a file into text: the encoding is chosen by the
//! byte-order mark alone, and malformed input degrades to a lossy decode.

use vstd::prelude::*;
use vstd::utf8::{decode_utf8, valid_utf8};

verus! {

/// The encodings that a byte-order mark selects.
#[derive(Clone, Copy, Debug, PartialEq, Eq, Structural)]
pub enum TextEncoding {
    Utf8,
    Utf16Le,
    Utf16Be,
}

/// The encoding that a leading byte-order mark names, with the mark's length.
pub open spec fn bom_of(b: Seq<u8>) -> Option<(TextEncoding, int)> {
    if b.len() >= 3 && b[0] == 0xEF && b[1] == 0xBB && b[2] == 0xBF {
        Some((TextEncoding::Utf8, 3))
    } else if b.len() >= 2 && b[0] == 0xFF && b[1] == 0xFE {
        Some((TextEncoding::Utf16Le, 2))
    } else if b.len() >= 2 && b[0] == 0xFE && b[1] == 0xFF {
        Some((TextEncoding::Utf16Be, 2))
    } else {
        None
    }
}

/// The encoding assumed for `b`: the one its byte-order mark names, else UTF-8.
pub open spec fn detected(b: Seq<u8>) -> TextEncoding {
    match bom_of(b) {
        Some((e, _)) => e,
        None => TextEncoding::Utf8,
    }
}

/// The bytes after a leading byte-order mark.
pub open spec fn without_bom(b: Seq<u8>) -> Seq<u8> {
    match bom_of(b) {
        Some((_, n)) => b.subrange(n, b.len() as int),
        None => b,
    }
}

/// What `encoding_rs::Encoding::decode_without_bom_handling` returns: the
/// decoded text, and whether malformed sequences were replaced.
pub uninterp spec fn decoded_without_bom(enc: TextEncoding, b: Seq<u8>) -> (Seq<char>, bool);

/// What `String::from_utf8_lossy` makes of bytes.
pub uninterp spec fn lossy_utf8_of(b: Seq<u8>) -> Seq<char>;

/// Relies on `encoding_rs::Encoding::decode`: a leading byte-order mark is
/// removed and selects the encoding, then the rest is decoded without BOM
/// handling; valid UTF-8 decoded as UTF-8 gives its characters, with no error.
#[verifier::external_body]
fn decode_with(enc: TextEncoding, b: &[u8]) -> (r: (String, bool))
    ensures
        (r.0@, r.1) == decoded_without_bom(
            match bom_of(b@) {
                Some((e, _)) => e,
                None => enc,
            },
            without_bom(b@),
        ),
        (match bom_of(b@) {
            Some((e, _)) => e,
            None => enc,
        }) == TextEncoding::Utf8 && valid_utf8(without_bom(b@)) ==> r.0@ == decode_utf8(
            without_bom(b@),
        ) && !r.1,
{
    let e = match enc {
        TextEncoding::Utf8 => encoding_rs::UTF_8,
        TextEncoding::Utf16Le => encoding_rs::UTF_16LE,
        TextEncoding::Utf16Be => encoding_rs::UTF_16BE,
    };
    let (text, _, had_errors) = e.decode(b);
    (text.into_owned(), had_errors)
}

/// Relies on `String::from_utf8_lossy`: invalid sequences become U+FFFD, and
/// valid UTF-8 comes back as its characters.
#[verifier::external_body]
fn utf8_lossy(b: &[u8]) -> (r: String)
    ensures
        r@ == lossy_utf8_of(b@),
        valid_utf8(b@) ==> r@ == decode_utf8(b@),
{
    String::from_utf8_lossy(b).into_owned()
}

/// The text of a file with bytes `b`: empty for no bytes; else decoded in the
/// detected encoding, or decoded lossily as UTF-8 if that reports errors.
pub open spec fn text_of(b: Seq<u8>) -> Seq<char> {
    if b.len() == 0 {
        Seq::<char>::empty()
    } else {
        let d = decoded_without_bom(detected(b), without_bom(b));
        if d.1 {
            lossy_utf8_of(b)
        } else {
            d.0
        }
    }
}

/// The encoding named by a leading byte-order mark, UTF-8 when there is none.
pub fn detect_encoding(bytes: &[u8]) -> (r: TextEncoding)
    ensures
        r == detected(bytes@),
{
    if bytes.len() >= 3 && bytes[0] == 0xEF && bytes[1] == 0xBB && bytes[2] == 0xBF {
        return TextEncoding::Utf8;
    }
    if bytes.len() >= 2 && bytes[0] == 0xFF && bytes[1] == 0xFE {
        return TextEncoding::Utf16Le;
    }
    if bytes.len() >= 2 && bytes[0] == 0xFE && bytes[1] == 0xFF {
        return TextEncoding::Utf16Be;
    }
    TextEncoding::Utf8
}

/// Decodes the bytes of a file into text. A UTF-8 byte-order mark in front of
/// valid UTF-8 leaves no trace in the text.
pub fn decode_text(bytes: &[u8]) -> (r: String)
    ensures
        r@ == text_of(bytes@),
        bytes@.len() >= 3 && bytes@[0] == 0xEF && bytes@[1] == 0xBB && bytes@[2] == 0xBF
            && valid_utf8(bytes@.subrange(3, bytes@.len() as int)) ==> r@ == decode_utf8(
            bytes@.subrange(3, bytes@.len() as int),
        ),
        bom_of(bytes@) is None && valid_utf8(bytes@) ==> r@ == decode_utf8(bytes@),
{
    if bytes.len() == 0 {
        let r = String::new();
        assert(r@ =~= Seq::<char>::empty());
        assert(valid_utf8(bytes@) ==> decode_utf8(bytes@) =~= Seq::<char>::empty());
        return r;
    }
    let enc = detect_encoding(bytes);
    let (text, had_errors) = decode_with(enc, bytes);
    if had_errors {
        utf8_lossy(bytes)
    } else {
        text
    }
}

/// The extraction capability: text from the bytes of a file, and the file
/// extensions it is meant for.
pub trait TextExtractor {
    /// The text extracted from the bytes of a file.
    spec fn extracted(&self, bytes: Seq<u8>) -> Seq<char>;

    /// The extensions of the files the extractor is meant for.
    spec fn supported(&self) -> Seq<Seq<char>>;

    fn extract_text(&self, bytes: &[u8]) -> (r: String)
        ensures
            r@ == self.extracted(bytes@),
    ;

    fn supported_extensions(&self) -> (r: Vec<String>)
        ensures
            r@.map_values(|s: String| s@) == self.supported(),
    ;
}

/// Extraction for plain text files of any extension.
pub struct PlainTextExtractor;

impl PlainTextExtractor {
    pub fn new() -> (r: PlainTextExtractor) {
        PlainTextExtractor
    }
}

impl TextExtractor for PlainTextExtractor {
    /// Plain text: the bytes decoded as `text_of` states.
    open spec fn extracted(&self, bytes: Seq<u8>) -> Seq<char> {
        text_of(bytes)
    }

    open spec fn supported(&self) -> Seq<Seq<char>> {
        seq![
            "txt"@,
            "md"@,
            "log"@,
            "cfg"@,
            "conf"@,
            "json"@,
            "xml"@,
            "yml"@,
            "yaml"@,
            "toml"@,
            "ini"@,
            "csv"@,
            "tsv"@,
        ]
    }

    fn extract_text(&self, bytes: &[u8]) -> (r: String) {
        decode_text(bytes)
    }

    fn supported_extensions(&self) -> (r: Vec<String>) {
        let r = vec![
            "txt".to_string(),
            "md".to_string(),
            "log".to_string(),
            "cfg".to_string(),
            "conf".to_string(),
            "json".to_string(),
            "xml".to_string(),
            "yml".to_string(),
            "yaml".to_string(),
            "toml".to_string(),
            "ini".to_string(),
            "csv".to_string(),
            "tsv".to_string(),
        ];
        assert(r@.map_values(|s: String| s@) =~= self.supported());
        r
    }
}

} // verus!
