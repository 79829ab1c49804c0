use text_search::{decode_text, detect_encoding, PlainTextExtractor, TextEncoding, TextExtractor};

#[test]
fn utf8_bom_is_dropped() {
    let plain = "héllo\nworld".as_bytes().to_vec();
    let mut marked = vec![0xEF, 0xBB, 0xBF];
    marked.extend_from_slice(&plain);
    assert_eq!(decode_text(&marked), "héllo\nworld");
    assert_eq!(decode_text(&marked), decode_text(&plain));
}

#[test]
fn empty_bytes_give_empty_text() {
    assert_eq!(decode_text(&[]), "");
}

#[test]
fn utf16_little_endian_is_decoded() {
    let bytes = vec![0xFF, 0xFE, b'h', 0, b'i', 0];
    assert_eq!(decode_text(&bytes), "hi");
}

#[test]
fn utf16_big_endian_is_decoded() {
    let bytes = vec![0xFE, 0xFF, 0, b'o', 0, b'k'];
    assert_eq!(decode_text(&bytes), "ok");
}

#[test]
fn malformed_utf8_is_replaced() {
    let bytes = vec![b'a', 0xC3, b'b'];
    assert_eq!(decode_text(&bytes), "a\u{FFFD}b");
}

#[test]
fn encoding_follows_the_mark() {
    assert_eq!(detect_encoding(&[0xEF, 0xBB, 0xBF, b'x']), TextEncoding::Utf8);
    assert_eq!(detect_encoding(&[0xFF, 0xFE]), TextEncoding::Utf16Le);
    assert_eq!(detect_encoding(&[0xFE, 0xFF]), TextEncoding::Utf16Be);
    assert_eq!(detect_encoding(&[0xEF, 0xBB]), TextEncoding::Utf8);
    assert_eq!(detect_encoding(b"plain"), TextEncoding::Utf8);
}

#[test]
fn plain_extractor_decodes_and_lists_extensions() {
    let x = PlainTextExtractor::new();
    assert_eq!(x.extract_text(b"abc"), "abc");
    let exts = x.supported_extensions();
    assert_eq!(exts.len(), 13);
    assert!(exts.iter().any(|e| e == "md"));
}

#[test]
fn extractor_drops_utf8_mark() {
    let x = PlainTextExtractor::new();
    let mut marked = vec![0xEF, 0xBB, 0xBF];
    marked.extend_from_slice("grüße".as_bytes());
    assert_eq!(x.extract_text(&marked), "grüße");
    assert_eq!(x.extract_text("grüße".as_bytes()), "grüße");
}

#[test]
fn extractor_gives_empty_text_for_empty_file() {
    assert_eq!(PlainTextExtractor::new().extract_text(&[]), "");
}

#[test]
fn extractor_follows_utf16_marks() {
    let x = PlainTextExtractor::new();
    assert_eq!(x.extract_text(&[0xFF, 0xFE, b'a', 0, b'b', 0]), "ab");
    assert_eq!(x.extract_text(&[0xFE, 0xFF, 0, b'a', 0, b'b']), "ab");
}

#[test]
fn extractor_falls_back_to_lossy_text() {
    let x = PlainTextExtractor::new();
    assert_eq!(x.extract_text(&[0x66, 0xFF, 0x6F]), "f\u{FFFD}o");
}

#[test]
fn extractor_lists_its_extensions_in_order() {
    let exts = PlainTextExtractor::new().supported_extensions();
    let want = ["txt", "md", "log", "cfg", "conf", "json", "xml", "yml", "yaml", "toml", "ini", "csv", "tsv"];
    assert_eq!(exts, want.iter().map(|s| s.to_string()).collect::<Vec<String>>());
}
