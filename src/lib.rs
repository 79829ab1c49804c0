//! Recursive full-text search over a directory tree: candidate selection,
//! byte-order-mark based decoding, and line-indexed matching with context.

pub mod extractor;
pub mod metadata;
pub mod run;
pub mod scanner;
pub mod search;
pub mod text;

pub use extractor::{decode_text, detect_encoding, PlainTextExtractor, TextEncoding, TextExtractor};
pub use metadata::FileMetadata;
pub use run::{Action, SearchRun, Stage};
pub use scanner::{scan_directory, FileScanner, WalkEntry};
pub use search::{Match, SearchEngine, SearchError, SearchOptions, SearchResult};
