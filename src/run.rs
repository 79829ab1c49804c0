//! One search as a sequence of decisions. The run asks for one piece of
//! outside work at a time (the candidate list, a file's size, its bytes, its
//! metadata) and decides from each answer what comes next. Files are handled
//! in candidate order; a file with matches whose modification time cannot be
//! read ends the whole search with an error.

use vstd::prelude::*;
use crate::extractor::{decode_text, text_of};
use crate::metadata::FileMetadata;
use crate::scanner::ext_views;
use crate::search::{
    content_matches, match_views, reported_name, size_admitted, Match, SearchEngine, SearchError,
    SearchOptions, SearchResult,
};

verus! {

/// What a run waits for.
#[derive(Clone, Copy, Debug, PartialEq, Eq, Structural)]
pub enum Stage {
    /// The candidate files of the directory.
    Scan,
    /// The size of the current file.
    Size,
    /// The bytes of the current file.
    Read,
    /// The metadata of the current file, which has matches.
    Metadata,
    /// Nothing: the run is over.
    Done,
}

/// The outside work a run asks for next.
pub enum Action {
    /// Scan the directory, keeping files with these extensions (all if `None`).
    Scan(Option<Vec<String>>),
    /// Report the size of this file.
    ReadSize(String),
    /// Read all bytes of this file.
    ReadFile(String),
    /// Report the metadata of this file.
    ReadMetadata(String),
    /// Take the outcome with `finish`.
    Finish,
}

/// A copy of a list of strings.
fn clone_strings(v: &Vec<String>) -> (r: Vec<String>)
    ensures
        r@ == v@,
{
    let mut out: Vec<String> = Vec::new();
    let mut i: usize = 0;
    while i < v.len()
        invariant
            i <= v@.len(),
            out@ == v@.subrange(0, i as int),
        decreases v@.len() - i,
    {
        out.push(v[i].clone());
        assert(out@ =~= v@.subrange(0, i + 1));
        i = i + 1;
    }
    assert(out@ =~= v@);
    out
}

/// The state of one search.
pub struct SearchRun {
    query: String,
    options: SearchOptions,
    files: Vec<String>,
    index: usize,
    stage: Stage,
    pending: Vec<Match>,
    results: Vec<SearchResult>,
    error: Option<SearchError>,
}

impl SearchRun {
    pub closed spec fn stage(&self) -> Stage {
        self.stage
    }

    pub closed spec fn query(&self) -> Seq<char> {
        self.query@
    }

    pub closed spec fn options(&self) -> SearchOptions {
        self.options
    }

    /// The candidate files, once scanned.
    pub closed spec fn files(&self) -> Seq<String> {
        self.files@
    }

    /// The position of the current file among the candidates.
    pub closed spec fn index(&self) -> int {
        self.index as int
    }

    /// The matches of the current file, while its metadata is awaited.
    pub closed spec fn pending(&self) -> Seq<Match> {
        self.pending@
    }

    /// The results gathered so far.
    pub closed spec fn results(&self) -> Seq<SearchResult> {
        self.results@
    }

    pub closed spec fn error(&self) -> Option<SearchError> {
        self.error
    }

    pub closed spec fn wf(&self) -> bool {
        &&& self.index <= self.files@.len()
        &&& (self.stage == Stage::Size || self.stage == Stage::Read || self.stage
            == Stage::Metadata) ==> self.index < self.files@.len()
        &&& self.stage != Stage::Done ==> self.query@.len() > 0
        &&& self.stage != Stage::Done ==> self.error is None
    }

    /// `next` moved on from `prev` to the file after the current one.
    pub open spec fn advanced(prev: SearchRun, next: SearchRun) -> bool {
        &&& next.wf()
        &&& next.index() == prev.index() + 1
        &&& next.stage() == if prev.index() + 1 < prev.files().len() {
            Stage::Size
        } else {
            Stage::Done
        }
        &&& next.files() == prev.files()
        &&& next.query() == prev.query()
        &&& next.options() == prev.options()
        &&& next.results() == prev.results()
        &&& next.error() == prev.error()
    }

    /// A run for `query`. An empty query is over at once: nothing is scanned
    /// and the outcome is an empty list.
    pub fn new(query: String, options: SearchOptions) -> (r: SearchRun)
        ensures
            r.wf(),
            r.query() == query@,
            r.options() == options,
            r.stage() == (if query@.len() == 0 {
                Stage::Done
            } else {
                Stage::Scan
            }),
            r.results().len() == 0,
            r.files().len() == 0,
            r.error() is None,
    {
        let engine = SearchEngine::new();
        let stage = if engine.needs_scan(query.as_str()) {
            Stage::Scan
        } else {
            Stage::Done
        };
        SearchRun {
            query,
            options,
            files: Vec::new(),
            index: 0,
            stage,
            pending: Vec::new(),
            results: Vec::new(),
            error: None,
        }
    }

    /// The outside work asked for now.
    pub fn action(&self) -> (r: Action)
        requires
            self.wf(),
        ensures
            match self.stage() {
                Stage::Scan => r matches Action::Scan(e) && ext_views(e) == ext_views(
                    self.options().file_extensions,
                ),
                Stage::Size => r matches Action::ReadSize(p) && p == self.files()[self.index()],
                Stage::Read => r matches Action::ReadFile(p) && p == self.files()[self.index()],
                Stage::Metadata => r matches Action::ReadMetadata(p) && p == self.files()[
                    self.index()
                ],
                Stage::Done => r is Finish,
            },
    {
        match self.stage {
            Stage::Scan => Action::Scan(
                match &self.options.file_extensions {
                    Some(v) => Some(clone_strings(v)),
                    None => None,
                },
            ),
            Stage::Size => Action::ReadSize(self.files[self.index].clone()),
            Stage::Read => Action::ReadFile(self.files[self.index].clone()),
            Stage::Metadata => Action::ReadMetadata(self.files[self.index].clone()),
            Stage::Done => Action::Finish,
        }
    }

    fn advance(&mut self)
        requires
            old(self).wf(),
            old(self).index < old(self).files@.len(),
            old(self).error is None,
            old(self).query@.len() > 0,
        ensures
            Self::advanced(*old(self), *final(self)),
    {
        let count = self.files.len();
        self.index = self.index + 1;
        self.stage = if self.index < count {
            Stage::Size
        } else {
            Stage::Done
        };
    }

    /// Takes the candidate files; the run then works through them in order.
    pub fn on_candidates(&mut self, files: Vec<String>)
        requires
            old(self).wf(),
            old(self).stage() == Stage::Scan,
        ensures
            final(self).wf(),
            final(self).files() == files@,
            final(self).index() == 0,
            final(self).stage() == (if files@.len() == 0 {
                Stage::Done
            } else {
                Stage::Size
            }),
            final(self).query() == old(self).query(),
            final(self).options() == old(self).options(),
            final(self).results() == old(self).results(),
            final(self).error() == old(self).error(),
    {
        self.files = files;
        self.index = 0;
        self.stage = if self.files.len() == 0 {
            Stage::Done
        } else {
            Stage::Size
        };
    }

    /// Takes the size of the current file (`None` if it could not be read):
    /// a file over the limit is skipped without being read.
    pub fn on_size(&mut self, size: Option<u64>)
        requires
            old(self).wf(),
            old(self).stage() == Stage::Size,
        ensures
            size_admitted(old(self).options().max_file_size, size) ==> final(self).wf() && (
            final(self).stage() == Stage::Read) && final(self).index() == old(self).index()
                && final(self).files() == old(self).files() && final(self).query()
                == old(self).query() && final(self).options() == old(self).options()
                && final(self).results() == old(self).results() && final(self).error()
                == old(self).error(),
            !size_admitted(old(self).options().max_file_size, size) ==> Self::advanced(
                *old(self),
                *final(self),
            ),
    {
        let engine = SearchEngine::new();
        if engine.admits_size(&self.options, size) {
            self.stage = Stage::Read;
        } else {
            self.advance();
        }
    }

    /// Takes the bytes of the current file (`None` if it could not be read).
    /// An unreadable file, or one without matches, is skipped; otherwise the
    /// run asks for the file's metadata.
    pub fn on_bytes(&mut self, bytes: Option<Vec<u8>>)
        requires
            old(self).wf(),
            old(self).stage() == Stage::Read,
        ensures
            match bytes {
                None => Self::advanced(*old(self), *final(self)),
                Some(b) => {
                    let ms = content_matches(
                        text_of(b@),
                        old(self).query(),
                        old(self).options().case_sensitive,
                    );
                    if ms.len() == 0 {
                        Self::advanced(*old(self), *final(self))
                    } else {
                        &&& final(self).wf()
                        &&& final(self).stage() == Stage::Metadata
                        &&& match_views(final(self).pending()) == ms
                        &&& final(self).index() == old(self).index()
                        &&& final(self).files() == old(self).files()
                        &&& final(self).query() == old(self).query()
                        &&& final(self).options() == old(self).options()
                        &&& final(self).results() == old(self).results()
                        &&& final(self).error() == old(self).error()
                    }
                },
            },
    {
        match bytes {
            None => {
                self.advance();
            },
            Some(b) => {
                let text = decode_text(b.as_slice());
                let engine = SearchEngine::new();
                let matches = engine.search_in_content(
                    text.as_str(),
                    self.query.as_str(),
                    self.options.case_sensitive,
                );
                if matches.len() == 0 {
                    self.advance();
                } else {
                    self.pending = matches;
                    self.stage = Stage::Metadata;
                }
            },
        }
    }

    /// Takes the metadata of the current file (`None` if it could not be
    /// read). Without a modification time the search fails; otherwise the
    /// file's result is recorded and the run moves on.
    pub fn on_metadata(&mut self, metadata: Option<FileMetadata>)
        requires
            old(self).wf(),
            old(self).stage() == Stage::Metadata,
        ensures
            match metadata {
                Some(m) if m.modified is Some => {
                    let path = old(self).files()[old(self).index()];
                    let n = old(self).results().len();
                    let res = final(self).results()[n as int];
                    &&& final(self).results().len() == n + 1
                    &&& final(self).results().subrange(0, n as int) == old(self).results()
                    &&& res.file_path@ == path@
                    &&& res.file_name@ == reported_name(path@)
                    &&& res.matches@ == old(self).pending()
                    &&& res.file_size == m.size
                    &&& Some(res.modified) == m.modified
                    &&& final(self).wf()
                    &&& final(self).index() == old(self).index() + 1
                    &&& final(self).stage() == if old(self).index() + 1 < old(
                        self,
                    ).files().len() {
                        Stage::Size
                    } else {
                        Stage::Done
                    }
                    &&& final(self).files() == old(self).files()
                    &&& final(self).query() == old(self).query()
                    &&& final(self).options() == old(self).options()
                    &&& final(self).error() is None
                },
                _ => {
                    &&& final(self).wf()
                    &&& final(self).stage() == Stage::Done
                    &&& final(self).error() == Some(SearchError::ModifiedTimeUnavailable)
                },
            },
    {
        let modified = match &metadata {
            Some(m) => m.modified,
            None => None,
        };
        let size: u64 = match &metadata {
            Some(m) => m.size,
            None => 0,
        };
        let mut matches: Vec<Match> = Vec::new();
        core::mem::swap(&mut matches, &mut self.pending);
        let engine = SearchEngine::new();
        match engine.make_result(self.files[self.index].as_str(), matches, size, modified) {
            Ok(res) => {
                let ghost before = self.results@;
                self.results.push(res);
                assert(self.results@.subrange(0, before.len() as int) =~= before);
                self.advance();
            },
            Err(e) => {
                self.error = Some(e);
                self.stage = Stage::Done;
            },
        }
    }

    /// The outcome of a finished run: the error that ended it, or every
    /// file's result in candidate order.
    pub fn finish(self) -> (r: Result<Vec<SearchResult>, SearchError>)
        requires
            self.wf(),
            self.stage() == Stage::Done,
        ensures
            match self.error() {
                Some(e) => r == Err::<Vec<SearchResult>, SearchError>(e),
                None => r matches Ok(v) && v@ == self.results(),
            },
    {
        match self.error {
            Some(e) => Err(e),
            None => Ok(self.results),
        }
    }
}


/// A well-formed run for the empty query is over: it asks for no scan and
/// reads no file.
pub proof fn lemma_empty_query_is_done(run: SearchRun)
    requires
        run.wf(),
        run.query().len() == 0,
    ensures
        run.stage() == Stage::Done,
{
}

} // verus!
