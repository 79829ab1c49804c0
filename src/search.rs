//! The search engine: per-line matching with context, and the per-file
//! decisions of one search (size limit, result assembly).

use vstd::prelude::*;
use crate::text::{
    chars_of, clamped_slice, find_from, first_from, join_lines, join_range, lemma_first_from_bounds,
    lines_of, lower_of, lowercase, occurrences, slice_chars, split_lines, string_from, views,
};

verus! {

/// Number of lines shown before and after a matched line.
pub const CONTEXT_RADIUS: usize = 10;

/// Options of one search.
pub struct SearchOptions {
    pub case_sensitive: bool,
    /// When present, only files whose extension is one of these (ignoring case).
    pub file_extensions: Option<Vec<String>>,
    /// When present, files larger than this many bytes are skipped unread.
    pub max_file_size: Option<u64>,
}

/// One occurrence of the query in a file.
pub struct Match {
    /// 1-based line index.
    pub line_number: usize,
    /// 1-based character index within the compared form of the line.
    pub column: usize,
    /// The lines around the match, joined by newlines.
    pub context: String,
    /// The text of the line at the match, in the line's own case, as long as the query.
    pub matched_text: String,
}

/// Line number, column, context and matched text of a match.
pub type MatchView = (nat, nat, Seq<char>, Seq<char>);

impl View for Match {
    type V = MatchView;

    open spec fn view(&self) -> MatchView {
        (self.line_number as nat, self.column as nat, self.context@, self.matched_text@)
    }
}

/// All matches found in one file.
pub struct SearchResult {
    pub file_path: String,
    pub file_name: String,
    pub matches: Vec<Match>,
    pub file_size: u64,
    /// Modification time, in seconds since the Unix epoch.
    pub modified: i64,
}

/// Why a search fails.
pub enum SearchError {
    /// The directory to search does not exist or is not a directory.
    InvalidDirectory,
    /// A file with matches did not report its modification time.
    ModifiedTimeUnavailable,
}

impl SearchError {
    /// A message for the caller.
    pub fn message(&self) -> (r: String)
        ensures
            r@ == match self {
                SearchError::InvalidDirectory => "Invalid directory path"@,
                SearchError::ModifiedTimeUnavailable => "Modification time unavailable"@,
            },
    {
        let s = match self {
            SearchError::InvalidDirectory => "Invalid directory path",
            SearchError::ModifiedTimeUnavailable => "Modification time unavailable",
        };
        s.to_string()
    }
}

/// The views of a sequence of matches.
pub open spec fn match_views(r: Seq<Match>) -> Seq<MatchView> {
    r.map_values(|m: Match| m@)
}

/// The form in which lines and the query are compared.
pub open spec fn compare_form(s: Seq<char>, case_sensitive: bool) -> Seq<char> {
    if case_sensitive {
        s
    } else {
        lower_of(s)
    }
}

/// First line of the context of line `k` (0-based).
pub open spec fn context_start(k: int) -> int {
    if k >= CONTEXT_RADIUS {
        k - CONTEXT_RADIUS
    } else {
        0
    }
}

/// End (exclusive) of the context of line `k` in `n` lines.
pub open spec fn context_end(k: int, n: int) -> int {
    if k + CONTEXT_RADIUS + 1 <= n {
        k + CONTEXT_RADIUS + 1
    } else {
        n
    }
}

/// The lines within the context radius of line `k`, clamped to the text.
pub open spec fn context_of(lines: Seq<Seq<char>>, k: int) -> Seq<char> {
    join_lines(lines.subrange(context_start(k), context_end(k, lines.len() as int)))
}

/// The match at 0-based line `k` and 0-based column `c`, for a query of `n` characters.
pub open spec fn match_at(lines: Seq<Seq<char>>, k: int, c: int, n: int) -> MatchView {
    ((k + 1) as nat, (c + 1) as nat, context_of(lines, k), clamped_slice(lines[k], c, n))
}

/// The matches of the compared query `q` on line `k`, left to right.
pub open spec fn line_matches(
    lines: Seq<Seq<char>>,
    k: int,
    q: Seq<char>,
    n: int,
    case_sensitive: bool,
) -> Seq<MatchView> {
    occurrences(compare_form(lines[k], case_sensitive), q, 0).map_values(
        |c: int| match_at(lines, k, c, n),
    )
}

/// The matches on the first `k` lines, in line order.
pub open spec fn matches_upto(
    lines: Seq<Seq<char>>,
    k: int,
    q: Seq<char>,
    n: int,
    case_sensitive: bool,
) -> Seq<MatchView>
    decreases k,
{
    if k <= 0 {
        Seq::<MatchView>::empty()
    } else {
        matches_upto(lines, k - 1, q, n, case_sensitive) + line_matches(
            lines,
            k - 1,
            q,
            n,
            case_sensitive,
        )
    }
}

/// Every match of `query` in `content`, by line and then by column.
pub open spec fn content_matches(
    content: Seq<char>,
    query: Seq<char>,
    case_sensitive: bool,
) -> Seq<MatchView> {
    let lines = lines_of(content);
    matches_upto(
        lines,
        lines.len() as int,
        compare_form(query, case_sensitive),
        query.len() as int,
        case_sensitive,
    )
}

/// A file of `size` bytes (unknown if `None`) is read under the limit `max`.
pub open spec fn size_admitted(max: Option<u64>, size: Option<u64>) -> bool {
    match (max, size) {
        (Some(m), Some(s)) => s <= m,
        _ => true,
    }
}

/// What `Path::file_name` makes of a path, as text.
pub uninterp spec fn file_name_of(path: Seq<char>) -> Option<Seq<char>>;

/// Relies on `Path::file_name`: the last component of a path, if it is a
/// normal one; a `&str` path is valid UTF-8, so `to_str` keeps it whole.
#[verifier::external_body]
fn base_name(path: &str) -> (r: Option<String>)
    ensures
        match r {
            Some(n) => file_name_of(path@) == Some(n@),
            None => file_name_of(path@) is None,
        },
{
    std::path::Path::new(path).file_name().and_then(|n| n.to_str()).map(|n| n.to_string())
}

/// The name reported for a file: its base name, or `"unknown"`.
pub open spec fn reported_name(path: Seq<char>) -> Seq<char> {
    match file_name_of(path) {
        Some(n) => n,
        None => "unknown"@,
    }
}

pub struct SearchEngine;

impl SearchEngine {
    pub fn new() -> (r: SearchEngine) {
        SearchEngine
    }

    /// Whether a search for `query` has anything to look for: an empty query
    /// finds nothing, and no directory is scanned for it.
    pub fn needs_scan(&self, query: &str) -> (r: bool)
        ensures
            r == (query@.len() > 0),
    {
        let q = chars_of(query);
        q.len() > 0
    }

    /// Whether a file of `size` bytes (`None` when the size could not be
    /// read) is read at all under the options' size limit.
    pub fn admits_size(&self, options: &SearchOptions, size: Option<u64>) -> (r: bool)
        ensures
            r == size_admitted(options.max_file_size, size),
    {
        match (options.max_file_size, size) {
            (Some(m), Some(s)) => s <= m,
            _ => true,
        }
    }

    /// Every non-overlapping occurrence of `query` in `content`, line by
    /// line, each with its line, column, context and the line's own text there.
    pub fn search_in_content(&self, content: &str, query: &str, case_sensitive: bool) -> (r: Vec<
        Match,
    >)
        requires
            query@.len() > 0,
        ensures
            match_views(r@) == content_matches(content@, query@, case_sensitive),
    {
        let text = chars_of(content);
        let lines = split_lines(&text);
        let ghost ls = lines_of(content@);
        let qchars = chars_of(query);
        let n: usize = qchars.len();
        let cq: Vec<char> = if case_sensitive {
            qchars
        } else {
            chars_of(&lowercase(query))
        };
        let mut result: Vec<Match> = Vec::new();
        let mut k: usize = 0;
        assert(match_views(result@) =~= matches_upto(ls, 0, cq@, n as int, case_sensitive));
        while k < lines.len()
            invariant
                views(lines@) == ls,
                cq@ == compare_form(query@, case_sensitive),
                cq@.len() > 0,
                n == query@.len(),
                k <= lines@.len(),
                match_views(result@) == matches_upto(ls, k as int, cq@, n as int, case_sensitive),
            decreases lines@.len() - k,
        {
            let line = &lines[k];
            assert(line@ == ls[k as int]);
            let cl: Vec<char> = if case_sensitive {
                slice_chars(line, 0, line.len())
            } else {
                chars_of(&lowercase(&string_from(line.as_slice())))
            };
            assert(cl@ =~= compare_form(ls[k as int], case_sensitive));
            let ghost base = match_views(result@);
            let ghost done: Seq<int> = Seq::empty();
            let mut start: usize = 0;
            while start <= cl.len()
                invariant
                    views(lines@) == ls,
                    k < lines@.len(),
                    line@ == ls[k as int],
                    cl@ == compare_form(ls[k as int], case_sensitive),
                    cq@.len() > 0,
                    n == query@.len(),
                    start <= cl@.len(),
                    occurrences(cl@, cq@, 0) == done + occurrences(cl@, cq@, start as int),
                    base == matches_upto(ls, k as int, cq@, n as int, case_sensitive),
                    match_views(result@) == base + done.map_values(
                        |c: int| match_at(ls, k as int, c, n as int),
                    ),
                ensures
                    occurrences(cl@, cq@, start as int) == Seq::<int>::empty(),
                    base == matches_upto(ls, k as int, cq@, n as int, case_sensitive),
                    occurrences(cl@, cq@, 0) == done,
                    match_views(result@) == base + done.map_values(
                        |c: int| match_at(ls, k as int, c, n as int),
                    ),
                decreases cl@.len() + 1 - start,
            {
                proof {
                    lemma_first_from_bounds(cl@, cq@, start as int);
                }
                match find_from(&cl, &cq, start) {
                    None => {
                        assert(occurrences(cl@, cq@, start as int) =~= Seq::<int>::empty());
                        break ;
                    },
                    Some(p) => {
                        let from: usize = if k >= CONTEXT_RADIUS {
                            k - CONTEXT_RADIUS
                        } else {
                            0
                        };
                        let to: usize = if lines.len() - k >= CONTEXT_RADIUS + 1 {
                            k + CONTEXT_RADIUS + 1
                        } else {
                            lines.len()
                        };
                        let context = string_from(join_range(&lines, from, to).as_slice());
                        let a: usize = if p <= line.len() {
                            p
                        } else {
                            line.len()
                        };
                        let b: usize = if n <= line.len() - a {
                            a + n
                        } else {
                            line.len()
                        };
                        let matched_text = string_from(slice_chars(line, a, b).as_slice());
                        let m = Match { line_number: k + 1, column: p + 1, context, matched_text };
                        assert(m@ == match_at(ls, k as int, p as int, n as int));
                        let ghost before = match_views(result@);
                        result.push(m);
                        assert(match_views(result@) =~= before.push(
                            match_at(ls, k as int, p as int, n as int),
                        ));
                        proof {
                            assert(occurrences(cl@, cq@, start as int) == seq![p as int]
                                + occurrences(cl@, cq@, p + cq@.len()));
                            assert(done + occurrences(cl@, cq@, start as int) =~= done.push(
                                p as int,
                            ) + occurrences(cl@, cq@, p + cq@.len()));
                            let ghost prev_done = done;
                            done = done.push(p as int);
                            assert(done.map_values(|c: int| match_at(ls, k as int, c, n as int))
                                =~= prev_done.map_values(
                                |c: int| match_at(ls, k as int, c, n as int),
                            ).push(match_at(ls, k as int, p as int, n as int)));
                            assert(match_views(result@) =~= base + done.map_values(
                                |c: int| match_at(ls, k as int, c, n as int),
                            ));
                        }
                        start = p + cq.len();
                    },
                }
            }
            proof {
                assert(match_views(result@) =~= matches_upto(
                    ls,
                    k + 1,
                    cq@,
                    n as int,
                    case_sensitive,
                ));
            }
            k = k + 1;
        }
        result
    }
    /// The result for a file whose matches were found: fails when the file's
    /// modification time could not be read.
    pub fn make_result(&self, path: &str, matches: Vec<Match>, file_size: u64, modified: Option<
        i64,
    >) -> (r: Result<SearchResult, SearchError>)
        ensures
            modified is None <==> r is Err,
            r is Err ==> r == Err::<SearchResult, SearchError>(
                SearchError::ModifiedTimeUnavailable,
            ),
            r matches Ok(res) ==> res.file_path@ == path@ && res.file_name@ == reported_name(path@)
                && res.matches@ == matches@ && res.file_size == file_size && Some(res.modified)
                == modified,
    {
        match modified {
            None => Err(SearchError::ModifiedTimeUnavailable),
            Some(t) => {
                let file_name = match base_name(path) {
                    Some(n) => n,
                    None => "unknown".to_string(),
                };
                Ok(
                    SearchResult {
                        file_path: path.to_string(),
                        file_name,
                        matches,
                        file_size,
                        modified: t,
                    },
                )
            },
        }
    }
}


proof fn lemma_matches_upto_lines(
    lines: Seq<Seq<char>>,
    k: int,
    q: Seq<char>,
    n: int,
    case_sensitive: bool,
    i: int,
)
    requires
        0 <= k <= lines.len(),
        0 <= i < matches_upto(lines, k, q, n, case_sensitive).len(),
    ensures
        1 <= matches_upto(lines, k, q, n, case_sensitive)[i].0 <= k,
        matches_upto(lines, k, q, n, case_sensitive)[i].2 == context_of(
            lines,
            matches_upto(lines, k, q, n, case_sensitive)[i].0 - 1,
        ),
    decreases k,
{
    let prev = matches_upto(lines, k - 1, q, n, case_sensitive);
    if i < prev.len() {
        lemma_matches_upto_lines(lines, k - 1, q, n, case_sensitive, i);
    } else {
        let occ = occurrences(compare_form(lines[k - 1], case_sensitive), q, 0);
        assert(matches_upto(lines, k, q, n, case_sensitive)[i] == match_at(
            lines,
            k - 1,
            occ[i - prev.len()],
            n,
        ));
    }
}

/// Every match carries as context the lines from ten before its line to ten
/// after it, cut at the first and last line of the text, joined by newlines.
pub proof fn lemma_context_window(content: Seq<char>, query: Seq<char>, case_sensitive: bool, i: int)
    requires
        0 <= i < content_matches(content, query, case_sensitive).len(),
    ensures
        ({
            let m = content_matches(content, query, case_sensitive)[i];
            let lines = lines_of(content);
            let k = m.0 - 1;
            &&& 1 <= m.0 <= lines.len()
            &&& m.2 == join_lines(
                lines.subrange(
                    if k >= 10 {
                        k - 10
                    } else {
                        0
                    },
                    if k + 11 <= lines.len() {
                        k + 11
                    } else {
                        lines.len() as int
                    },
                ),
            )
        }),
{
    let lines = lines_of(content);
    lemma_matches_upto_lines(
        lines,
        lines.len() as int,
        compare_form(query, case_sensitive),
        query.len() as int,
        case_sensitive,
        i,
    );
}

/// A file exactly at the size limit is read; one byte more and it is skipped.
pub proof fn lemma_size_limit(max: u64)
    ensures
        size_admitted(Some(max), Some(max)),
        max < u64::MAX ==> !size_admitted(Some(max), Some((max + 1) as u64)),
        size_admitted(None, Some(max)),
{
}

} // verus!
