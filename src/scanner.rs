//! Candidate selection: which walked entries are searched. The walk itself
//! (ignore rules, depth limit) happens where the file system is reachable;
//! this module keeps the regular files whose extension passes the filter.

use vstd::prelude::*;
use crate::text::{lower_of, lowercase};

verus! {

/// How a directory tree is walked.
pub struct FileScanner {
    use_gitignore: bool,
    max_depth: Option<usize>,
}

/// One entry met by a directory walk.
pub struct WalkEntry {
    pub path: String,
    /// Whether the entry is a regular file.
    pub is_file: bool,
}

/// What `Path::extension` makes of a path, as text.
pub uninterp spec fn extension_of(path: Seq<char>) -> Option<Seq<char>>;

/// Relies on `Path::extension`: the part of the file name after its last
/// dot, if any; a `&str` path is valid UTF-8, so the lossy conversion keeps it.
#[verifier::external_body]
fn path_extension(path: &str) -> (r: Option<String>)
    ensures
        match r {
            Some(x) => extension_of(path@) == Some(x@),
            None => extension_of(path@) is None,
        },
{
    std::path::Path::new(path).extension().map(|e| e.to_string_lossy().into_owned())
}

/// The character views of an optional list of extensions.
pub open spec fn ext_views(o: Option<Vec<String>>) -> Option<Seq<Seq<char>>> {
    match o {
        Some(v) => Some(v@.map_values(|s: String| s@)),
        None => None,
    }
}

/// A path passes the filter `exts`: there is no filter (absent or empty), or
/// the path's extension equals one entry, ignoring case.
pub open spec fn extension_matches(path: Seq<char>, exts: Option<Seq<Seq<char>>>) -> bool {
    match exts {
        None => true,
        Some(es) => es.len() == 0 || match extension_of(path) {
            None => false,
            Some(x) => exists|i: int| 0 <= i < es.len() && lower_of(es[i]) == lower_of(x),
        },
    }
}

/// The paths of the regular files among `entries` that pass the filter, in walk order.
pub open spec fn selected(entries: Seq<WalkEntry>, exts: Option<Seq<Seq<char>>>) -> Seq<
    Seq<char>,
>
    decreases entries.len(),
{
    if entries.len() == 0 {
        Seq::<Seq<char>>::empty()
    } else {
        let e = entries.last();
        let rest = selected(entries.drop_last(), exts);
        if e.is_file && extension_matches(e.path@, exts) {
            rest.push(e.path@)
        } else {
            rest
        }
    }
}

impl FileScanner {
    /// A scanner that honours ignore rules and has no depth limit.
    pub fn new() -> (r: FileScanner)
        ensures
            r.use_gitignore(),
            r.max_depth() is None,
    {
        FileScanner { use_gitignore: true, max_depth: None }
    }

    pub closed spec fn use_gitignore(&self) -> bool {
        self.use_gitignore
    }

    pub closed spec fn max_depth(&self) -> Option<usize> {
        self.max_depth
    }

    pub fn with_gitignore(self, use_gitignore: bool) -> (r: FileScanner)
        ensures
            r.use_gitignore() == use_gitignore,
            r.max_depth() == self.max_depth(),
    {
        FileScanner { use_gitignore, max_depth: self.max_depth }
    }

    pub fn with_max_depth(self, depth: Option<usize>) -> (r: FileScanner)
        ensures
            r.use_gitignore() == self.use_gitignore(),
            r.max_depth() == depth,
    {
        FileScanner { use_gitignore: self.use_gitignore, max_depth: depth }
    }

    /// Whether the walk honours ignore files and hidden-file rules.
    pub fn gitignore(&self) -> (r: bool)
        ensures
            r == self.use_gitignore(),
    {
        self.use_gitignore
    }

    /// The deepest level the walk descends to, if limited.
    pub fn depth_limit(&self) -> (r: Option<usize>)
        ensures
            r == self.max_depth(),
    {
        self.max_depth
    }

    /// Whether `path` passes the extension filter.
    pub fn matches_extension(&self, path: &str, extensions: &Option<Vec<String>>) -> (r: bool)
        ensures
            r == extension_matches(path@, ext_views(*extensions)),
    {
        match extensions {
            None => true,
            Some(exts) => {
                if exts.len() == 0 {
                    return true;
                }
                match path_extension(path) {
                    None => false,
                    Some(ext) => {
                        let lx = lowercase(&ext);
                        let ghost es = exts@.map_values(|s: String| s@);
                        let mut i: usize = 0;
                        while i < exts.len()
                            invariant
                                i <= exts@.len(),
                                es == exts@.map_values(|s: String| s@),
                                *extensions == Some(*exts),
                                extension_of(path@) == Some(ext@),
                                lx@ == lower_of(ext@),
                                forall|j: int| 0 <= j < i ==> lower_of(es[j]) != lower_of(ext@),
                            decreases exts@.len() - i,
                        {
                            let le = lowercase(&exts[i]);
                            if le == lx {
                                assert(es[i as int] == exts@[i as int]@);
                                assert(lower_of(es[i as int]) == lower_of(ext@));
                                assert(ext_views(*extensions) == Some(es));
                                return true;
                            }
                            i = i + 1;
                        }
                        false
                    },
                }
            },
        }
    }

    /// The paths of the regular files among the walked entries that pass the
    /// extension filter, in walk order.
    pub fn select(&self, entries: &Vec<WalkEntry>, extensions: &Option<Vec<String>>) -> (r: Vec<
        String,
    >)
        ensures
            r@.map_values(|s: String| s@) == selected(entries@, ext_views(*extensions)),
    {
        let mut out: Vec<String> = Vec::new();
        let mut i: usize = 0;
        assert(entries@.subrange(0, 0) =~= Seq::<WalkEntry>::empty());
        assert(out@.map_values(|s: String| s@) =~= Seq::<Seq<char>>::empty());
        while i < entries.len()
            invariant
                i <= entries@.len(),
                out@.map_values(|s: String| s@) == selected(
                    entries@.subrange(0, i as int),
                    ext_views(*extensions),
                ),
            decreases entries@.len() - i,
        {
            let e = &entries[i];
            assert(entries@.subrange(0, i + 1).drop_last() =~= entries@.subrange(0, i as int));
            if e.is_file && self.matches_extension(e.path.as_str(), extensions) {
                let ghost before = out@.map_values(|s: String| s@);
                out.push(e.path.clone());
                assert(out@.map_values(|s: String| s@) =~= before.push(e.path@));
            }
            i = i + 1;
        }
        assert(entries@.subrange(0, entries@.len() as int) =~= entries@);
        out
    }
}

/// The candidate files among the walked entries: the regular files that pass
/// the extension filter, in walk order.
pub fn scan_directory(entries: &Vec<WalkEntry>, extensions: Option<Vec<String>>) -> (r: Vec<String>)
    ensures
        r@.map_values(|s: String| s@) == selected(entries@, ext_views(extensions)),
{
    let scanner = FileScanner::new();
    scanner.select(entries, &extensions)
}

} // verus!
