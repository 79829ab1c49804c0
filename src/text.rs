//! Character-level text utilities: conversions, line splitting, joining and
//! substring search, each stated over `Seq<char>`.

use vstd::prelude::*;

verus! {

/// What `str::to_lowercase` makes of a sequence of characters.
pub uninterp spec fn lower_of(s: Seq<char>) -> Seq<char>;

/// Relies on `str::to_lowercase`: the result depends on the characters alone,
/// and each character maps to one or more characters, so only the empty
/// string lowers to the empty string.
#[verifier::external_body]
pub(crate) fn lowercase(s: &str) -> (r: String)
    ensures
        r@ == lower_of(s@),
        r@.len() == 0 <==> s@.len() == 0,
{
    s.to_lowercase()
}

/// Relies on `str::chars`: the characters of a string, in order.
#[verifier::external_body]
pub(crate) fn chars_of(s: &str) -> (r: Vec<char>)
    ensures
        r@ == s@,
{
    s.chars().collect()
}

/// Relies on `FromIterator<&char> for String`: a string of the given characters.
#[verifier::external_body]
pub(crate) fn string_from(v: &[char]) -> (r: String)
    ensures
        r@ == v@,
{
    v.iter().collect()
}

/// The character views of a sequence of character vectors.
pub open spec fn views(v: Seq<Vec<char>>) -> Seq<Seq<char>> {
    v.map_values(|l: Vec<char>| l@)
}

/// A line that a newline ended loses one trailing carriage return.
pub open spec fn strip_cr(l: Seq<char>) -> Seq<char> {
    if l.len() > 0 && l.last() == '\r' {
        l.drop_last()
    } else {
        l
    }
}

/// The pieces of `s` between newlines, read left to right; each piece that a
/// newline closes has a trailing carriage return removed.
pub open spec fn pieces(s: Seq<char>) -> Seq<Seq<char>>
    decreases s.len(),
{
    if s.len() == 0 {
        seq![Seq::<char>::empty()]
    } else {
        let p = pieces(s.drop_last());
        if s.last() == '\n' {
            p.update(p.len() - 1, strip_cr(p.last())).push(Seq::<char>::empty())
        } else {
            p.update(p.len() - 1, p.last().push(s.last()))
        }
    }
}

/// The lines of `s`: its pieces, without the empty piece that follows a final
/// newline (so the empty text has no lines).
pub open spec fn lines_of(s: Seq<char>) -> Seq<Seq<char>> {
    let p = pieces(s);
    if p.last().len() == 0 {
        p.drop_last()
    } else {
        p
    }
}

/// Lines joined with a newline between each two.
pub open spec fn join_lines(ls: Seq<Seq<char>>) -> Seq<char>
    decreases ls.len(),
{
    if ls.len() == 0 {
        Seq::<char>::empty()
    } else if ls.len() == 1 {
        ls[0]
    } else {
        join_lines(ls.drop_last()) + seq!['\n'] + ls.last()
    }
}

/// `q` stands in `t` at index `p`.
pub open spec fn occurs_at(t: Seq<char>, q: Seq<char>, p: int) -> bool {
    0 <= p && p + q.len() <= t.len() && t.subrange(p, p + q.len()) == q
}

/// The first index at or after `start` where `q` stands in `t`, or -1.
pub open spec fn first_from(t: Seq<char>, q: Seq<char>, start: int) -> int
    decreases t.len() + 1 - start,
{
    if start < 0 || start + q.len() > t.len() {
        -1
    } else if t.subrange(start, start + q.len()) == q {
        start
    } else {
        first_from(t, q, start + 1)
    }
}

/// The non-overlapping occurrences of a non-empty `q` in `t` found left to
/// right from `start`, each search resuming where the previous match ends.
pub open spec fn occurrences(t: Seq<char>, q: Seq<char>, start: int) -> Seq<int>
    decreases t.len() - start,
{
    let p = first_from(t, q, start);
    if q.len() == 0 || p < start || p + q.len() > t.len() {
        Seq::<int>::empty()
    } else {
        seq![p] + occurrences(t, q, p + q.len())
    }
}

/// The part of `l` from `c` spanning `n` characters, cut at the end of `l`.
pub open spec fn clamped_slice(l: Seq<char>, c: int, n: int) -> Seq<char> {
    let a = if c <= l.len() {
        c
    } else {
        l.len() as int
    };
    let b = if a + n <= l.len() {
        a + n
    } else {
        l.len() as int
    };
    l.subrange(a, b)
}

pub proof fn lemma_pieces_nonempty(s: Seq<char>)
    ensures
        pieces(s).len() >= 1,
    decreases s.len(),
{
    if s.len() > 0 {
        lemma_pieces_nonempty(s.drop_last());
    }
}

pub proof fn lemma_first_from_bounds(t: Seq<char>, q: Seq<char>, start: int)
    requires
        start >= 0,
    ensures
        first_from(t, q, start) == -1 || (start <= first_from(t, q, start) && occurs_at(
            t,
            q,
            first_from(t, q, start),
        ) && forall|j: int|
            start <= j < first_from(t, q, start) ==> !occurs_at(t, q, j)),
        first_from(t, q, start) == -1 ==> forall|j: int| start <= j ==> !occurs_at(t, q, j),
    decreases t.len() + 1 - start,
{
    if start < 0 || start + q.len() > t.len() {
    } else if t.subrange(start, start + q.len()) == q {
    } else {
        lemma_first_from_bounds(t, q, start + 1);
    }
}

/// Splits text into lines at each newline, as `lines_of` states.
pub fn split_lines(s: &Vec<char>) -> (r: Vec<Vec<char>>)
    ensures
        views(r@) == lines_of(s@),
{
    let mut done: Vec<Vec<char>> = Vec::new();
    let mut cur: Vec<char> = Vec::new();
    let mut i: usize = 0;
    assert(s@.subrange(0, 0) =~= Seq::<char>::empty());
    assert(views(done@).push(cur@) =~= pieces(s@.subrange(0, 0)));
    while i < s.len()
        invariant
            i <= s.len(),
            views(done@).push(cur@) == pieces(s@.subrange(0, i as int)),
        decreases s.len() - i,
    {
        let ghost prev = s@.subrange(0, i as int);
        let ghost old_done = done@;
        let ghost old_cur = cur@;
        proof {
            lemma_pieces_nonempty(prev);
        }
        let c = s[i];
        assert(s@.subrange(0, i + 1).drop_last() =~= prev);
        if c == '\n' {
            if cur.len() > 0 && cur[cur.len() - 1] == '\r' {
                cur.pop();
            }
            assert(cur@ == strip_cr(old_cur));
            done.push(cur);
            cur = Vec::new();
            assert(views(done@).push(cur@) =~= pieces(prev).update(
                pieces(prev).len() - 1,
                strip_cr(pieces(prev).last()),
            ).push(Seq::<char>::empty()));
        } else {
            cur.push(c);
            assert(views(done@).push(cur@) =~= pieces(prev).update(
                pieces(prev).len() - 1,
                pieces(prev).last().push(c),
            ));
        }
        i = i + 1;
    }
    assert(s@.subrange(0, s@.len() as int) =~= s@);
    if cur.len() > 0 {
        done.push(cur);
        assert(views(done@) =~= pieces(s@));
    } else {
        assert(views(done@) =~= pieces(s@).drop_last());
    }
    done
}

/// Whether `q` stands in `t` at index `p`.
pub fn matches_at(t: &Vec<char>, q: &Vec<char>, p: usize) -> (r: bool)
    requires
        p + q@.len() <= t@.len(),
    ensures
        r == occurs_at(t@, q@, p as int),
{
    let n: usize = t.len();
    let mut j: usize = 0;
    while j < q.len()
        invariant
            n == t@.len(),
            p + q@.len() <= t@.len(),
            j <= q@.len(),
            forall|k: int| 0 <= k < j ==> t@[p + k] == q@[k],
        decreases q@.len() - j,
    {
        if t[p + j] != q[j] {
            assert(t@.subrange(p as int, p + q@.len())[j as int] != q@[j as int]);
            return false;
        }
        j = j + 1;
    }
    assert(t@.subrange(p as int, p + q@.len()) =~= q@);
    true
}

/// The first index at or after `start` where `q` stands in `t`.
pub fn find_from(t: &Vec<char>, q: &Vec<char>, start: usize) -> (r: Option<usize>)
    ensures
        match r {
            Some(p) => p as int == first_from(t@, q@, start as int),
            None => first_from(t@, q@, start as int) == -1,
        },
{
    let mut i: usize = start;
    if q.len() > t.len() {
        assert(first_from(t@, q@, start as int) == -1);
        return None;
    }
    let last: usize = t.len() - q.len();
    while i <= last
        invariant
            start <= i,
            last == t@.len() - q@.len(),
            first_from(t@, q@, start as int) == first_from(t@, q@, i as int),
        decreases last + 1 - i,
    {
        if matches_at(t, q, i) {
            return Some(i);
        }
        if i == last {
            assert(first_from(t@, q@, i + 1) == -1);
            return None;
        }
        i = i + 1;
    }
    None
}

/// Lines `from..to` joined with newlines.
pub fn join_range(lines: &Vec<Vec<char>>, from: usize, to: usize) -> (r: Vec<char>)
    requires
        from <= to <= lines@.len(),
    ensures
        r@ == join_lines(views(lines@).subrange(from as int, to as int)),
{
    let mut out: Vec<char> = Vec::new();
    let mut i: usize = from;
    assert(views(lines@).subrange(from as int, from as int) =~= Seq::<Seq<char>>::empty());
    while i < to
        invariant
            from <= i <= to <= lines@.len(),
            out@ == join_lines(views(lines@).subrange(from as int, i as int)),
        decreases to - i,
    {
        let ghost before = out@;
        if i > from {
            out.push('\n');
        }
        let line = &lines[i];
        let mut j: usize = 0;
        let ghost mid = out@;
        while j < line.len()
            invariant
                0 <= j <= line@.len(),
                out@ == mid + line@.subrange(0, j as int),
            decreases line@.len() - j,
        {
            out.push(line[j]);
            assert(out@ =~= mid + line@.subrange(0, j + 1));
            j = j + 1;
        }
        let ghost next = views(lines@).subrange(from as int, i + 1);
        assert(next.drop_last() =~= views(lines@).subrange(from as int, i as int));
        assert(line@.subrange(0, line@.len() as int) =~= line@);
        if i > from {
            assert(out@ =~= before + seq!['\n'] + next.last());
        } else {
            assert(out@ =~= next[0]);
        }
        i = i + 1;
    }
    out
}

/// The characters of `l` from `a` up to `b`.
pub fn slice_chars(l: &Vec<char>, a: usize, b: usize) -> (r: Vec<char>)
    requires
        a <= b <= l@.len(),
    ensures
        r@ == l@.subrange(a as int, b as int),
{
    let mut out: Vec<char> = Vec::new();
    let mut i: usize = a;
    while i < b
        invariant
            a <= i <= b <= l@.len(),
            out@ == l@.subrange(a as int, i as int),
        decreases b - i,
    {
        out.push(l[i]);
        assert(out@ =~= l@.subrange(a as int, i + 1));
        i = i + 1;
    }
    out
}

} // verus!
