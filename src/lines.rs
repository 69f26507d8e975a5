use vstd::prelude::*;

use crate::text::{trim, trim_start, trim_end, skip_space, drop_space, push_range};

verus! {

/// Length of the first line of `s`, its `'\n'` included.
pub open spec fn first_line_len(s: Seq<char>) -> nat
    decreases s.len(),
{
    if s.len() == 0 {
        0
    } else if s[0] == '\n' {
        1
    } else {
        1 + first_line_len(s.drop_first())
    }
}

pub proof fn lemma_first_line_len(s: Seq<char>)
    ensures
        first_line_len(s) <= s.len(),
        s.len() > 0 ==> first_line_len(s) >= 1,
    decreases s.len(),
{
    if s.len() > 0 && s[0] != '\n' {
        lemma_first_line_len(s.drop_first());
    }
}

/// The lines of `s` as a line reader hands them out: each keeps its `'\n'`,
/// the last one may lack it, and an empty text has no line.
pub open spec fn lines(s: Seq<char>) -> Seq<Seq<char>>
    decreases s.len(),
{
    if s.len() == 0 {
        seq![]
    } else {
        let n = first_line_len(s);
        proof {
            lemma_first_line_len(s);
        }
        seq![s.take(n as int)] + lines(s.skip(n as int))
    }
}

/// The lines joined back together.
pub open spec fn flatten(ls: Seq<Seq<char>>) -> Seq<char>
    decreases ls.len(),
{
    if ls.len() == 0 {
        seq![]
    } else {
        ls[0] + flatten(ls.drop_first())
    }
}

pub proof fn lemma_flatten_lines(s: Seq<char>)
    ensures
        flatten(lines(s)) == s,
    decreases s.len(),
{
    if s.len() > 0 {
        let n = first_line_len(s) as int;
        lemma_first_line_len(s);
        lemma_flatten_lines(s.skip(n));
        assert(lines(s).drop_first() =~= lines(s.skip(n)));
        assert(s.take(n) + s.skip(n) =~= s);
    }
}

/// A declaration line: after its leading white space it starts with `let`.
pub open spec fn is_decl_line(l: Seq<char>) -> bool {
    let t = trim_start(l);
    t.len() >= 3 && t[0] == 'l' && t[1] == 'e' && t[2] == 't'
}

/// The index of the first declaration line at or after `k`.
pub open spec fn decl_from(ls: Seq<Seq<char>>, k: int) -> Option<int>
    decreases ls.len() - k,
{
    if k < 0 || k >= ls.len() {
        None
    } else if is_decl_line(ls[k]) {
        Some(k)
    } else {
        decl_from(ls, k + 1)
    }
}

/// The index of the first declaration line.
pub open spec fn decl_index(ls: Seq<Seq<char>>) -> Option<int> {
    decl_from(ls, 0)
}

pub proof fn lemma_decl_from_bound(ls: Seq<Seq<char>>, k: int)
    ensures
        decl_from(ls, k) matches Some(d) ==> k <= d < ls.len() && is_decl_line(ls[d]),
    decreases ls.len() - k,
{
    if 0 <= k < ls.len() && !is_decl_line(ls[k]) {
        lemma_decl_from_bound(ls, k + 1);
    }
}

pub proof fn lemma_decl_index_bound(ls: Seq<Seq<char>>)
    ensures
        decl_index(ls) matches Some(d) ==> 0 <= d < ls.len() && is_decl_line(ls[d]),
{
    lemma_decl_from_bound(ls, 0);
}

/// A trimmed line that is a line comment.
pub open spec fn is_comment(t: Seq<char>) -> bool {
    t.len() >= 2 && t[0] == '/' && t[1] == '/'
}

/// The text of the comment lines that document a declaration preceded by
/// `ls`, top to bottom: the scan walks up from the last line, stops at a
/// blank line, and passes over a line that is not a comment.
pub open spec fn doc_pieces(ls: Seq<Seq<char>>) -> Seq<Seq<char>>
    decreases ls.len(),
{
    if ls.len() == 0 {
        seq![]
    } else {
        let t = trim(ls.last());
        if t.len() == 0 {
            seq![]
        } else if is_comment(t) {
            doc_pieces(ls.drop_last()).push(trim_start(t.skip(2)))
        } else {
            doc_pieces(ls.drop_last())
        }
    }
}

/// Each piece followed by one space.
pub open spec fn join_spaced(ps: Seq<Seq<char>>) -> Seq<char>
    decreases ps.len(),
{
    if ps.len() == 0 {
        seq![]
    } else {
        join_spaced(ps.drop_last()) + ps.last() + seq![' ']
    }
}

/// Where the line after line `k` starts, `pos` after the last of `starts`.
pub open spec fn next_start(starts: Seq<usize>, pos: usize, k: int) -> int {
    if k + 1 < starts.len() {
        starts[k + 1] as int
    } else {
        pos as int
    }
}

/// Line `k` of `ls` is the text of `s` from `starts[k]` to the next start.
pub open spec fn lines_at(s: Seq<char>, ls: Seq<Seq<char>>, starts: Seq<usize>, pos: usize) -> bool {
    forall|k: int|
        #![trigger starts[k]]
        0 <= k < starts.len() ==> {
            &&& starts[k] <= next_start(starts, pos, k) <= s.len()
            &&& k < ls.len()
            &&& ls[k] == s.subrange(starts[k] as int, next_start(starts, pos, k))
        }
}

/// Length of the line of `s` that starts at `i`.
pub fn line_len(s: &Vec<char>, i: usize) -> (n: usize)
    requires
        i <= s@.len(),
    ensures
        n == first_line_len(s@.skip(i as int)),
        i + n <= s@.len(),
        i < s@.len() ==> n >= 1,
{
    let mut j = i;
    while j < s.len() && s[j] != '\n'
        invariant
            i <= j <= s@.len(),
            first_line_len(s@.skip(i as int)) == (j - i) + first_line_len(s@.skip(j as int)),
        decreases s@.len() - j,
    {
        assert(s@.skip(j as int).drop_first() =~= s@.skip(j + 1));
        j = j + 1;
    }
    if j < s.len() {
        j + 1 - i
    } else {
        assert(s@.skip(j as int).len() == 0);
        j - i
    }
}

/// Where the lines before the declaration start, and where the declaration
/// line starts; `Err` holds the number of lines where there is none.
pub fn find_decl(s: &Vec<char>) -> (r: Result<(Vec<usize>, usize), usize>)
    ensures
        match r {
            Ok((starts, pos)) => {
                &&& decl_index(lines(s@)) == Some(starts@.len() as int)
                &&& starts@.len() < lines(s@).len()
                &&& pos <= s@.len()
                &&& lines(s@).skip(starts@.len() as int) == lines(s@.skip(pos as int))
                &&& lines_at(s@, lines(s@), starts@, pos)
            },
            Err(count) => decl_index(lines(s@)) is None && count == lines(s@).len(),
        },
{
    let ghost ls = lines(s@);
    let mut starts: Vec<usize> = Vec::new();
    let mut pos: usize = 0;
    assert(s@.skip(0) =~= s@);
    while pos < s.len()
        invariant
            ls == lines(s@),
            pos <= s@.len(),
            starts@.len() <= ls.len(),
            ls.skip(starts@.len() as int) == lines(s@.skip(pos as int)),
            decl_index(ls) == decl_from(ls, starts@.len() as int),
            lines_at(s@, ls, starts@, pos),
        decreases s@.len() - pos,
    {
        let n = line_len(s, pos);
        let ghost rest = s@.skip(pos as int);
        let ghost c = starts@.len() as int;
        assert(rest.len() > 0);
        assert(lines(rest).len() > 0);
        assert(lines(rest)[0] == rest.take(n as int));
        assert(rest.take(n as int) =~= s@.subrange(pos as int, pos + n));
        assert(ls[c] == ls.skip(c)[0]);
        let a = skip_space(s, pos, pos + n);
        let is_decl = pos + n - a >= 3 && s[a] == 'l' && s[a + 1] == 'e' && s[a + 2] == 't';
        assert(trim_start(ls[c]) =~= s@.subrange(a as int, pos + n));
        if is_decl {
            assert(is_decl_line(ls[c]));
            assert(decl_from(ls, c) == Some(c));
            assert(c < ls.len());
            assert(ls.skip(c) == lines(s@.skip(pos as int)));
            return Ok((starts, pos));
        }
        let ghost old_starts = starts@;
        let ghost old_pos = pos;
        assert(rest.skip(n as int) =~= s@.skip(pos + n));
        assert(ls.skip(c + 1) =~= ls.skip(c).drop_first());
        starts.push(pos);
        pos = pos + n;
        assert forall|k: int| 0 <= k < starts@.len() implies {
            &&& starts@[k] <= next_start(starts@, pos, k) <= s@.len()
            &&& k < ls.len()
            &&& ls[k] == s@.subrange(starts@[k] as int, next_start(starts@, pos, k))
        } by {
            if k < c {
                assert(lines_at(s@, ls, old_starts, old_pos));
                assert(starts@[k] == old_starts[k]);
                assert(old_starts[k] <= next_start(old_starts, old_pos, k) <= s@.len());
                assert(ls[k] == s@.subrange(old_starts[k] as int, next_start(old_starts, old_pos, k)));
                assert(next_start(starts@, pos, k) == next_start(old_starts, old_pos, k));
            }
        }
    }
    assert(lines(s@.skip(pos as int)) =~= seq![]);
    assert(ls.skip(starts@.len() as int).len() == 0);
    Err(starts.len())
}

/// Piece `i` is the text of `s` in the range that stands `i` places from
/// the end of `found`.
pub open spec fn piece_at(s: Seq<char>, found: Seq<(usize, usize)>, pieces: Seq<Seq<char>>, i: int) -> bool {
    let r = found[found.len() - 1 - i];
    &&& r.0 <= r.1 <= s.len()
    &&& pieces[i] == s.subrange(r.0 as int, r.1 as int)
}

pub open spec fn pieces_at(s: Seq<char>, found: Seq<(usize, usize)>, pieces: Seq<Seq<char>>) -> bool {
    forall|i: int| 0 <= i < pieces.len() ==> #[trigger] piece_at(s, found, pieces, i)
}

/// The docstring of a declaration preceded by the lines `ls`.
pub open spec fn docstring_of(ls: Seq<Seq<char>>) -> Seq<char> {
    trim_end(join_spaced(doc_pieces(ls)))
}

/// The docstring of the declaration whose preceding lines start at `starts`,
/// the declaration line itself at `pos`.
pub fn docstring(s: &Vec<char>, starts: &Vec<usize>, pos: usize) -> (d: Vec<char>)
    requires
        starts@.len() <= lines(s@).len(),
        lines_at(s@, lines(s@), starts@, pos),
        pos <= s@.len(),
    ensures
        d@ == docstring_of(lines(s@).take(starts@.len() as int)),
{
    let ghost ls = lines(s@);
    let ghost c = starts@.len() as int;
    let mut j: usize = starts.len();
    let mut stop = false;
    let mut found: Vec<(usize, usize)> = Vec::new();
    let ghost mut pieces: Seq<Seq<char>> = seq![];
    assert(ls.take(c).take(c) =~= ls.take(c));
    while j > 0 && !stop
        invariant
            ls == lines(s@),
            c == starts@.len(),
            c <= ls.len(),
            j <= c,
            lines_at(s@, ls, starts@, pos),
            stop ==> doc_pieces(ls.take(j as int)) == Seq::<Seq<char>>::empty(),
            doc_pieces(ls.take(c)) == doc_pieces(ls.take(j as int)) + pieces,
            pieces.len() == found@.len(),
            pieces_at(s@, found@, pieces),
        decreases j + (if stop {
            0int
        } else {
            1int
        }),
    {
        let k = j - 1;
        let lo = starts[k];
        let hi = if k + 1 < starts.len() {
            starts[k + 1]
        } else {
            pos
        };
        assert(starts@[k as int] == lo);
        assert(ls[k as int] == s@.subrange(lo as int, hi as int));
        let ghost lj = ls.take(j as int);
        assert(lj.drop_last() =~= ls.take(k as int));
        assert(lj.last() == ls[k as int]);
        let a = skip_space(s, lo, hi);
        let e = drop_space(s, a, hi);
        assert(trim(ls[k as int]) =~= s@.subrange(a as int, e as int));
        if a == e {
            stop = true;
        } else {
            if e - a >= 2 && s[a] == '/' && s[a + 1] == '/' {
                let b = skip_space(s, a + 2, e);
                assert(s@.subrange(a as int, e as int).skip(2) =~= s@.subrange(a + 2, e as int));
                let ghost old_pieces = pieces;
                let ghost old_found = found@;
                proof {
                    pieces = seq![s@.subrange(b as int, e as int)] + pieces;
                    assert(doc_pieces(lj) == doc_pieces(ls.take(k as int)).push(
                        s@.subrange(b as int, e as int),
                    ));
                    assert(doc_pieces(ls.take(k as int)).push(s@.subrange(b as int, e as int))
                        + old_pieces =~= doc_pieces(ls.take(k as int)) + pieces);
                }
                found.push((b, e));
                assert forall|i: int| 0 <= i < pieces.len() implies piece_at(s@, found@, pieces, i) by {
                    if i > 0 {
                        assert(pieces[i] == old_pieces[i - 1]);
                        assert(found@[found@.len() - 1 - i] == old_found[old_found.len() - 1 - (i - 1)]);
                        assert(piece_at(s@, old_found, old_pieces, i - 1));
                    }
                }
            }
            j = k;
        }
    }
    assert(doc_pieces(ls.take(j as int)) =~= Seq::<Seq<char>>::empty());
    assert(doc_pieces(ls.take(c)) =~= pieces);
    let mut d: Vec<char> = Vec::new();
    let mut i: usize = 0;
    while i < found.len()
        invariant
            i <= found@.len() == pieces.len(),
            pieces_at(s@, found@, pieces),
            d@ == join_spaced(pieces.take(i as int)),
        decreases found@.len() - i,
    {
        let (lo, hi) = found[found.len() - 1 - i];
        assert(piece_at(s@, found@, pieces, i as int));
        push_range(&mut d, s, lo, hi);
        d.push(' ');
        assert(pieces.take(i + 1).drop_last() =~= pieces.take(i as int));
        i = i + 1;
    }
    assert(pieces.take(i as int) =~= pieces);
    let e = drop_space(&d, 0, d.len());
    assert(d@.subrange(0, d@.len() as int) =~= d@);
    d.truncate(e);
    assert(d@ =~= d@.subrange(0, e as int));
    d
}

} // verus!
