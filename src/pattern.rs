use vstd::prelude::*;

use crate::text::{white_space, word_char, is_space, is_word};

verus! {

/// The declaration pattern, as the error message shows it.
pub const DECL_PATTERN: &'static str = "let\\s+([\\w\\d_]+)\\s+=\\s+(.+)";

/// A char of the class `[\w\d_]`.
pub open spec fn name_char(c: char) -> bool {
    word_char(c) || c == '_' || ('0' <= c && c <= '9')
}

/// The end of the run of white space in `b` that starts at `j`.
pub open spec fn space_end(b: Seq<char>, j: int) -> int
    decreases b.len() - j,
{
    if 0 <= j < b.len() && white_space(b[j]) {
        space_end(b, j + 1)
    } else {
        j
    }
}

/// The end of the run of name chars in `b` that starts at `j`.
pub open spec fn name_end(b: Seq<char>, j: int) -> int
    decreases b.len() - j,
{
    if 0 <= j < b.len() && name_char(b[j]) {
        name_end(b, j + 1)
    } else {
        j
    }
}

/// The end of the line of `b` at `j`, before its `'\n'`.
pub open spec fn line_end(b: Seq<char>, j: int) -> int
    decreases b.len() - j,
{
    if 0 <= j < b.len() && b[j] != '\n' {
        line_end(b, j + 1)
    } else {
        j
    }
}

/// The last index `t` with `lo <= t <= hi` that holds a char other than `'\n'`:
/// where the greedy `\s+` after `=` gives back chars until `.+` can start.
pub open spec fn args_start(b: Seq<char>, lo: int, hi: int) -> Option<int>
    decreases hi - lo + 1,
{
    if hi < lo {
        None
    } else if 0 <= hi < b.len() && b[hi] != '\n' {
        Some(hi)
    } else {
        args_start(b, lo, hi - 1)
    }
}

/// Where the declaration pattern matches `b` starting at `i`, the way a
/// backtracking matcher would take it: `(name start, name end, args start,
/// args end)`; the match ends where the args end.
pub open spec fn match_at(b: Seq<char>, i: int) -> Option<(int, int, int, int)> {
    if !(0 <= i && i + 3 <= b.len() && b[i] == 'l' && b[i + 1] == 'e' && b[i + 2] == 't') {
        None
    } else {
        let k = space_end(b, i + 3);
        if k == i + 3 || k >= b.len() || !name_char(b[k]) {
            None
        } else {
            let m = name_end(b, k);
            let p = space_end(b, m);
            if p == m || p >= b.len() || b[p] != '=' {
                None
            } else {
                let q = space_end(b, p + 1);
                if q == p + 1 {
                    None
                } else {
                    match args_start(b, p + 2, q) {
                        None => None,
                        Some(t) => Some((k, m, t, line_end(b, t))),
                    }
                }
            }
        }
    }
}

/// The leftmost match at or after `i`: `(match start, name start, name end,
/// args start, args end)`.
pub open spec fn match_from(b: Seq<char>, i: int) -> Option<(int, int, int, int, int)>
    decreases b.len() - i,
{
    if i < 0 || i >= b.len() {
        None
    } else {
        match match_at(b, i) {
            Some((k, m, t, e)) => Some((i, k, m, t, e)),
            None => match_from(b, i + 1),
        }
    }
}

/// The leftmost match of the declaration pattern in `b`.
pub open spec fn first_match(b: Seq<char>) -> Option<(int, int, int, int, int)> {
    match_from(b, 0)
}

/// Where a match splits `b`: start, name, args and the end of the match are in order.
pub open spec fn match_shape(b: Seq<char>, r: (int, int, int, int, int)) -> bool {
    0 <= r.0 < r.1 < r.2 < r.3 < r.4 <= b.len()
}

pub proof fn lemma_space_end_bound(b: Seq<char>, j: int)
    ensures
        0 <= j <= b.len() ==> j <= space_end(b, j) <= b.len(),
    decreases b.len() - j,
{
    if 0 <= j < b.len() && white_space(b[j]) {
        lemma_space_end_bound(b, j + 1);
    }
}

pub proof fn lemma_name_end_bound(b: Seq<char>, j: int)
    ensures
        0 <= j <= b.len() ==> j <= name_end(b, j) <= b.len(),
    decreases b.len() - j,
{
    if 0 <= j < b.len() && name_char(b[j]) {
        lemma_name_end_bound(b, j + 1);
    }
}

pub proof fn lemma_line_end_bound(b: Seq<char>, j: int)
    ensures
        0 <= j <= b.len() ==> j <= line_end(b, j) <= b.len(),
    decreases b.len() - j,
{
    if 0 <= j < b.len() && b[j] != '\n' {
        lemma_line_end_bound(b, j + 1);
    }
}

pub proof fn lemma_args_start_bound(b: Seq<char>, lo: int, hi: int)
    ensures
        args_start(b, lo, hi) matches Some(t) ==> lo <= t <= hi && 0 <= t < b.len() && b[t] != '\n',
    decreases hi - lo + 1,
{
    if hi >= lo && !(0 <= hi < b.len() && b[hi] != '\n') {
        lemma_args_start_bound(b, lo, hi - 1);
    }
}

/// A match at `i` splits the text in order.
pub proof fn lemma_match_at_shape(b: Seq<char>, i: int)
    ensures
        match_at(b, i) matches Some(x) ==> i < x.0 < x.1 < x.2 < x.3 <= b.len(),
{
    if 0 <= i && i + 3 <= b.len() {
        let k = space_end(b, i + 3);
        lemma_space_end_bound(b, i + 3);
        if k < b.len() && name_char(b[k]) {
            lemma_name_end_bound(b, k + 1);
            let m = name_end(b, k);
            lemma_space_end_bound(b, m);
            let p = space_end(b, m);
            if p < b.len() {
                lemma_space_end_bound(b, p + 1);
                let q = space_end(b, p + 1);
                lemma_args_start_bound(b, p + 2, q);
                if let Some(t) = args_start(b, p + 2, q) {
                    lemma_line_end_bound(b, t + 1);
                }
            }
        }
    }
}

pub proof fn lemma_match_from_shape(b: Seq<char>, i: int)
    ensures
        match_from(b, i) matches Some(x) ==> i <= x.0 && match_shape(b, x),
    decreases b.len() - i,
{
    if 0 <= i < b.len() {
        lemma_match_at_shape(b, i);
        if match_at(b, i) is None {
            lemma_match_from_shape(b, i + 1);
        }
    }
}

/// The leftmost match splits the text in order.
pub proof fn lemma_first_match_shape(b: Seq<char>)
    ensures
        first_match(b) matches Some(x) ==> match_shape(b, x),
{
    lemma_match_from_shape(b, 0);
}

fn space_end_of(b: &Vec<char>, j: usize) -> (r: usize)
    requires
        j <= b@.len(),
    ensures
        r == space_end(b@, j as int),
        j <= r <= b@.len(),
{
    let mut i = j;
    while i < b.len() && is_space(b[i])
        invariant
            j <= i <= b@.len(),
            space_end(b@, j as int) == space_end(b@, i as int),
        decreases b@.len() - i,
    {
        i = i + 1;
    }
    i
}

fn name_end_of(b: &Vec<char>, j: usize) -> (r: usize)
    requires
        j <= b@.len(),
    ensures
        r == name_end(b@, j as int),
        j <= r <= b@.len(),
{
    let mut i = j;
    while i < b.len() && (is_word(b[i]) || b[i] == '_' || ('0' <= b[i] && b[i] <= '9'))
        invariant
            j <= i <= b@.len(),
            name_end(b@, j as int) == name_end(b@, i as int),
        decreases b@.len() - i,
    {
        i = i + 1;
    }
    i
}

fn line_end_of(b: &Vec<char>, j: usize) -> (r: usize)
    requires
        j <= b@.len(),
    ensures
        r == line_end(b@, j as int),
        j <= r <= b@.len(),
{
    let mut i = j;
    while i < b.len() && b[i] != '\n'
        invariant
            j <= i <= b@.len(),
            line_end(b@, j as int) == line_end(b@, i as int),
        decreases b@.len() - i,
    {
        i = i + 1;
    }
    i
}

fn args_start_of(b: &Vec<char>, lo: usize, hi: usize) -> (r: Option<usize>)
    requires
        1 <= lo,
        hi <= b@.len(),
    ensures
        match r {
            Some(t) => args_start(b@, lo as int, hi as int) == Some(t as int) && lo <= t < b@.len()
                && b@[t as int] != '\n',
            None => args_start(b@, lo as int, hi as int) is None,
        },
{
    let mut t = hi;
    while t >= lo
        invariant
            1 <= lo,
            t <= hi <= b@.len(),
            args_start(b@, lo as int, hi as int) == args_start(b@, lo as int, t as int),
        decreases t,
    {
        if t < b.len() && b[t] != '\n' {
            return Some(t);
        }
        t = t - 1;
    }
    None
}

fn match_at_of(b: &Vec<char>, i: usize) -> (r: Option<(usize, usize, usize, usize)>)
    requires
        i < b@.len(),
    ensures
        match r {
            Some((k, m, t, e)) => match_at(b@, i as int) == Some((k as int, m as int, t as int, e as int))
                && i < k < m < t < e <= b@.len(),
            None => match_at(b@, i as int) is None,
        },
{
    if !(b.len() - i >= 3 && b[i] == 'l' && b[i + 1] == 'e' && b[i + 2] == 't') {
        return None;
    }
    let k = space_end_of(b, i + 3);
    if k == i + 3 || k >= b.len() || !(is_word(b[k]) || b[k] == '_' || ('0' <= b[k] && b[k] <= '9')) {
        return None;
    }
    assert(name_end(b@, k as int) == name_end(b@, k + 1));
    let m = name_end_of(b, k + 1);
    let p = space_end_of(b, m);
    if p == m || p >= b.len() || b[p] != '=' {
        return None;
    }
    let q = space_end_of(b, p + 1);
    if q == p + 1 {
        return None;
    }
    match args_start_of(b, p + 2, q) {
        None => None,
        Some(t) => {
            assert(line_end(b@, t as int) == line_end(b@, t + 1));
            let e = line_end_of(b, t + 1);
            Some((k, m, t, e))
        },
    }
}

/// Finds the leftmost match of the declaration pattern in `b`.
pub fn find_match(b: &Vec<char>) -> (r: Option<(usize, usize, usize, usize, usize)>)
    ensures
        match r {
            Some((i, k, m, t, e)) => first_match(b@) == Some(
                (i as int, k as int, m as int, t as int, e as int),
            ),
            None => first_match(b@) is None,
        },
        r matches Some(x) ==> match_shape(b@, (x.0 as int, x.1 as int, x.2 as int, x.3 as int, x.4 as int)),
{
    let mut i: usize = 0;
    while i < b.len()
        invariant
            i <= b@.len(),
            first_match(b@) == match_from(b@, i as int),
        decreases b@.len() - i,
    {
        match match_at_of(b, i) {
            Some((k, m, t, e)) => {
                return Some((i, k, m, t, e));
            },
            None => {},
        }
        i = i + 1;
    }
    None
}

} // verus!
