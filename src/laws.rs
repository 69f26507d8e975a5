use vstd::prelude::*;

use crate::extract::{decl_text, header, transform};
use crate::lines::{
    decl_index, doc_pieces, docstring_of, flatten, is_comment, join_spaced, lemma_flatten_lines,
    lines,
};
use crate::pattern::first_match;
use crate::text::{trim, trim_end, trim_start};

verus! {

/// The text of a comment line: the trimmed line without `//` and the white
/// space after it.
pub open spec fn comment_text(l: Seq<char>) -> Seq<char> {
    trim_start(trim(l).skip(2))
}

/// Joining the lines that come before line `d` with those from `d` on gives
/// all of them back.
pub proof fn lemma_flatten_split(ls: Seq<Seq<char>>, d: int)
    requires
        0 <= d <= ls.len(),
    ensures
        flatten(ls) == flatten(ls.take(d)) + flatten(ls.skip(d)),
    decreases d,
{
    if d == 0 {
        assert(ls.take(0) =~= Seq::<Seq<char>>::empty());
        assert(ls.skip(0) =~= ls);
        assert(flatten(ls.take(0)) =~= Seq::<char>::empty());
        assert(flatten(ls) =~= Seq::<char>::empty() + flatten(ls));
    } else {
        lemma_flatten_split(ls.drop_first(), d - 1);
        assert(ls.take(d).drop_first() =~= ls.drop_first().take(d - 1));
        assert(ls.drop_first().skip(d - 1) =~= ls.skip(d));
        assert(flatten(ls.take(d)) == ls[0] + flatten(ls.take(d).drop_first()));
        assert(flatten(ls) =~= flatten(ls.take(d)) + flatten(ls.skip(d)));
    }
}

/// Comment lines with nothing but a blank line (or the start of the file)
/// above them are documented by their own text, top to bottom.
pub proof fn lemma_comment_block(above: Seq<Seq<char>>, comments: Seq<Seq<char>>)
    requires
        above.len() == 0 || trim(above.last()).len() == 0,
        forall|i: int| 0 <= i < comments.len() ==> #[trigger] is_comment(trim(comments[i])),
    ensures
        doc_pieces(above + comments) == comments.map_values(|l: Seq<char>| comment_text(l)),
        docstring_of(above + comments) == trim_end(
            join_spaced(comments.map_values(|l: Seq<char>| comment_text(l))),
        ),
    decreases comments.len(),
{
    if comments.len() == 0 {
        assert(above + comments =~= above);
        assert(comments.map_values(|l: Seq<char>| comment_text(l)) =~= Seq::<Seq<char>>::empty());
    } else {
        let rest = comments.drop_last();
        assert forall|i: int| 0 <= i < rest.len() implies #[trigger] is_comment(trim(rest[i])) by {
            assert(rest[i] == comments[i]);
        }
        lemma_comment_block(above, rest);
        assert((above + comments).drop_last() =~= above + rest);
        assert((above + comments).last() == comments.last());
        assert(is_comment(trim(comments[comments.len() - 1])));
        assert(comments.map_values(|l: Seq<char>| comment_text(l)) =~= rest.map_values(
            |l: Seq<char>| comment_text(l),
        ).push(comment_text(comments.last())));
    }
}

/// Where the lines of a file directly above its declaration are comments,
/// from the start of the file or from a blank line on, the docstring is
/// their text, top to bottom, each followed by a space, trailing white space
/// trimmed.
pub proof fn lemma_docstring_of_comment_block(s: Seq<char>, c: int, d: int)
    requires
        decl_index(lines(s)) == Some(d),
        0 <= c <= d,
        c == 0 || trim(lines(s)[c - 1]).len() == 0,
        forall|i: int| c <= i < d ==> #[trigger] is_comment(trim(lines(s)[i])),
    ensures
        docstring_of(lines(s).take(d)) == trim_end(
            join_spaced(lines(s).subrange(c, d).map_values(|l: Seq<char>| comment_text(l))),
        ),
{
    let ls = lines(s);
    crate::lines::lemma_decl_index_bound(ls);
    let above = ls.take(c);
    let comments = ls.subrange(c, d);
    assert(ls.take(d) =~= above + comments);
    assert forall|i: int| 0 <= i < comments.len() implies #[trigger] is_comment(trim(comments[i])) by {
        assert(comments[i] == ls[c + i]);
    }
    if c > 0 {
        assert(above.last() == ls[c - 1]);
    }
    lemma_comment_block(above, comments);
}

/// A blank line directly above the declaration leaves the docstring empty,
/// whatever stands above it.
pub proof fn lemma_blank_line_empty_docstring(s: Seq<char>, d: int)
    requires
        decl_index(lines(s)) == Some(d),
        d > 0,
        trim(lines(s)[d - 1]).len() == 0,
    ensures
        docstring_of(lines(s).take(d)) == Seq::<char>::empty(),
{
    let ls = lines(s);
    crate::lines::lemma_decl_index_bound(ls);
    assert(ls.take(d).last() == ls[d - 1]);
    assert(doc_pieces(ls.take(d)) =~= Seq::<Seq<char>>::empty());
    assert(join_spaced(doc_pieces(ls.take(d))) =~= Seq::<char>::empty());
}

/// The generated script is its header followed by the file's text from the
/// end of the matched declaration on, unchanged.
pub proof fn lemma_body_preserved(s: Seq<char>, folder: Seq<char>)
    requires
        transform(s, folder) is Some,
    ensures
        ({
            let ls = lines(s);
            let d = decl_index(ls)->0;
            let b = decl_text(s, d);
            let x = first_match(b)->0;
            let off = flatten(ls.take(d)).len();
            &&& b == s.skip(off as int)
            &&& transform(s, folder)->0 == header(
                folder,
                docstring_of(ls.take(d)),
                b.subrange(x.1, x.2),
                b.subrange(x.3, x.4),
            ) + s.skip(off + x.4)
        }),
{
    let ls = lines(s);
    let d = decl_index(ls)->0;
    crate::lines::lemma_decl_index_bound(ls);
    lemma_flatten_lines(s);
    lemma_flatten_split(ls, d);
    let off = flatten(ls.take(d)).len();
    let b = decl_text(s, d);
    assert(b =~= s.skip(off as int));
    let x = first_match(b)->0;
    crate::pattern::lemma_first_match_shape(b);
    assert(b.skip(x.4) =~= s.skip(off + x.4));
}

} // verus!
