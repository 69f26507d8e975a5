//! Turns annotated function files (a docstring of line comments above one
//! `let NAME = ARGS` declaration) into `.create-or-alter function` scripts.

use vstd::prelude::*;

pub mod text;
pub mod lines;
pub mod pattern;
pub mod extract;
pub mod laws;

use crate::extract::{extract, extract_ok, transform, ExtractionError};
use crate::text::{chars_of, string_of};

verus! {

/// Name of the directory, under the root, that receives the generated scripts.
pub const OUT_DIR: &'static str = ".out";

/// Extension of the files that hold function declarations.
pub const SOURCE_EXT: &'static str = "csl";

/// Whether `c` is ASCII white space (space, tab, line feed, form feed, carriage return).
pub open spec fn is_ascii_space(c: char) -> bool {
    c == ' ' || c == '\t' || c == '\n' || c == '\x0C' || c == '\r'
}

/// `line` without its leading ASCII white space.
pub open spec fn after_separator(line: Seq<char>) -> Seq<char>
    decreases line.len(),
{
    if line.len() > 0 && is_ascii_space(line[0]) {
        after_separator(line.drop_first())
    } else {
        line
    }
}

/// The text of `current` (one line) from its first char that is not ASCII
/// white space on; empty where there is none.
#[allow(non_snake_case)]
pub fn consumeSeparator(current: &str) -> (r: String)
    ensures
        r@ == after_separator(current@),
{
    let s = chars_of(current);
    let mut i: usize = 0;
    assert(current@.skip(0) =~= current@);
    while i < s.len() && ascii_space(s[i])
        invariant
            s@ == current@,
            i <= s@.len(),
            after_separator(current@) == after_separator(current@.skip(i as int)),
        decreases s@.len() - i,
    {
        assert(current@.skip(i as int).drop_first() =~= current@.skip(i + 1));
        i = i + 1;
    }
    assert(s@.subrange(i as int, s@.len() as int) =~= current@.skip(i as int));
    string_of(&s.as_slice()[i..s.len()])
}

fn ascii_space(c: char) -> (r: bool)
    ensures
        r == is_ascii_space(c),
{
    c == ' ' || c == '\t' || c == '\n' || c == '\x0C' || c == '\r'
}

/// Pushes the generated scripts to a cluster; nothing is sent yet.
pub fn sync(_cluster: &str) {
}

/// Whether a walked entry is a declaration file to transform: a file with
/// the source extension, outside the output directory. `components` is its
/// path relative to the root.
pub fn is_build_input(components: &Vec<String>, is_file: bool, extension: &str) -> (r: bool)
    ensures
        r == (is_file && extension@ == SOURCE_EXT@ && forall|i: int|
            0 <= i < components@.len() ==> components@[i]@ != OUT_DIR@),
{
    if !is_file || !str_eq(extension, SOURCE_EXT) {
        return false;
    }
    let mut i: usize = 0;
    while i < components.len()
        invariant
            i <= components@.len(),
            forall|j: int| 0 <= j < i ==> components@[j]@ != OUT_DIR@,
        decreases components@.len() - i,
    {
        if str_eq(components[i].as_str(), OUT_DIR) {
            return false;
        }
        i = i + 1;
    }
    true
}

/// Whether `a` and `b` hold the same chars.
fn str_eq(a: &str, b: &str) -> (r: bool)
    ensures
        r == (a@ == b@),
{
    let n = a.unicode_len();
    if n != b.unicode_len() {
        return false;
    }
    let mut i: usize = 0;
    while i < n
        invariant
            n == a@.len() == b@.len(),
            i <= n,
            forall|j: int| 0 <= j < i ==> a@[j] == b@[j],
        decreases n - i,
    {
        if a.get_char(i) != b.get_char(i) {
            return false;
        }
        i = i + 1;
    }
    assert(a@ =~= b@);
    true
}

/// The script generated from a declaration file with text `content`, in the
/// folder `folder` relative to the root (`path` is the file's relative path,
/// for errors).
#[allow(non_snake_case)]
pub fn buildFile(content: &str, folder: &str, path: &str) -> (r: Result<String, ExtractionError>)
    ensures
        match r {
            Ok(out) => transform(content@, folder@) == Some(out@),
            Err(e) => transform(content@, folder@) is None && extract_ok(content@, folder@, path@, Err(e)),
        },
{
    match extract(content, folder, path) {
        Ok(t) => Ok(t.render()),
        Err(e) => Err(e),
    }
}

} // verus!
