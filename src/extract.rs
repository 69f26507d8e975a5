use vstd::prelude::*;

use crate::lines::{lines, flatten, decl_index, docstring_of, find_decl, docstring};
use crate::pattern::{first_match, find_match, DECL_PATTERN};
use crate::text::{chars_of, push_range, string_of};

verus! {

/// What went wrong with a file.
#[derive(Clone, Copy, Debug, PartialEq, Eq, Structural)]
pub enum ErrorKind {
    /// The text ends before a declaration line.
    MissingDeclaration,
    /// The declaration line does not have the shape `let NAME = ARGS`.
    MalformedDeclaration,
    /// A capture of the declaration pattern is absent.
    MalformedCapture,
}

/// Why a file could not be transformed, and where.
#[derive(Debug)]
pub struct ExtractionError {
    pub kind: ErrorKind,
    /// The file's path relative to the root.
    pub path: String,
    /// The number of lines read before the failure.
    pub line: usize,
    /// Always 0: columns are not tracked.
    pub col: usize,
    pub detail: String,
}

/// What a file is turned into.
#[derive(Debug)]
pub struct TransformResult {
    /// The relative folder of the file.
    pub folder: String,
    pub docstring: String,
    pub name: String,
    /// The rest of the declaration line after `=` and the white space after it.
    pub inline_args: String,
    /// Everything after the matched declaration, unchanged.
    pub body: String,
}

pub const MISSING_DETAIL: &'static str = "no declaration found before end of file";

pub const MALFORMED_DETAIL: &'static str = "could not parse let statement based on regex: ";

pub const HEAD_FOLDER: &'static str = ".create-or-alter function with (folder=\"";

pub const HEAD_DOCSTRING: &'static str = "\", docstring=\"";

pub const HEAD_END: &'static str = "\") ";

/// The text from the declaration line of `s` on, which the pattern is matched against.
pub open spec fn decl_text(s: Seq<char>, d: int) -> Seq<char> {
    flatten(lines(s).skip(d))
}

/// The header line of a generated script.
pub open spec fn header(folder: Seq<char>, doc: Seq<char>, name: Seq<char>, args: Seq<char>) -> Seq<char> {
    HEAD_FOLDER@ + folder + HEAD_DOCSTRING@ + doc + HEAD_END@ + name + args
}

/// What `s`, in the folder `folder`, is turned into: `None` where it has no
/// declaration or one that does not match the pattern.
pub open spec fn transform(s: Seq<char>, folder: Seq<char>) -> Option<Seq<char>> {
    match decl_index(lines(s)) {
        None => None,
        Some(d) => {
            let b = decl_text(s, d);
            match first_match(b) {
                None => None,
                Some(x) => Some(
                    header(folder, docstring_of(lines(s).take(d)), b.subrange(x.1, x.2), b.subrange(x.3, x.4))
                        + b.skip(x.4),
                ),
            }
        },
    }
}

/// The outcome that `extract` owes on `s`, by cases.
pub open spec fn extract_ok(
    s: Seq<char>,
    folder: Seq<char>,
    path: Seq<char>,
    r: Result<TransformResult, ExtractionError>,
) -> bool {
    let ls = lines(s);
    match decl_index(ls) {
        None => r matches Err(e) && e.kind == ErrorKind::MissingDeclaration && e.line == ls.len()
            && e.col == 0 && e.path@ == path && e.detail@ == MISSING_DETAIL@,
        Some(d) => {
            let b = decl_text(s, d);
            match first_match(b) {
                None => r matches Err(e) && e.kind == ErrorKind::MalformedDeclaration && e.line == d
                    && e.col == 0 && e.path@ == path && e.detail@ == MALFORMED_DETAIL@ + DECL_PATTERN@,
                Some(x) => r matches Ok(t) && t.folder@ == folder && t.docstring@ == docstring_of(ls.take(d))
                    && t.name@ == b.subrange(x.1, x.2) && t.inline_args@ == b.subrange(x.3, x.4)
                    && t.body@ == b.skip(x.4),
            }
        },
    }
}

impl TransformResult {
    /// The generated script: the header line, then the body as it was.
    pub fn render(&self) -> (r: String)
        ensures
            r@ == header(self.folder@, self.docstring@, self.name@, self.inline_args@) + self.body@,
    {
        let mut r = String::from_str(HEAD_FOLDER);
        r.append(self.folder.as_str());
        r.append(HEAD_DOCSTRING);
        r.append(self.docstring.as_str());
        r.append(HEAD_END);
        r.append(self.name.as_str());
        r.append(self.inline_args.as_str());
        r.append(self.body.as_str());
        r
    }
}

/// Splits the text of a file into docstring, declaration and body.
pub fn extract(content: &str, folder: &str, path: &str) -> (r: Result<TransformResult, ExtractionError>)
    ensures
        extract_ok(content@, folder@, path@, r),
{
    let s = chars_of(content);
    let ghost ls = lines(s@);
    match find_decl(&s) {
        Err(count) => Err(
            ExtractionError {
                kind: ErrorKind::MissingDeclaration,
                path: String::from_str(path),
                line: count,
                col: 0,
                detail: String::from_str(MISSING_DETAIL),
            },
        ),
        Ok((starts, pos)) => {
            let d = starts.len();
            let mut b: Vec<char> = Vec::new();
            push_range(&mut b, &s, pos, s.len());
            proof {
                crate::lines::lemma_flatten_lines(s@.skip(pos as int));
                assert(b@ =~= s@.skip(pos as int));
            }
            assert(b@ == decl_text(s@, d as int));
            match find_match(&b) {
                None => {
                    let mut detail = String::from_str(MALFORMED_DETAIL);
                    detail.append(DECL_PATTERN);
                    Err(
                        ExtractionError {
                            kind: ErrorKind::MalformedDeclaration,
                            path: String::from_str(path),
                            line: d,
                            col: 0,
                            detail,
                        },
                    )
                },
                Some((_i, k, m, t, e)) => {
                    let doc = docstring(&s, &starts, pos);
                    Ok(
                        TransformResult {
                            folder: String::from_str(folder),
                            docstring: string_of(doc.as_slice()),
                            name: string_of(&b.as_slice()[k..m]),
                            inline_args: string_of(&b.as_slice()[t..e]),
                            body: string_of(&b.as_slice()[e..b.len()]),
                        },
                    )
                },
            }
        },
    }
}

} // verus!
