use kusto_sync_tool::extract::{extract, ErrorKind};
use kusto_sync_tool::{buildFile, consumeSeparator, is_build_input, sync};

#[test]
fn end_to_end_single_line() {
    let input = "// Returns x plus one.\nlet Foo = (x: long) { x + 1 }\n";
    let out = buildFile(input, "functions/math", "functions/math/foo.csl").unwrap();
    assert_eq!(
        out,
        ".create-or-alter function with (folder=\"functions/math\", docstring=\"Returns x plus one.\") Foo(x: long) { x + 1 }\n"
    );
}

#[test]
fn multi_line_body() {
    let input = "// Computes y.\n// Second line of docs.\nlet Bar = (y: long) {\n  y * 2\n}";
    let t = extract(input, "f", "f/bar.csl").unwrap();
    assert_eq!(t.docstring, "Computes y. Second line of docs.");
    assert_eq!(t.name, "Bar");
    assert_eq!(t.inline_args, "(y: long) {");
    assert_eq!(t.body, "\n  y * 2\n}");
    assert_eq!(
        t.render(),
        ".create-or-alter function with (folder=\"f\", docstring=\"Computes y. Second line of docs.\") Bar(y: long) {\n  y * 2\n}"
    );
}

#[test]
fn contiguous_comments_joined_in_order() {
    let input = "  //   first  \n//second\n\t// third line \nlet A = (a: int) { a }\n";
    let t = extract(input, "", "a.csl").unwrap();
    assert_eq!(t.docstring, "first second third line");
}

#[test]
fn blank_line_above_declaration_empties_docstring() {
    let input = "// not seen\n\nlet A = () { 1 }\n";
    let t = extract(input, "", "a.csl").unwrap();
    assert_eq!(t.docstring, "");
}

#[test]
fn blank_line_stops_scan() {
    let input = "// far away\n   \n// near\nlet A = () { 1 }\n";
    let t = extract(input, "", "a.csl").unwrap();
    assert_eq!(t.docstring, "near");
}

#[test]
fn non_comment_line_is_passed_over() {
    let input = "// above code\nsome code\n// below code\nlet A = () { 1 }\n";
    let t = extract(input, "", "a.csl").unwrap();
    assert_eq!(t.docstring, "above code below code");
}

#[test]
fn declaration_on_first_line_has_empty_docstring() {
    let t = extract("let A = () { 1 }", "", "a.csl").unwrap();
    assert_eq!(t.docstring, "");
    assert_eq!(t.name, "A");
    assert_eq!(t.inline_args, "() { 1 }");
    assert_eq!(t.body, "");
}

#[test]
fn empty_comment_lines_keep_their_spaces() {
    let input = "// a\n//\n// b\n//\nlet A = () { 1 }\n";
    let t = extract(input, "", "a.csl").unwrap();
    assert_eq!(t.docstring, "a  b");
}

#[test]
fn missing_declaration_counts_lines() {
    let e = extract("// one\n// two\nfoo\n", "d", "d/x.csl").unwrap_err();
    assert_eq!(e.kind, ErrorKind::MissingDeclaration);
    assert_eq!(e.line, 3);
    assert_eq!(e.col, 0);
    assert_eq!(e.path, "d/x.csl");
    assert_eq!(e.detail, "no declaration found before end of file");
}

#[test]
fn missing_declaration_last_line_without_newline() {
    let e = extract("// one\nfoo", "", "x.csl").unwrap_err();
    assert_eq!(e.kind, ErrorKind::MissingDeclaration);
    assert_eq!(e.line, 2);
}

#[test]
fn empty_file_is_missing_declaration() {
    let e = buildFile("", "", "empty.csl").unwrap_err();
    assert_eq!(e.kind, ErrorKind::MissingDeclaration);
    assert_eq!(e.line, 0);
}

#[test]
fn malformed_without_equals() {
    let e = extract("// doc\n// more\nlet Foo (x: long) { x }\n", "", "m.csl").unwrap_err();
    assert_eq!(e.kind, ErrorKind::MalformedDeclaration);
    assert_eq!(e.line, 2);
    assert_eq!(e.col, 0);
    assert_eq!(e.path, "m.csl");
    assert_eq!(
        e.detail,
        "could not parse let statement based on regex: let\\s+([\\w\\d_]+)\\s+=\\s+(.+)"
    );
}

#[test]
fn malformed_without_name() {
    let e = extract("let = (x: long) { x }\n", "", "m.csl").unwrap_err();
    assert_eq!(e.kind, ErrorKind::MalformedDeclaration);
    assert_eq!(e.line, 0);
}

#[test]
fn malformed_nothing_after_equals() {
    let e = extract("let Foo =\n", "", "m.csl").unwrap_err();
    assert_eq!(e.kind, ErrorKind::MalformedDeclaration);
}

#[test]
fn declaration_word_prefix_still_counts_as_declaration_line() {
    let e = extract("letter\n", "", "m.csl").unwrap_err();
    assert_eq!(e.kind, ErrorKind::MalformedDeclaration);
    assert_eq!(e.line, 0);
}

#[test]
fn later_match_is_used_when_declaration_line_does_not_match() {
    let t = extract("let x\nlet Foo = (a) { a }\nrest", "", "m.csl").unwrap();
    assert_eq!(t.name, "Foo");
    assert_eq!(t.inline_args, "(a) { a }");
    assert_eq!(t.body, "\nrest");
}

#[test]
fn args_may_start_on_next_line() {
    let t = extract("let Foo =\n  (a) { a }\nend", "", "m.csl").unwrap();
    assert_eq!(t.inline_args, "(a) { a }");
    assert_eq!(t.body, "\nend");
}

#[test]
fn trailing_space_after_equals_at_end() {
    let t = extract("let Foo =  ", "", "m.csl").unwrap();
    assert_eq!(t.inline_args, " ");
    assert_eq!(t.body, "");
}

#[test]
fn unicode_and_underscore_names() {
    let t = extract("let F_ü9 = (x) { x }", "", "m.csl").unwrap();
    assert_eq!(t.name, "F_ü9");
}

#[test]
fn body_bytes_preserved() {
    let input = "// d\n  let   Baz   =   (z: string)  \r\n\tline two\r\n\n  trailing  ";
    let out = buildFile(input, "x/y", "x/y/baz.csl").unwrap();
    let header = ".create-or-alter function with (folder=\"x/y\", docstring=\"d\") Baz(z: string)  \r";
    assert!(out.starts_with(header));
    assert_eq!(&out[header.len()..], "\n\tline two\r\n\n  trailing  ");
}

#[test]
fn quotes_are_not_escaped() {
    let out = buildFile("// say \"hi\"\nlet Q = () { 1 }", "a\"b", "q.csl").unwrap();
    assert_eq!(
        out,
        ".create-or-alter function with (folder=\"a\"b\", docstring=\"say \"hi\"\") Q() { 1 }"
    );
}

#[test]
fn malformed_capture_is_never_produced() {
    let e = extract("let\n", "", "m.csl").unwrap_err();
    assert_ne!(e.kind, ErrorKind::MalformedCapture);
}

#[test]
fn consume_separator_skips_leading_space() {
    assert_eq!(consumeSeparator("  \t abc def\n"), "abc def\n");
    assert_eq!(consumeSeparator("abc"), "abc");
    assert_eq!(consumeSeparator(" \t\r\n"), "");
    assert_eq!(consumeSeparator(""), "");
}

#[test]
fn build_input_filter() {
    let p = |v: &[&str]| v.iter().map(|s| s.to_string()).collect::<Vec<String>>();
    assert!(is_build_input(&p(&["fns", "a.csl"]), true, "csl"));
    assert!(!is_build_input(&p(&["fns", "a.csl"]), false, "csl"));
    assert!(!is_build_input(&p(&["fns", "a.txt"]), true, "txt"));
    assert!(!is_build_input(&p(&[".out", "fns", "a.csl"]), true, "csl"));
    assert!(is_build_input(&p(&["my.outline", "a.csl"]), true, "csl"));
}

#[test]
fn sync_does_nothing() {
    sync("cluster");
}
