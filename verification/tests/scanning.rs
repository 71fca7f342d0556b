use tagref::directive::{compile_directive_regex, parse, Directive, Type};
use tagref::lines::{decode_line, split_lines, text_lines};
use tagref::matcher::{present_labels, Matcher};
use tagref::scan::find;

fn scan(contents: &[u8]) -> tagref::directive::Directives {
    let tag_regex = compile_directive_regex("tag").unwrap();
    let ref_regex = compile_directive_regex("ref").unwrap();
    let file_regex = compile_directive_regex("file").unwrap();
    let dir_regex = compile_directive_regex("dir").unwrap();
    parse(&tag_regex, &ref_regex, &file_regex, &dir_regex, "dir/file.txt", contents)
}

fn shown(directives: &[Directive]) -> Vec<String> {
    directives.iter().map(|d| d.to_string()).collect()
}

#[test]
fn a_line_with_one_tag_yields_that_tag() {
    for label in ["x", "label", "a-b_c.d", "UPPER", "ünï", "1", "a:b", "[", "tag"] {
        let line = format!("[tag:{}]", label);
        let directives = scan(line.as_bytes());
        assert_eq!(directives.tags.len(), 1);
        assert_eq!(directives.tags[0].kind, Type::Tag);
        assert_eq!(directives.tags[0].label, label);
        assert_eq!(directives.tags[0].path, "dir/file.txt");
        assert_eq!(directives.tags[0].line_number, 1);
        assert!(directives.refs.is_empty());
        assert!(directives.files.is_empty());
        assert!(directives.dirs.is_empty());
    }
}

#[test]
fn the_sigil_is_matched_in_any_case_and_the_label_keeps_its_case() {
    let directives = scan(b"[TAG:L] [tag:l] [TaG:L]");
    assert_eq!(
        shown(&directives.tags),
        vec![
            "[tag:L] @ dir/file.txt:1",
            "[tag:l] @ dir/file.txt:1",
            "[tag:L] @ dir/file.txt:1"
        ],
    );
}

#[test]
fn directives_of_one_line_come_from_left_to_right() {
    let directives = scan(b"x [ref:b] y [ref:a][ref:c] [tag:t] [ref:b]");
    assert_eq!(
        shown(&directives.refs),
        vec![
            "[ref:b] @ dir/file.txt:1",
            "[ref:a] @ dir/file.txt:1",
            "[ref:c] @ dir/file.txt:1",
            "[ref:b] @ dir/file.txt:1"
        ],
    );
    assert_eq!(shown(&directives.tags), vec!["[tag:t] @ dir/file.txt:1"]);
}

#[test]
fn directives_of_many_lines_come_in_the_order_of_the_lines() {
    let directives = scan(b"[tag:z]\n\nnothing here\n[tag:a] [tag:m]\n[file:f]\n[tag:b]");
    assert_eq!(
        shown(&directives.tags),
        vec![
            "[tag:z] @ dir/file.txt:1",
            "[tag:a] @ dir/file.txt:4",
            "[tag:m] @ dir/file.txt:4",
            "[tag:b] @ dir/file.txt:6"
        ],
    );
    assert_eq!(shown(&directives.files), vec!["[file:f] @ dir/file.txt:5"]);
}

#[test]
fn a_label_runs_to_the_closing_bracket_and_is_trimmed() {
    let directives = scan(b"[ tag :  two words\t] [tag:] [tag: ] [dir: a b /c ]");
    assert_eq!(directives.tags.len(), 3);
    assert_eq!(directives.tags[0].label, "two words");
    assert_eq!(directives.tags[1].label, "");
    assert_eq!(directives.tags[2].label, "");
    assert_eq!(directives.dirs[0].label, "a b /c");
}

#[test]
fn what_is_no_directive_is_passed_over() {
    let directives = scan(b"[tag label] tag:label [tagg:x] [ta g:x] [tag:unclosed\n[tag ; x]");
    assert!(directives.tags.is_empty());
    assert!(directives.refs.is_empty());
    assert!(directives.files.is_empty());
    assert!(directives.dirs.is_empty());
}

#[test]
fn a_line_that_is_no_text_is_skipped_and_counted() {
    let mut contents = b"[tag:first]\n".to_vec();
    contents.extend_from_slice(&[b'[', b't', b'a', b'g', b':', 0xff, 0xfe, b']', b'\n']);
    contents.extend_from_slice(b"[tag:third]\n");
    let directives = scan(&contents);
    assert_eq!(
        shown(&directives.tags),
        vec!["[tag:first] @ dir/file.txt:1", "[tag:third] @ dir/file.txt:3"],
    );
}

#[test]
fn a_sigil_is_plain_text_and_no_pattern() {
    let matcher = compile_directive_regex("a.b*").unwrap();
    assert_eq!(matcher.pattern(), "(?i)\\[\\s*a\\.b\\*\\s*:\\s*([^\\]]*?)\\s*\\]");
    assert_eq!(matcher.labels("[a.b*:one] [axb:two] [a.bbb:three] [A.B*:four]"), vec!["one", "four"]);
}

#[test]
fn every_meta_character_of_a_sigil_is_escaped() {
    let matcher = compile_directive_regex("\\.+*?()|[]{}^$#&-~x").unwrap();
    assert_eq!(
        matcher.pattern(),
        "(?i)\\[\\s*\\\\\\.\\+\\*\\?\\(\\)\\|\\[\\]\\{\\}\\^\\$\\#\\&\\-\\~x\\s*:\\s*([^\\]]*?)\\s*\\]",
    );
    assert_eq!(matcher.labels("[\\.+*?()|[]{}^$#&-~x: here ]"), vec!["here"]);
}

#[test]
fn other_sigils_can_be_configured() {
    let tag_regex = compile_directive_regex("anchor").unwrap();
    let ref_regex = compile_directive_regex("see").unwrap();
    let file_regex = compile_directive_regex("f").unwrap();
    let dir_regex = compile_directive_regex("d").unwrap();
    let directives = parse(
        &tag_regex,
        &ref_regex,
        &file_regex,
        &dir_regex,
        "p",
        b"[anchor:a] [see:a] [tag:no] [f:x] [d:y]",
    );
    assert_eq!(shown(&directives.tags), vec!["[tag:a] @ p:1"]);
    assert_eq!(shown(&directives.refs), vec!["[ref:a] @ p:1"]);
    assert_eq!(shown(&directives.files), vec!["[file:x] @ p:1"]);
    assert_eq!(shown(&directives.dirs), vec!["[dir:y] @ p:1"]);
}

#[test]
fn a_pattern_that_is_none_is_refused() {
    let error = Matcher::new("(unclosed").err().unwrap();
    assert!(!error.message.is_empty());
    assert!(Matcher::new("closed").is_ok());
}

#[test]
fn a_matcher_keeps_its_pattern() {
    let matcher = Matcher::new("a(b)c").unwrap();
    assert_eq!(matcher.pattern(), "a(b)c");
}

#[test]
fn a_match_without_its_group_yields_no_label() {
    let matcher = Matcher::new("x(1)?").unwrap();
    assert_eq!(matcher.labels("x1 x x1"), vec!["1", "1"]);
    let none = Matcher::new("y").unwrap();
    assert_eq!(none.labels("y y"), Vec::<String>::new());
}

#[test]
fn present_labels_drops_what_is_absent() {
    let groups = vec![None, Some("a".to_owned()), None, Some("".to_owned()), Some("b".to_owned())];
    assert_eq!(present_labels(&groups), vec!["a", "", "b"]);
    assert_eq!(present_labels(&Vec::new()), Vec::<String>::new());
}

#[test]
fn lines_end_at_line_feeds() {
    assert_eq!(split_lines(b""), Vec::<&[u8]>::new());
    assert_eq!(split_lines(b"a"), vec![b"a" as &[u8]]);
    assert_eq!(split_lines(b"a\n"), vec![b"a" as &[u8]]);
    assert_eq!(split_lines(b"\n"), vec![b"" as &[u8]]);
    assert_eq!(split_lines(b"\n\n"), vec![b"" as &[u8], b""]);
    assert_eq!(split_lines(b"a\nbc\n\nd"), vec![b"a" as &[u8], b"bc", b"", b"d"]);
}

#[test]
fn a_carriage_return_before_a_line_feed_is_dropped() {
    assert_eq!(split_lines(b"a\r\nb\r\n"), vec![b"a" as &[u8], b"b"]);
    assert_eq!(split_lines(b"a\r\r\nb\rc\n"), vec![b"a\r" as &[u8], b"b\rc"]);
    assert_eq!(split_lines(b"\r\n"), vec![b"" as &[u8]]);
    assert_eq!(split_lines(b"a\r"), vec![b"a\r" as &[u8]]);
    assert_eq!(split_lines(b"a\n\r"), vec![b"a" as &[u8], b"\r"]);
}

#[test]
fn lines_are_read_as_text_where_they_are_text() {
    assert_eq!(decode_line(b"plain"), Some("plain"));
    assert_eq!(decode_line("h\u{e9}llo \u{1f600}".as_bytes()), Some("h\u{e9}llo \u{1f600}"));
    assert_eq!(decode_line(b""), Some(""));
    assert_eq!(decode_line(&[0x80]), None);
    assert_eq!(decode_line(&[0xc3]), None);
    assert_eq!(decode_line(&[0xed, 0xa0, 0x80]), None);
    assert_eq!(text_lines(b"ok\n\xff\nok too"), vec![Some("ok"), None, Some("ok too")]);
}

#[test]
fn find_numbers_the_lines_from_one() {
    let matcher = Matcher::new("<(\\w+)>").unwrap();
    let lines = vec![Some("<a> <b>"), None, Some(""), Some("x <c>")];
    let found: Vec<(String, usize)> =
        find(&matcher, &lines).into_iter().map(|f| (f.label, f.line_number)).collect();
    assert_eq!(
        found,
        vec![("a".to_owned(), 1), ("b".to_owned(), 1), ("c".to_owned(), 4)],
    );
}

#[test]
fn a_directive_is_printed_with_its_origin() {
    let directive = |kind: Type, line_number: usize| Directive {
        kind,
        label: "some label".to_owned(),
        path: "a/b c.rs".to_owned(),
        line_number,
    };
    assert_eq!(directive(Type::Tag, 1).to_string(), "[tag:some label] @ a/b c.rs:1");
    assert_eq!(directive(Type::Ref, 9).to_string(), "[ref:some label] @ a/b c.rs:9");
    assert_eq!(directive(Type::File, 10).to_string(), "[file:some label] @ a/b c.rs:10");
    assert_eq!(directive(Type::Dir, 12345).to_string(), "[dir:some label] @ a/b c.rs:12345");
    assert_eq!(
        directive(Type::Dir, usize::MAX).to_string(),
        format!("[dir:some label] @ a/b c.rs:{}", usize::MAX),
    );
}

#[test]
fn a_printed_directive_reproduces_path_and_line() {
    let contents = b"first\n  [tag:here] and [ref:there]\n";
    let directives = scan(contents);
    assert_eq!(directives.tags[0].to_string(), "[tag:here] @ dir/file.txt:2");
    assert_eq!(directives.refs[0].to_string(), "[ref:there] @ dir/file.txt:2");
    let text = directives.tags[0].to_string();
    let origin = text.split("] @ ").nth(1).unwrap();
    let (path, line) = origin.rsplit_once(':').unwrap();
    assert_eq!(path, "dir/file.txt");
    assert_eq!(line.parse::<usize>().unwrap(), 2);
}

#[test]
fn a_label_is_printed_with_its_origin() {
    let label = tagref::label::Label {
        label_type: tagref::label::Type::Ref,
        label: "x".to_owned(),
        path: "src/lib.rs".to_owned(),
        line_number: 42,
    };
    assert_eq!(label.to_string(), "[ref:x] @ src/lib.rs:42");
    let tag = tagref::label::Label { label_type: tagref::label::Type::Tag, ..label.clone() };
    assert_eq!(tag.to_string(), "[tag:x] @ src/lib.rs:42");
}

#[test]
fn labels_are_scanned_one_kind_at_a_time() {
    let tag_regex = compile_directive_regex("tag").unwrap();
    let ref_regex = compile_directive_regex("ref").unwrap();
    let contents = b"[tag:a] [ref:b]\n\xff\n[ref:c] [tag:d]";
    let tags = tagref::label::parse(&tag_regex, &ref_regex, tagref::label::Type::Tag, "f", contents);
    let refs = tagref::label::parse(&tag_regex, &ref_regex, tagref::label::Type::Ref, "f", contents);
    let shown = |labels: &[tagref::label::Label]| -> Vec<String> {
        labels.iter().map(|l| l.to_string()).collect()
    };
    assert_eq!(shown(&tags), vec!["[tag:a] @ f:1", "[tag:d] @ f:3"]);
    assert_eq!(shown(&refs), vec!["[ref:b] @ f:1", "[ref:c] @ f:3"]);
}
