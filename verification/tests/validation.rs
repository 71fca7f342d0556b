use tagref::aggregate::Aggregate;
use tagref::command::{execute, is_referenced, render_all, Subcommand};
use tagref::directive::{compile_directive_regex, parse, Directive, Directives, Type};
use tagref::lookup::Lookup;
use tagref::report::{count, validate, Summary};
use tagref::matcher::Matcher;
use tagref::settings::{Matchers, Settings};

fn directive(kind: Type, label: &str, path: &str, line_number: usize) -> Directive {
    Directive { kind, label: label.to_owned(), path: path.to_owned(), line_number }
}

fn file_of(path: &str, contents: &str) -> Directives {
    let tag_regex = compile_directive_regex("tag").unwrap();
    let ref_regex = compile_directive_regex("ref").unwrap();
    let file_regex = compile_directive_regex("file").unwrap();
    let dir_regex = compile_directive_regex("dir").unwrap();
    parse(&tag_regex, &ref_regex, &file_regex, &dir_regex, path, contents.as_bytes())
}

fn gathered(files: &[(&str, &str)]) -> Aggregate {
    let mut state = Aggregate::new();
    for (path, contents) in files {
        state.merge(file_of(path, contents));
    }
    state
}

fn shown(directives: &[Directive]) -> Vec<String> {
    directives.iter().map(|d| d.to_string()).collect()
}

#[test]
fn an_empty_tree_is_valid_and_all_counts_are_zero() {
    let state = Aggregate::new();
    assert_eq!(
        validate(&state, &[], &[], 0),
        Ok(Summary { tags: 0, refs: 0, files: 0, dirs: 0, files_scanned: 0 }),
    );
    let output = execute(Subcommand::Check, &state, &[], &[], 0);
    assert_eq!(output.outcome, Ok(()));
    assert_eq!(
        output.lines,
        vec!["0 tags, 0 tag references, 0 file references, and 0 directory references validated in 0 files."],
    );
}

#[test]
fn a_tree_without_directives_is_valid() {
    let state = gathered(&[("a", "nothing"), ("b", ""), ("c", "[tag]\n[ref x]")]);
    assert_eq!(
        validate(&state, &[], &[], 3),
        Ok(Summary { tags: 0, refs: 0, files: 0, dirs: 0, files_scanned: 3 }),
    );
}

#[test]
fn merging_groups_tags_by_label_and_appends_references() {
    let mut state = Aggregate::new();
    state.merge(file_of("one", "[tag:a] [ref:b]\n[tag:b] [file:f] [dir:d]"));
    state.merge(file_of("two", "[tag:a]\n[ref:a] [tag:c] [dir:e]"));
    assert_eq!(state.tags.len(), 3);
    assert_eq!(state.tags.label_at(0), "a");
    assert_eq!(state.tags.label_at(1), "b");
    assert_eq!(state.tags.label_at(2), "c");
    assert_eq!(shown(state.tags.value_at(0)), vec!["[tag:a] @ one:1", "[tag:a] @ two:1"]);
    assert_eq!(shown(state.tags.value_at(1)), vec!["[tag:b] @ one:2"]);
    assert_eq!(shown(state.tags.value_at(2)), vec!["[tag:c] @ two:2"]);
    assert_eq!(shown(&state.refs), vec!["[ref:b] @ one:1", "[ref:a] @ two:2"]);
    assert_eq!(shown(&state.files), vec!["[file:f] @ one:2"]);
    assert_eq!(shown(&state.dirs), vec!["[dir:d] @ one:2", "[dir:e] @ two:2"]);
    assert_eq!(
        shown(&state.all_tags()),
        vec!["[tag:a] @ one:1", "[tag:a] @ two:1", "[tag:b] @ one:2", "[tag:c] @ two:2"],
    );
}

#[test]
fn a_valid_tree_is_summed_up() {
    let state = gathered(&[
        ("one", "[tag:a] [ref:b]\n[tag:b] [file:f] [dir:d]"),
        ("two", "[ref:a] [ref:a] [tag:c] [dir:e]"),
    ]);
    let outcome =
        validate(&state, &[Lookup::File], &[Lookup::Directory, Lookup::Directory], 2);
    assert_eq!(outcome, Ok(Summary { tags: 3, refs: 3, files: 1, dirs: 2, files_scanned: 2 }));
    assert_eq!(
        outcome.unwrap().to_string(),
        "3 tags, 3 tag references, 1 file reference, and 2 directory references validated in 2 files.",
    );
}

#[test]
fn a_tag_defined_twice_fails_and_both_origins_are_named() {
    let state = gathered(&[("one", "[tag:a]\n\n[tag:b]"), ("two", "x\n[tag:a]")]);
    assert_eq!(
        validate(&state, &[], &[], 2),
        Err("Duplicate tags found for label `a`:\n  [tag:a] @ one:1\n  [tag:a] @ two:2\n".to_owned()),
    );
}

#[test]
fn a_tag_defined_twice_on_one_line_fails() {
    let state = gathered(&[("one", "[tag:a][tag:a]")]);
    assert_eq!(
        validate(&state, &[], &[], 1),
        Err("Duplicate tags found for label `a`:\n  [tag:a] @ one:1\n  [tag:a] @ one:1\n".to_owned()),
    );
}

#[test]
fn a_reference_to_an_undefined_label_fails_and_its_origin_is_named() {
    let state = gathered(&[("one", "[tag:a] [ref:a]"), ("two", "\n\n[ref:A]")]);
    assert_eq!(validate(&state, &[], &[], 2), Err("No tag found for [ref:A] @ two:3.".to_owned()));
}

#[test]
fn a_duplicate_does_not_hide_a_dangling_reference() {
    let state = gathered(&[("one", "[tag:a] [tag:a] [ref:a] [ref:b]")]);
    assert_eq!(
        validate(&state, &[], &[], 1),
        Err(
            "Duplicate tags found for label `a`:\n  [tag:a] @ one:1\n  [tag:a] @ one:1\n\n\nNo tag found for [ref:b] @ one:1."
                .to_owned()
        ),
    );
}

#[test]
fn every_finding_is_reported_at_once_and_in_a_fixed_order() {
    let state = gathered(&[(
        "f",
        "[dir:d1] [file:f1] [ref:r] [tag:t] [tag:t]\n[file:f2] [dir:d2] [file:f3] [dir:d3]",
    )]);
    let file_found = [Lookup::Directory, Lookup::File, Lookup::Failed("no such file".to_owned())];
    let dir_found = [Lookup::File, Lookup::Directory, Lookup::Other];
    assert_eq!(
        validate(&state, &file_found, &dir_found, 1),
        Err([
            "Duplicate tags found for label `t`:\n  [tag:t] @ f:1\n  [tag:t] @ f:1\n",
            "No tag found for [ref:r] @ f:1.",
            "[file:f1] @ f:1 does not point to a file.",
            "Error when validating [file:f3] @ f:2: no such file",
            "[dir:d1] @ f:1 does not point to a directory.",
            "[dir:d3] @ f:2 does not point to a directory.",
        ]
        .join("\n\n")),
    );
}

#[test]
fn a_file_reference_to_a_directory_fails() {
    let refs = [directive(Type::File, "src", "f", 1), directive(Type::File, "src/a.rs", "f", 2)];
    assert_eq!(
        tagref::file_references::check(&refs, &[Lookup::Directory, Lookup::File]),
        vec!["[file:src] @ f:1 does not point to a file."],
    );
    assert_eq!(
        tagref::file_references::verdict(&refs[0], &Lookup::Directory),
        Some("[file:src] @ f:1 does not point to a file.".to_owned()),
    );
    assert_eq!(
        tagref::file_references::verdict(&refs[0], &Lookup::Other),
        Some("[file:src] @ f:1 does not point to a file.".to_owned()),
    );
    assert_eq!(tagref::file_references::verdict(&refs[0], &Lookup::File), None);
    assert_eq!(
        tagref::file_references::verdict(&refs[0], &Lookup::Failed("denied".to_owned())),
        Some("Error when validating [file:src] @ f:1: denied".to_owned()),
    );
    assert_eq!(tagref::file_references::check(&[], &[]), Vec::<String>::new());
}

#[test]
fn a_directory_reference_to_a_file_fails() {
    let refs = [directive(Type::Dir, "src/a.rs", "f", 1), directive(Type::Dir, "src", "f", 2)];
    assert_eq!(
        tagref::dir_references::check(&refs, &[Lookup::File, Lookup::Directory]),
        vec!["[dir:src/a.rs] @ f:1 does not point to a directory."],
    );
    assert_eq!(
        tagref::dir_references::verdict(&refs[0], &Lookup::File),
        Some("[dir:src/a.rs] @ f:1 does not point to a directory.".to_owned()),
    );
    assert_eq!(
        tagref::dir_references::verdict(&refs[0], &Lookup::Other),
        Some("[dir:src/a.rs] @ f:1 does not point to a directory.".to_owned()),
    );
    assert_eq!(tagref::dir_references::verdict(&refs[0], &Lookup::Directory), None);
    assert_eq!(
        tagref::dir_references::verdict(&refs[0], &Lookup::Failed("gone".to_owned())),
        Some("Error when validating [dir:src/a.rs] @ f:1: gone".to_owned()),
    );
    assert_eq!(tagref::dir_references::check(&[], &[]), Vec::<String>::new());
}

#[test]
fn a_check_that_fails_prints_nothing() {
    let state = gathered(&[("one", "[ref:a]")]);
    let output = execute(Subcommand::Check, &state, &[], &[], 1);
    assert_eq!(output.lines, Vec::<String>::new());
    assert_eq!(output.outcome, Err("No tag found for [ref:a] @ one:1.".to_owned()));
}

#[test]
fn the_listings_print_and_never_fail() {
    let state = gathered(&[("one", "[tag:a] [tag:a] [ref:x] [file:nowhere]"), ("two", "[dir:nowhere] [tag:b]")]);
    let tags = execute(Subcommand::ListTags, &state, &[], &[], 2);
    assert_eq!(tags.lines, vec!["[tag:a] @ one:1", "[tag:a] @ one:1", "[tag:b] @ two:1"]);
    assert_eq!(tags.outcome, Ok(()));
    let refs = execute(Subcommand::ListRefs, &state, &[], &[], 2);
    assert_eq!(refs.lines, vec!["[ref:x] @ one:1"]);
    assert_eq!(refs.outcome, Ok(()));
    let files = execute(Subcommand::ListFiles, &state, &[], &[], 2);
    assert_eq!(files.lines, vec!["[file:nowhere] @ one:1"]);
    assert_eq!(files.outcome, Ok(()));
    let dirs = execute(Subcommand::ListDirs, &state, &[], &[], 2);
    assert_eq!(dirs.lines, vec!["[dir:nowhere] @ two:1"]);
    assert_eq!(dirs.outcome, Ok(()));
}

#[test]
fn a_tag_without_references_is_listed_as_unused() {
    let state = gathered(&[("one", "[tag:used] [tag:idle] [ref:used]"), ("two", "[tag:idle] [ref:USED]")]);
    assert_eq!(shown(&state.unused_tags()), vec!["[tag:idle] @ one:1", "[tag:idle] @ two:1"]);

    let lenient = execute(Subcommand::ListUnused(false), &state, &[], &[], 2);
    assert_eq!(lenient.lines, vec!["[tag:idle] @ one:1", "[tag:idle] @ two:1"]);
    assert_eq!(lenient.outcome, Ok(()));

    let strict = execute(Subcommand::ListUnused(true), &state, &[], &[], 2);
    assert_eq!(strict.lines, vec!["[tag:idle] @ one:1", "[tag:idle] @ two:1"]);
    assert_eq!(strict.outcome, Err("Found unused tags while using --fail-if-any".to_owned()));
}

#[test]
fn where_every_tag_is_used_the_listing_is_empty_and_succeeds() {
    let state = gathered(&[("one", "[tag:a] [ref:a] [ref:a] [ref:b]")]);
    for fail_if_any in [false, true] {
        let output = execute(Subcommand::ListUnused(fail_if_any), &state, &[], &[], 1);
        assert_eq!(output.lines, Vec::<String>::new());
        assert_eq!(output.outcome, Ok(()));
    }
}

#[test]
fn checking_twice_gives_the_same_verdict() {
    let files = [("one", "[tag:a] [tag:a] [ref:b] [file:x]"), ("two", "[dir:y] [ref:a]")];
    let first = gathered(&files);
    let second = gathered(&files);
    let file_found = [Lookup::Failed("no".to_owned())];
    let dir_found = [Lookup::Directory];
    let verdict = validate(&first, &file_found, &dir_found, 2);
    assert!(verdict.is_err());
    assert_eq!(verdict, validate(&first, &file_found, &dir_found, 2));
    assert_eq!(verdict, validate(&second, &file_found, &dir_found, 2));
}

#[test]
fn counts_take_the_plural_unless_they_are_one() {
    assert_eq!(count(0, "tag"), "0 tags");
    assert_eq!(count(1, "tag"), "1 tag");
    assert_eq!(count(2, "tag reference"), "2 tag references");
    assert_eq!(count(11, "file"), "11 files");
    assert_eq!(
        Summary { tags: 1, refs: 1, files: 1, dirs: 1, files_scanned: 1 }.to_string(),
        "1 tag, 1 tag reference, 1 file reference, and 1 directory reference validated in 1 file.",
    );
}

#[test]
fn directives_are_printed_one_by_one() {
    let directives = [directive(Type::Tag, "a", "p", 1), directive(Type::Dir, "b c", "q", 20)];
    assert_eq!(render_all(&directives), vec!["[tag:a] @ p:1", "[dir:b c] @ q:20"]);
    assert_eq!(render_all(&[]), Vec::<String>::new());
    assert!(is_referenced("b c", &directives));
    assert!(!is_referenced("B c", &directives));
    assert!(!is_referenced("a", &[]));
}

#[test]
fn operations_are_read_from_their_names() {
    assert_eq!(Subcommand::from_name(None, false), Some(Subcommand::Check));
    assert_eq!(Subcommand::from_name(None, true), Some(Subcommand::Check));
    assert_eq!(Subcommand::from_name(Some("check"), false), Some(Subcommand::Check));
    assert_eq!(Subcommand::from_name(Some("list-tags"), false), Some(Subcommand::ListTags));
    assert_eq!(Subcommand::from_name(Some("list-refs"), false), Some(Subcommand::ListRefs));
    assert_eq!(Subcommand::from_name(Some("list-files"), false), Some(Subcommand::ListFiles));
    assert_eq!(Subcommand::from_name(Some("list-dirs"), true), Some(Subcommand::ListDirs));
    assert_eq!(
        Subcommand::from_name(Some("list-unused"), false),
        Some(Subcommand::ListUnused(false)),
    );
    assert_eq!(
        Subcommand::from_name(Some("list-unused"), true),
        Some(Subcommand::ListUnused(true)),
    );
    assert_eq!(Subcommand::from_name(Some("Check"), false), None);
    assert_eq!(Subcommand::from_name(Some(""), false), None);
    assert_eq!(Subcommand::from_name(Some("list"), false), None);
}

#[test]
fn the_default_settings_check_the_current_directory() {
    let settings = Settings::default();
    assert_eq!(settings.paths, vec!["."]);
    assert_eq!(settings.tag_sigil, "tag");
    assert_eq!(settings.ref_sigil, "ref");
    assert_eq!(settings.file_sigil, "file");
    assert_eq!(settings.dir_sigil, "dir");
    assert_eq!(settings.subcommand, Subcommand::Check);
}

#[test]
fn settings_compile_one_matcher_for_each_sigil() {
    let settings = Settings {
        paths: vec![],
        tag_sigil: "t".to_owned(),
        ref_sigil: "r".to_owned(),
        file_sigil: "f".to_owned(),
        dir_sigil: "d".to_owned(),
        subcommand: Subcommand::ListTags,
    };
    let matchers = settings.matchers().ok().unwrap();
    let line = "[t:1] [r:2] [f:3] [d:4] [tag:5]";
    assert_eq!(matchers.tags.labels(line), vec!["1"]);
    assert_eq!(matchers.refs.labels(line), vec!["2"]);
    assert_eq!(matchers.files.labels(line), vec!["3"]);
    assert_eq!(matchers.dirs.labels(line), vec!["4"]);
}

#[test]
fn a_sigil_too_long_to_compile_is_refused() {
    let settings = Settings {
        paths: vec![],
        tag_sigil: "x".repeat(1_000_000),
        ref_sigil: "r".to_owned(),
        file_sigil: "f".to_owned(),
        dir_sigil: "d".to_owned(),
        subcommand: Subcommand::Check,
    };
    assert!(settings.matchers().is_err());
}

#[test]
fn the_order_of_the_files_does_not_change_the_verdict() {
    let valid = [("one", "[tag:a] [ref:b]"), ("two", "[tag:b] [ref:a]"), ("three", "[ref:a]")];
    let invalid = [("one", "[tag:a] [ref:b]"), ("two", "[tag:a] [ref:a]"), ("three", "[ref:c]")];
    let orders = [[0, 1, 2], [0, 2, 1], [1, 0, 2], [1, 2, 0], [2, 0, 1], [2, 1, 0]];
    for order in orders {
        let files: Vec<(&str, &str)> = order.iter().map(|&i| valid[i]).collect();
        assert_eq!(
            validate(&gathered(&files), &[], &[], 3),
            Ok(Summary { tags: 2, refs: 3, files: 0, dirs: 0, files_scanned: 3 }),
        );
        let files: Vec<(&str, &str)> = order.iter().map(|&i| invalid[i]).collect();
        let error = validate(&gathered(&files), &[], &[], 3).unwrap_err();
        assert!(error.starts_with("Duplicate tags found for label `a`:\n"));
        assert!(error.contains("  [tag:a] @ one:1\n"));
        assert!(error.contains("  [tag:a] @ two:1\n"));
        assert!(error.contains("No tag found for [ref:b] @ one:1."));
        assert!(error.contains("No tag found for [ref:c] @ three:1."));
    }
}

#[test]
fn four_matchers_are_put_together() {
    let made = Matchers::from_compiled(
        Matcher::new("a"),
        Matcher::new("b"),
        Matcher::new("c"),
        Matcher::new("d"),
    );
    let matchers = made.ok().unwrap();
    assert_eq!(matchers.tags.pattern(), "a");
    assert_eq!(matchers.refs.pattern(), "b");
    assert_eq!(matchers.files.pattern(), "c");
    assert_eq!(matchers.dirs.pattern(), "d");
}

#[test]
fn the_first_failure_is_handed_on() {
    let first = Matcher::new("(").err().unwrap().message;
    let second = Matcher::new("[").err().unwrap().message;
    assert_ne!(first, second);

    let made =
        Matchers::from_compiled(Matcher::new("a"), Matcher::new("("), Matcher::new("["), Matcher::new("d"));
    assert_eq!(made.err().unwrap().message, first);

    let made =
        Matchers::from_compiled(Matcher::new("["), Matcher::new("b"), Matcher::new("("), Matcher::new("d"));
    assert_eq!(made.err().unwrap().message, second);

    let made =
        Matchers::from_compiled(Matcher::new("a"), Matcher::new("b"), Matcher::new("c"), Matcher::new("("));
    assert_eq!(made.err().unwrap().message, first);

    let made =
        Matchers::from_compiled(Matcher::new("a"), Matcher::new("b"), Matcher::new("["), Matcher::new("("));
    assert_eq!(made.err().unwrap().message, second);
}
