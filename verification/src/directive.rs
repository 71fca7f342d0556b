//! Directives: the bracketed annotations that a scan extracts, each with the
//! place where it was found.

use crate::lines::{text_lines, text_lines_of};
use crate::matcher::{escaped, Matcher, PatternError};
use crate::scan::{
    find, finds_of_a_line, found_in, found_on, found_views, labels_in_line, line_numbers_ascend,
    line_numbers_in_range, on_line, Found, FoundView,
};
use crate::text::{
    decimal, decimal_is_digits, decimal_is_injective, decimal_string, split_at_first,
    split_at_last,
};
use vstd::prelude::*;
use vstd::string::*;

verus! {

/// The four kinds of directive.
#[derive(Clone, Copy, Debug, PartialEq, Eq, Structural)]
pub enum Type {
    Tag,
    Ref,
    File,
    Dir,
}

/// One directive as a mathematical value.
pub struct DirectiveView {
    pub kind: Type,
    pub label: Seq<char>,
    pub path: Seq<char>,
    pub line_number: nat,
}

/// One occurrence of a directive: its kind, the label captured between the
/// colon and the closing bracket, the path of the file it stands in, and the
/// number of its line, counted from 1.
#[derive(Debug)]
pub struct Directive {
    pub kind: Type,
    pub label: String,
    pub path: String,
    pub line_number: usize,
}

impl View for Directive {
    type V = DirectiveView;

    open spec fn view(&self) -> DirectiveView {
        DirectiveView {
            kind: self.kind,
            label: self.label@,
            path: self.path@,
            line_number: self.line_number as nat,
        }
    }
}

impl Clone for Directive {
    fn clone(&self) -> (copy: Self)
        ensures
            copy == *self,
    {
        Directive {
            kind: self.kind,
            label: self.label.clone(),
            path: self.path.clone(),
            line_number: self.line_number,
        }
    }
}

/// The views of a sequence of directives, in the same order.
pub open spec fn views(directives: Seq<Directive>) -> Seq<DirectiveView> {
    directives.map_values(|d: Directive| d@)
}

/// The word that a kind is written with when a directive is printed. It does
/// not depend on the sigils a scan was configured with.
pub open spec fn kind_word(kind: Type) -> Seq<char> {
    match kind {
        Type::Tag => seq!['t', 'a', 'g'],
        Type::Ref => seq!['r', 'e', 'f'],
        Type::File => seq!['f', 'i', 'l', 'e'],
        Type::Dir => seq!['d', 'i', 'r'],
    }
}

/// The text of a directive with its origin: `[kind:label] @ path:line`.
pub open spec fn render(d: DirectiveView) -> Seq<char> {
    seq!['['] + kind_word(d.kind) + seq![':'] + d.label + seq![']', ' ', '@', ' '] + d.path
        + seq![':'] + decimal(d.line_number)
}

/// The directives of a file, one list for each kind. Within a list the
/// directives stand in the order of their lines, and those of one line from
/// left to right.
#[derive(Debug)]
pub struct Directives {
    pub tags: Vec<Directive>,
    pub refs: Vec<Directive>,
    pub files: Vec<Directive>,
    pub dirs: Vec<Directive>,
}

impl Clone for Directives {
    fn clone(&self) -> (copy: Self)
        ensures
            copy.tags@ == self.tags@,
            copy.refs@ == self.refs@,
            copy.files@ == self.files@,
            copy.dirs@ == self.dirs@,
    {
        let copy = Directives {
            tags: self.tags.clone(),
            refs: self.refs.clone(),
            files: self.files.clone(),
            dirs: self.dirs.clone(),
        };
        assert(copy.tags@ =~= self.tags@);
        assert(copy.refs@ =~= self.refs@);
        assert(copy.files@ =~= self.files@);
        assert(copy.dirs@ =~= self.dirs@);
        copy
    }
}

/// What every directive pattern begins with: `(?i)\[\s*`. Matching ignores
/// case; a directive opens with a bracket and optional whitespace.
pub open spec fn pattern_head() -> Seq<char> {
    seq!['(', '?', 'i', ')', '\\', '[', '\\', 's', '*']
}

/// What every directive pattern ends with: `\s*:\s*([^\]]*?)\s*\]`. After the
/// sigil come optional whitespace, a colon, optional whitespace, the label,
/// optional whitespace and the closing bracket. The label is group 1: any
/// characters but `]`, as few as will do. So a label runs up to the closing
/// bracket, may hold whitespace inside, and has none at either end.
pub open spec fn pattern_tail() -> Seq<char> {
    seq![
        '\\',
        's',
        '*',
        ':',
        '\\',
        's',
        '*',
        '(',
        '[',
        '^',
        '\\',
        ']',
        ']',
        '*',
        '?',
        ')',
        '\\',
        's',
        '*',
        '\\',
        ']',
    ]
}

/// The regular expression for the directives of one kind, written with
/// `sigil`. The sigil is escaped, so that it is matched as plain text.
pub open spec fn directive_pattern(sigil: Seq<char>) -> Seq<char> {
    pattern_head() + escaped(sigil) + pattern_tail()
}

/// The finds of a scan as directives of one kind in the file at `path`.
pub open spec fn directives_from(found: Seq<FoundView>, kind: Type, path: Seq<char>) -> Seq<
    DirectiveView,
> {
    found.map_values(
        |f: FoundView| DirectiveView { kind, label: f.label, path, line_number: f.line_number },
    )
}

/// The directives of one kind in a file: what `pattern` captures in the lines
/// of `bytes`, in order, each with `path` and the number of its line. Lines
/// that are not valid UTF-8 are passed over, and still counted.
pub open spec fn scanned(pattern: Seq<char>, kind: Type, path: Seq<char>, bytes: Seq<u8>) -> Seq<
    DirectiveView,
> {
    directives_from(found_in(pattern, text_lines_of(bytes)), kind, path)
}

/// Writes the regular expression for the directives written with `sigil`.
pub fn pattern_for(sigil: &str) -> (pattern: String)
    ensures
        pattern@ == directive_pattern(sigil@),
{
    proof {
        reveal_strlit("(?i)\\[\\s*");
        reveal_strlit("\\s*:\\s*([^\\]]*?)\\s*\\]");
    }
    let mut pattern = "(?i)\\[\\s*".to_owned();
    assert(pattern@ =~= pattern_head());
    let quoted = regex::escape(sigil);
    pattern.append(quoted.as_str());
    let tail = "\\s*:\\s*([^\\]]*?)\\s*\\]";
    assert(tail@ =~= pattern_tail());
    pattern.append(tail);
    pattern
}

/// Compiles the matcher for the directives written with `sigil`.
///
/// The pattern that is compiled is [`directive_pattern`] of the sigil. Whether
/// it compiles is for the regular expression compiler to say: it refuses a
/// pattern that would grow too large, as that of a very long sigil does.
pub fn compile_directive_regex(sigil: &str) -> (made: Result<Matcher, PatternError>)
    ensures
        made matches Ok(matcher) ==> matcher@ == directive_pattern(sigil@),
{
    let pattern = pattern_for(sigil);
    Matcher::new(pattern.as_str())
}

fn directives_of(found: &Vec<Found>, kind: Type, path: &str) -> (directives: Vec<Directive>)
    ensures
        views(directives@) == directives_from(found_views(found@), kind, path@),
{
    let mut directives: Vec<Directive> = Vec::new();
    let mut i: usize = 0;
    while i < found.len()
        invariant
            i <= found.len(),
            views(directives@) == directives_from(found_views(found@), kind, path@).take(i as int),
        decreases found.len() - i,
    {
        let ghost before = directives@;
        directives.push(
            Directive {
                kind,
                label: found[i].label.clone(),
                path: path.to_owned(),
                line_number: found[i].line_number,
            },
        );
        assert(views(directives@) =~= views(before).push(directives@.last()@));
        assert(views(directives@) =~= directives_from(found_views(found@), kind, path@).take(
            i + 1,
        ));
        i += 1;
    }
    assert(views(directives@) =~= directives_from(found_views(found@), kind, path@));
    directives
}

/// Extracts the directives of the file at `path` from its contents, with one
/// matcher for each kind. The path is not opened, only recorded.
pub fn parse(
    tag_regex: &Matcher,
    ref_regex: &Matcher,
    file_regex: &Matcher,
    dir_regex: &Matcher,
    path: &str,
    contents: &[u8],
) -> (directives: Directives)
    ensures
        views(directives.tags@) == scanned(tag_regex@, Type::Tag, path@, contents@),
        views(directives.refs@) == scanned(ref_regex@, Type::Ref, path@, contents@),
        views(directives.files@) == scanned(file_regex@, Type::File, path@, contents@),
        views(directives.dirs@) == scanned(dir_regex@, Type::Dir, path@, contents@),
{
    let lines = text_lines(contents);
    let tags = directives_of(&find(tag_regex, &lines), Type::Tag, path);
    let refs = directives_of(&find(ref_regex, &lines), Type::Ref, path);
    let files = directives_of(&find(file_regex, &lines), Type::File, path);
    let dirs = directives_of(&find(dir_regex, &lines), Type::Dir, path);
    Directives { tags, refs, files, dirs }
}

impl Type {
    /// The word this kind is printed with.
    pub fn name(&self) -> (word: &'static str)
        ensures
            word@ == kind_word(*self),
    {
        proof {
            reveal_strlit("tag");
            reveal_strlit("ref");
            reveal_strlit("file");
            reveal_strlit("dir");
        }
        let word = match self {
            Type::Tag => "tag",
            Type::Ref => "ref",
            Type::File => "file",
            Type::Dir => "dir",
        };
        assert(word@ =~= kind_word(*self));
        word
    }
}

impl Directive {
    /// Prints the directive with its origin, as `[kind:label] @ path:line`.
    pub fn to_string(&self) -> (text: String)
        ensures
            text@ == render(self@),
    {
        proof {
            reveal_strlit("[");
            reveal_strlit(":");
            reveal_strlit("] @ ");
        }
        let mut text = "[".to_owned();
        text.append(self.kind.name());
        text.append(":");
        text.append(self.label.as_str());
        text.append("] @ ");
        text.append(self.path.as_str());
        text.append(":");
        let number = decimal_string(self.line_number);
        text.append(number.as_str());
        assert(text@ =~= render(self@));
        text
    }
}

/// The directives that carry the line number `n`, in the order in which they
/// stand.
pub open spec fn directives_on(directives: Seq<DirectiveView>, n: nat) -> Seq<DirectiveView> {
    directives.filter(|d: DirectiveView| d.line_number == n)
}

/// Every directive of a scan says where it is from: it has the kind that was
/// scanned for, the path that was given, to the letter, and the number of one
/// of the lines of the file.
pub proof fn scanned_carries_origin(
    pattern: Seq<char>,
    kind: Type,
    path: Seq<char>,
    bytes: Seq<u8>,
    i: int,
)
    requires
        0 <= i < scanned(pattern, kind, path, bytes).len(),
    ensures
        scanned(pattern, kind, path, bytes)[i].kind == kind,
        scanned(pattern, kind, path, bytes)[i].path == path,
        1 <= scanned(pattern, kind, path, bytes)[i].line_number <= text_lines_of(bytes).len(),
{
    line_numbers_in_range(pattern, text_lines_of(bytes), i);
}

/// Printing a directive of a scan reproduces its origin: the text ends with
/// the path that was given, a colon, and the number of the line in decimal.
pub proof fn scanned_is_printed_with_its_origin(
    pattern: Seq<char>,
    kind: Type,
    path: Seq<char>,
    bytes: Seq<u8>,
    i: int,
)
    requires
        0 <= i < scanned(pattern, kind, path, bytes).len(),
    ensures
        render(scanned(pattern, kind, path, bytes)[i]) == seq!['['] + kind_word(kind) + seq![':']
            + scanned(pattern, kind, path, bytes)[i].label + seq![']', ' ', '@', ' '] + path
            + seq![':'] + decimal(scanned(pattern, kind, path, bytes)[i].line_number),
{
}

/// The directives of a scan stand in the order of their lines: line numbers
/// never go down from one directive to the next.
pub proof fn scanned_in_line_order(
    pattern: Seq<char>,
    kind: Type,
    path: Seq<char>,
    bytes: Seq<u8>,
    i: int,
    j: int,
)
    requires
        0 <= i <= j < scanned(pattern, kind, path, bytes).len(),
    ensures
        scanned(pattern, kind, path, bytes)[i].line_number <= scanned(
            pattern,
            kind,
            path,
            bytes,
        )[j].line_number,
{
    line_numbers_ascend(pattern, text_lines_of(bytes), i, j);
}

proof fn lemma_directives_on(found: Seq<FoundView>, kind: Type, path: Seq<char>, n: nat)
    ensures
        directives_on(directives_from(found, kind, path), n) == directives_from(
            found_on(found, n),
            kind,
            path,
        ),
    decreases found.len(),
{
    reveal(Seq::filter);
    if found.len() > 0 {
        lemma_directives_on(found.drop_last(), kind, path, n);
        assert(directives_from(found, kind, path).drop_last() =~= directives_from(
            found.drop_last(),
            kind,
            path,
        ));
        assert(directives_on(directives_from(found, kind, path), n) =~= directives_from(
            found_on(found, n),
            kind,
            path,
        ));
    } else {
        assert(directives_on(directives_from(found, kind, path), n) =~= directives_from(
            found_on(found, n),
            kind,
            path,
        ));
    }
}

/// All the directives of a line are extracted, in the order in which they
/// stand in the line, each with the number of the line: the directives that
/// carry the number of a line are what the pattern captures in that line,
/// from left to right.
pub proof fn scanned_on_line(
    pattern: Seq<char>,
    kind: Type,
    path: Seq<char>,
    bytes: Seq<u8>,
    n: nat,
)
    requires
        1 <= n <= text_lines_of(bytes).len(),
    ensures
        directives_on(scanned(pattern, kind, path, bytes), n) == directives_from(
            on_line(labels_in_line(pattern, text_lines_of(bytes)[n - 1]), n),
            kind,
            path,
        ),
{
    finds_of_a_line(pattern, text_lines_of(bytes), n);
    lemma_directives_on(found_in(pattern, text_lines_of(bytes)), kind, path, n);
}

/// A printed directive can be read back without doubt: two directives whose
/// labels hold no closing bracket, and which are printed alike, have the same
/// kind and label, and the same path and line number.
pub proof fn render_is_injective(a: DirectiveView, b: DirectiveView)
    requires
        !a.label.contains(']'),
        !b.label.contains(']'),
        render(a) == render(b),
    ensures
        a.kind == b.kind,
        a.label == b.label,
        a.path == b.path,
        a.line_number == b.line_number,
{
    let mark = seq![']', ' ', '@', ' '];
    let tail_a = mark + a.path + seq![':'] + decimal(a.line_number);
    let tail_b = mark + b.path + seq![':'] + decimal(b.line_number);
    let head_a = seq!['['] + kind_word(a.kind) + seq![':'];
    let head_b = seq!['['] + kind_word(b.kind) + seq![':'];
    assert(render(a) =~= head_a + (a.label + tail_a));
    assert(render(b) =~= head_b + (b.label + tail_b));
    assert(render(a)[1] == kind_word(a.kind)[0]);
    assert(render(b)[1] == kind_word(b.kind)[0]);
    assert(a.kind == b.kind);
    assert(a.label + tail_a =~= render(a).subrange(head_a.len() as int, render(a).len() as int));
    assert(b.label + tail_b =~= render(b).subrange(head_b.len() as int, render(b).len() as int));
    split_at_first(a.label, tail_a, b.label, tail_b, ']');
    let rest_a = a.path + seq![':'] + decimal(a.line_number);
    let rest_b = b.path + seq![':'] + decimal(b.line_number);
    assert(rest_a =~= tail_a.subrange(4, tail_a.len() as int));
    assert(rest_b =~= tail_b.subrange(4, tail_b.len() as int));
    decimal_is_digits(a.line_number);
    decimal_is_digits(b.line_number);
    split_at_last(a.path, decimal(a.line_number), b.path, decimal(b.line_number), ':');
    decimal_is_injective(a.line_number, b.line_number);
}

} // verus!
