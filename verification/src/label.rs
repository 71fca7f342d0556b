//! Labels: tags and the references to them, scanned one kind at a time.

use crate::lines::{text_lines, text_lines_of};
use crate::matcher::Matcher;
use crate::scan::{find, found_in, found_views, Found, FoundView};
use crate::text::{decimal, decimal_string};
use vstd::prelude::*;
use vstd::string::*;

verus! {

/// The two kinds of label.
#[derive(Clone, Copy, Debug, PartialEq, Eq, Structural)]
pub enum Type {
    Tag,
    Ref,
}

/// One label as a mathematical value.
pub struct LabelView {
    pub label_type: Type,
    pub label: Seq<char>,
    pub path: Seq<char>,
    pub line_number: nat,
}

/// One occurrence of a label: its kind, its text, the path of the file it
/// stands in, and the number of its line, counted from 1.
#[derive(Debug)]
pub struct Label {
    pub label_type: Type,
    pub label: String,
    pub path: String,
    pub line_number: usize,
}

impl View for Label {
    type V = LabelView;

    open spec fn view(&self) -> LabelView {
        LabelView {
            label_type: self.label_type,
            label: self.label@,
            path: self.path@,
            line_number: self.line_number as nat,
        }
    }
}

impl Clone for Label {
    fn clone(&self) -> (copy: Self)
        ensures
            copy == *self,
    {
        Label {
            label_type: self.label_type,
            label: self.label.clone(),
            path: self.path.clone(),
            line_number: self.line_number,
        }
    }
}

/// The views of a sequence of labels, in the same order.
pub open spec fn label_views(labels: Seq<Label>) -> Seq<LabelView> {
    labels.map_values(|l: Label| l@)
}

/// The word that a kind of label is printed with.
pub open spec fn label_word(label_type: Type) -> Seq<char> {
    match label_type {
        Type::Tag => seq!['t', 'a', 'g'],
        Type::Ref => seq!['r', 'e', 'f'],
    }
}

/// The text of a label with its origin: `[kind:label] @ path:line`.
pub open spec fn render(l: LabelView) -> Seq<char> {
    seq!['['] + label_word(l.label_type) + seq![':'] + l.label + seq![']', ' ', '@', ' '] + l.path
        + seq![':'] + decimal(l.line_number)
}

/// The finds of a scan as labels of one kind in the file at `path`.
pub open spec fn labels_from(found: Seq<FoundView>, label_type: Type, path: Seq<char>) -> Seq<
    LabelView,
> {
    found.map_values(
        |f: FoundView| LabelView { label_type, label: f.label, path, line_number: f.line_number },
    )
}

/// The pattern that finds the labels of a kind: the first for tags, the
/// second for references.
pub open spec fn pattern_of(tag_pattern: Seq<char>, ref_pattern: Seq<char>, label_type: Type)
    -> Seq<char> {
    match label_type {
        Type::Tag => tag_pattern,
        Type::Ref => ref_pattern,
    }
}

impl Type {
    /// The word this kind is printed with.
    pub fn name(&self) -> (word: &'static str)
        ensures
            word@ == label_word(*self),
    {
        proof {
            reveal_strlit("tag");
            reveal_strlit("ref");
        }
        let word = match self {
            Type::Tag => "tag",
            Type::Ref => "ref",
        };
        assert(word@ =~= label_word(*self));
        word
    }
}

impl Label {
    /// Prints the label with its origin, as `[kind:label] @ path:line`.
    pub fn to_string(&self) -> (text: String)
        ensures
            text@ == render(self@),
    {
        proof {
            reveal_strlit("[");
            reveal_strlit(":");
            reveal_strlit("] @ ");
        }
        let mut text = "[".to_owned();
        text.append(self.label_type.name());
        text.append(":");
        text.append(self.label.as_str());
        text.append("] @ ");
        text.append(self.path.as_str());
        text.append(":");
        let number = decimal_string(self.line_number);
        text.append(number.as_str());
        assert(text@ =~= render(self@));
        text
    }
}

fn labels_of(found: &Vec<Found>, label_type: Type, path: &str) -> (labels: Vec<Label>)
    ensures
        label_views(labels@) == labels_from(found_views(found@), label_type, path@),
{
    let mut labels: Vec<Label> = Vec::new();
    let mut i: usize = 0;
    while i < found.len()
        invariant
            i <= found.len(),
            label_views(labels@) == labels_from(found_views(found@), label_type, path@).take(
                i as int,
            ),
        decreases found.len() - i,
    {
        let ghost before = labels@;
        labels.push(
            Label {
                label_type,
                label: found[i].label.clone(),
                path: path.to_owned(),
                line_number: found[i].line_number,
            },
        );
        assert(label_views(labels@) =~= label_views(before).push(labels@.last()@));
        assert(label_views(labels@) =~= labels_from(found_views(found@), label_type, path@).take(
            i + 1,
        ));
        i += 1;
    }
    assert(label_views(labels@) =~= labels_from(found_views(found@), label_type, path@));
    labels
}

/// Extracts the labels of one kind from the contents of the file at `path`.
/// Tags are found with `tag_regex`, references with `ref_regex`.
pub fn parse(
    tag_regex: &Matcher,
    ref_regex: &Matcher,
    label_type: Type,
    path: &str,
    contents: &[u8],
) -> (labels: Vec<Label>)
    ensures
        label_views(labels@) == labels_from(
            found_in(pattern_of(tag_regex@, ref_regex@, label_type), text_lines_of(contents@)),
            label_type,
            path@,
        ),
{
    let regex = match label_type {
        Type::Tag => tag_regex,
        Type::Ref => ref_regex,
    };
    let lines = text_lines(contents);
    labels_of(&find(regex, &lines), label_type, path)
}

} // verus!
