//! References must resolve: every reference label needs a tag label. All that
//! is wrong is reported as one text.

use crate::collections::LabelMap;
use crate::label::{label_views, render, Label, LabelView};
use crate::text::{join, joined, texts};
use vstd::prelude::*;
use vstd::string::*;

verus! {

/// The complaint about a reference that no tag answers.
pub open spec fn missing_message(reference: LabelView) -> Seq<char> {
    "No tag found for "@ + render(reference) + "."@
}

/// The references that no tag answers: those of `refs` whose label is not
/// among `labels`, in their order.
pub open spec fn missing_refs(labels: Seq<Seq<char>>, refs: Seq<LabelView>) -> Seq<LabelView> {
    refs.filter(|r: LabelView| !labels.contains(r.label))
}

/// The complaints about `refs`, given the labels that have a tag: one for
/// each reference that no tag answers, in the order of the references.
pub open spec fn missing_messages(labels: Seq<Seq<char>>, refs: Seq<LabelView>) -> Seq<Seq<char>> {
    missing_refs(labels, refs).map_values(|r: LabelView| missing_message(r))
}

proof fn lemma_missing_messages(labels: Seq<Seq<char>>, refs: Seq<LabelView>)
    ensures
        missing_messages(labels, refs) == if refs.len() == 0 {
            seq![]
        } else if labels.contains(refs.last().label) {
            missing_messages(labels, refs.drop_last())
        } else {
            missing_messages(labels, refs.drop_last()).push(missing_message(refs.last()))
        },
{
    reveal(Seq::filter);
    if refs.len() == 0 {
        assert(missing_messages(labels, refs) =~= seq![]);
    } else if labels.contains(refs.last().label) {
    } else {
        assert(missing_messages(labels, refs) =~= missing_messages(labels, refs.drop_last()).push(
            missing_message(refs.last()),
        ));
    }
}

/// The complaints as one text, one to a line.
pub open spec fn missing_report(labels: Seq<Seq<char>>, refs: Seq<LabelView>) -> Seq<char> {
    joined(missing_messages(labels, refs), "\n"@)
}

/// Writes the complaint about a reference that no tag answers.
pub fn describe(reference: &Label) -> (error: String)
    ensures
        error@ == missing_message(reference@),
{
    let mut error = "No tag found for ".to_owned();
    let origin = reference.to_string();
    error.append(origin.as_str());
    error.append(".");
    error
}

/// Collects the complaints about the references whose label is no key of
/// `tags`.
pub fn missing<V>(tags: &LabelMap<V>, refs: &[Label]) -> (errors: Vec<String>)
    ensures
        texts(errors@) == missing_messages(tags.labels(), label_views(refs@)),
{
    let mut errors: Vec<String> = Vec::new();
    let mut i: usize = 0;
    proof {
        lemma_missing_messages(tags.labels(), label_views(refs@).take(0));
    }
    while i < refs.len()
        invariant
            i <= refs.len(),
            texts(errors@) == missing_messages(tags.labels(), label_views(refs@).take(i as int)),
        decreases refs.len() - i,
    {
        proof {
            let next = label_views(refs@).take(i + 1);
            assert(next.drop_last() =~= label_views(refs@).take(i as int));
            assert(next.last() == refs[i as int]@);
            lemma_missing_messages(tags.labels(), next);
        }
        if !tags.contains_key(refs[i].label.as_str()) {
            let ghost before = errors@;
            let error = describe(&refs[i]);
            errors.push(error);
            assert(texts(errors@) =~= texts(before).push(error@));
        }
        i += 1;
    }
    assert(label_views(refs@).take(i as int) =~= label_views(refs@));
    errors
}

/// Checks that every reference in `refs` has its label among the keys of
/// `tags`. Fails, with one line for each reference that does not, if there is
/// any.
pub fn check(tags: &LabelMap<Label>, refs: &[Label]) -> (outcome: Result<(), String>)
    ensures
        match outcome {
            Ok(_) => missing_messages(tags.labels(), label_views(refs@)).len() == 0,
            Err(error) => missing_messages(tags.labels(), label_views(refs@)).len() > 0
                && error@ == missing_report(tags.labels(), label_views(refs@)),
        },
{
    let errors = missing(tags, refs);
    if errors.len() == 0 {
        Ok(())
    } else {
        Err(join(&errors, "\n"))
    }
}

} // verus!
