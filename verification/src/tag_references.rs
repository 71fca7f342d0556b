//! References must resolve: every reference to a tag needs a tag with the
//! same label.

use crate::collections::LabelSet;
use crate::directive::{render, views, Directive, DirectiveView};
use crate::text::{occurs_in, occurs_in_between, occurs_in_itself, texts};
use vstd::prelude::*;
use vstd::string::*;

verus! {

/// The complaint about a reference that no tag answers.
pub open spec fn dangling_message(reference: DirectiveView) -> Seq<char> {
    "No tag found for "@ + render(reference) + "."@
}

/// The references that no tag answers: those of `refs` whose label is not
/// among `labels`, in their order.
pub open spec fn dangling(labels: Seq<Seq<char>>, refs: Seq<DirectiveView>) -> Seq<DirectiveView> {
    refs.filter(|r: DirectiveView| !labels.contains(r.label))
}

/// The complaints about `refs`, given the labels that have a tag: one for
/// each reference that no tag answers, in the order of the references.
pub open spec fn dangling_errors(labels: Seq<Seq<char>>, refs: Seq<DirectiveView>) -> Seq<
    Seq<char>,
> {
    dangling(labels, refs).map_values(|r: DirectiveView| dangling_message(r))
}

proof fn lemma_dangling_errors(labels: Seq<Seq<char>>, refs: Seq<DirectiveView>)
    ensures
        dangling_errors(labels, refs) == if refs.len() == 0 {
            seq![]
        } else if labels.contains(refs.last().label) {
            dangling_errors(labels, refs.drop_last())
        } else {
            dangling_errors(labels, refs.drop_last()).push(dangling_message(refs.last()))
        },
{
    reveal(Seq::filter);
    if refs.len() == 0 {
        assert(dangling_errors(labels, refs) =~= seq![]);
    } else if labels.contains(refs.last().label) {
    } else {
        assert(dangling_errors(labels, refs) =~= dangling_errors(labels, refs.drop_last()).push(
            dangling_message(refs.last()),
        ));
    }
}

/// Writes the complaint about a reference that no tag answers.
pub fn describe(reference: &Directive) -> (error: String)
    ensures
        error@ == dangling_message(reference@),
{
    let mut error = "No tag found for ".to_owned();
    let origin = reference.to_string();
    error.append(origin.as_str());
    error.append(".");
    error
}

/// Checks that every reference in `refs` has its label in `tags`. Returns one
/// complaint for each reference that does not.
pub fn check(tags: &LabelSet, refs: &[Directive]) -> (errors: Vec<String>)
    ensures
        texts(errors@) == dangling_errors(tags.labels(), views(refs@)),
{
    let mut errors: Vec<String> = Vec::new();
    let mut i: usize = 0;
    proof {
        lemma_dangling_errors(tags.labels(), views(refs@).take(0));
    }
    while i < refs.len()
        invariant
            i <= refs.len(),
            texts(errors@) == dangling_errors(tags.labels(), views(refs@).take(i as int)),
        decreases refs.len() - i,
    {
        proof {
            let next = views(refs@).take(i + 1);
            assert(next.drop_last() =~= views(refs@).take(i as int));
            assert(next.last() == refs[i as int]@);
            lemma_dangling_errors(tags.labels(), next);
        }
        if !tags.contains(refs[i].label.as_str()) {
            let ghost before = errors@;
            let error = describe(&refs[i]);
            errors.push(error);
            assert(texts(errors@) =~= texts(before).push(error@));
        }
        i += 1;
    }
    assert(views(refs@).take(i as int) =~= views(refs@));
    errors
}

/// A reference to a label that no tag defines is complained about, and the
/// complaint names the origin of the reference.
pub proof fn dangling_is_reported(labels: Seq<Seq<char>>, refs: Seq<DirectiveView>, i: int)
    requires
        0 <= i < refs.len(),
        !labels.contains(refs[i].label),
    ensures
        dangling_errors(labels, refs).contains(dangling_message(refs[i])),
        occurs_in(render(refs[i]), dangling_message(refs[i])),
    decreases refs.len(),
{
    occurs_in_itself(render(refs[i]));
    occurs_in_between(render(refs[i]), "No tag found for "@, render(refs[i]), "."@);
    lemma_dangling_errors(labels, refs);
    if i == refs.len() - 1 {
        let errors = dangling_errors(labels, refs);
        assert(errors[errors.len() - 1] == dangling_message(refs[i]));
    } else {
        dangling_is_reported(labels, refs.drop_last(), i);
        let earlier = dangling_errors(labels, refs.drop_last());
        let at = earlier.index_of(dangling_message(refs[i]));
        assert(dangling_errors(labels, refs)[at] == earlier[at]);
    }
}

/// Every complaint is about a reference to a label that no tag defines:
/// references that a tag answers are not complained about.
pub proof fn report_is_of_a_dangling(labels: Seq<Seq<char>>, refs: Seq<DirectiveView>, k: int)
    requires
        0 <= k < dangling_errors(labels, refs).len(),
    ensures
        exists|i: int|
            0 <= i < refs.len() && !labels.contains((#[trigger] refs[i]).label) && dangling_errors(
                labels,
                refs,
            )[k] == dangling_message(refs[i]),
    decreases refs.len(),
{
    lemma_dangling_errors(labels, refs);
    if refs.len() > 0 {
        let earlier = dangling_errors(labels, refs.drop_last());
        if k < earlier.len() {
            report_is_of_a_dangling(labels, refs.drop_last(), k);
            let i = choose|i: int|
                0 <= i < refs.drop_last().len() && !labels.contains(
                    (#[trigger] refs.drop_last()[i]).label,
                ) && earlier[k] == dangling_message(refs.drop_last()[i]);
            assert(refs[i] == refs.drop_last()[i]);
        } else {
            let i = refs.len() - 1;
            assert(!labels.contains(refs[i].label));
        }
    }
}

/// Labels are compared to the letter. A tag does not answer a reference whose
/// label differs from its own in any character, be it only in its case.
pub proof fn different_labels_do_not_resolve(tag_label: Seq<char>, reference: DirectiveView)
    requires
        tag_label != reference.label,
    ensures
        dangling_errors(seq![tag_label], seq![reference]) == seq![dangling_message(reference)],
{
    let refs = seq![reference];
    lemma_dangling_errors(seq![tag_label], refs);
    lemma_dangling_errors(seq![tag_label], refs.drop_last());
    assert(dangling_errors(seq![tag_label], refs) =~= seq![dangling_message(reference)]);
}

} // verus!
