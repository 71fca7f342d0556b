//! Directory references must resolve: at the path that the label names there
//! has to be a directory.

use crate::directive::{render, views, Directive, DirectiveView};
use crate::lookup::{lookup_views, Lookup, LookupView};
use crate::text::{present, texts};
use vstd::prelude::*;
use vstd::string::*;

verus! {

/// What is wrong with a directory reference, given what was found at its
/// path: nothing where a directory was found.
pub open spec fn dir_verdict(reference: DirectiveView, found: LookupView) -> Option<Seq<char>> {
    match found {
        LookupView::Directory => None,
        LookupView::File | LookupView::Other => Some(
            render(reference) + " does not point to a directory."@,
        ),
        LookupView::Failed(reason) => Some(
            "Error when validating "@ + render(reference) + ": "@ + reason,
        ),
    }
}

/// The verdicts on `refs`, one for each, where `found[i]` is what was found
/// at the path of `refs[i]`.
pub open spec fn dir_verdicts(refs: Seq<DirectiveView>, found: Seq<LookupView>) -> Seq<
    Option<Seq<char>>,
>
    recommends
        refs.len() == found.len(),
{
    Seq::new(refs.len(), |i: int| dir_verdict(refs[i], found[i]))
}

/// The complaints about `refs`, where `found[i]` is what was found at the
/// path of `refs[i]`: one for each reference that is wrong, in the order of
/// the references.
pub open spec fn dir_errors(refs: Seq<DirectiveView>, found: Seq<LookupView>) -> Seq<Seq<char>>
    recommends
        refs.len() == found.len(),
{
    present(dir_verdicts(refs, found))
}

proof fn lemma_dir_errors(refs: Seq<DirectiveView>, found: Seq<LookupView>)
    ensures
        dir_errors(refs, found) == if refs.len() == 0 {
            seq![]
        } else {
            match dir_verdict(refs.last(), found[refs.len() - 1]) {
                Some(error) => dir_errors(refs.drop_last(), found).push(error),
                None => dir_errors(refs.drop_last(), found),
            }
        },
{
    if refs.len() > 0 {
        assert(dir_verdicts(refs, found).drop_last() =~= dir_verdicts(refs.drop_last(), found));
    }
}

/// Judges one directory reference by what was found at its path.
pub fn verdict(dir: &Directive, found: &Lookup) -> (error: Option<String>)
    ensures
        match error {
            Some(text) => dir_verdict(dir@, found@) == Some(text@),
            None => dir_verdict(dir@, found@) is None,
        },
{
    match found {
        Lookup::Directory => None,
        Lookup::File | Lookup::Other => {
            let mut error = dir.to_string();
            error.append(" does not point to a directory.");
            Some(error)
        },
        Lookup::Failed(reason) => {
            let mut error = "Error when validating ".to_owned();
            let origin = dir.to_string();
            error.append(origin.as_str());
            error.append(": ");
            error.append(reason.as_str());
            Some(error)
        },
    }
}

/// Checks that every directory reference points to a directory, where
/// `found[i]` is what was found at the path that `refs[i]` names. Returns one
/// complaint for each reference that does not.
pub fn check(refs: &[Directive], found: &[Lookup]) -> (errors: Vec<String>)
    requires
        refs.len() == found.len(),
    ensures
        texts(errors@) == dir_errors(views(refs@), lookup_views(found@)),
{
    let mut errors: Vec<String> = Vec::new();
    let mut i: usize = 0;
    proof {
        lemma_dir_errors(views(refs@).take(0), lookup_views(found@));
    }
    while i < refs.len()
        invariant
            i <= refs.len(),
            refs.len() == found.len(),
            texts(errors@) == dir_errors(views(refs@).take(i as int), lookup_views(found@)),
        decreases refs.len() - i,
    {
        proof {
            let next = views(refs@).take(i + 1);
            assert(next.drop_last() =~= views(refs@).take(i as int));
            assert(next.last() == refs[i as int]@);
            assert(lookup_views(found@)[i as int] == found[i as int]@);
            lemma_dir_errors(next, lookup_views(found@));
        }
        match verdict(&refs[i], &found[i]) {
            Some(error) => {
                let ghost before = errors@;
                errors.push(error);
                assert(texts(errors@) =~= texts(before).push(error@));
            },
            None => {},
        }
        i += 1;
    }
    assert(views(refs@).take(i as int) =~= views(refs@));
    errors
}

/// A reference that is wrong is complained about.
pub proof fn wrong_is_reported(refs: Seq<DirectiveView>, found: Seq<LookupView>, i: int)
    requires
        0 <= i < refs.len() <= found.len(),
        dir_verdict(refs[i], found[i]) is Some,
    ensures
        dir_errors(refs, found).contains(dir_verdict(refs[i], found[i])->0),
    decreases refs.len(),
{
    lemma_dir_errors(refs, found);
    if i == refs.len() - 1 {
        let errors = dir_errors(refs, found);
        assert(errors[errors.len() - 1] == dir_verdict(refs[i], found[i])->0);
    } else {
        wrong_is_reported(refs.drop_last(), found, i);
        let earlier = dir_errors(refs.drop_last(), found);
        let at = earlier.index_of(dir_verdict(refs[i], found[i])->0);
        assert(dir_errors(refs, found)[at] == earlier[at]);
    }
}

/// Every complaint is about a reference that is wrong: references at whose
/// path a directory was found are not complained about.
pub proof fn report_is_of_a_wrong(refs: Seq<DirectiveView>, found: Seq<LookupView>, k: int)
    requires
        refs.len() <= found.len(),
        0 <= k < dir_errors(refs, found).len(),
    ensures
        exists|i: int|
            0 <= i < refs.len() && dir_verdict(#[trigger] refs[i], found[i]) == Some(
                dir_errors(refs, found)[k],
            ),
    decreases refs.len(),
{
    lemma_dir_errors(refs, found);
    if refs.len() > 0 {
        let earlier = dir_errors(refs.drop_last(), found);
        if k < earlier.len() {
            report_is_of_a_wrong(refs.drop_last(), found, k);
            let i = choose|i: int|
                0 <= i < refs.drop_last().len() && dir_verdict(
                    #[trigger] refs.drop_last()[i],
                    found[i],
                ) == Some(earlier[k]);
            assert(refs[i] == refs.drop_last()[i]);
        } else {
            let i = refs.len() - 1;
            assert(dir_verdict(refs[i], found[i]) == Some(dir_errors(refs, found)[k]));
        }
    }
}

/// Where a directory is referred to and a regular file is found, the reference is
/// wrong.
pub proof fn file_is_no_directory(reference: DirectiveView)
    ensures
        dir_verdict(reference, LookupView::File) == Some(
            render(reference) + " does not point to a directory."@,
        ),
{
}

} // verus!
