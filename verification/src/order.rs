//! Files are scanned in no fixed order. Whether a tree is valid does not
//! depend on the order in which its directives came in.

use crate::aggregate::{add_tags, group_of, merged_group, tagged, Groups};
use crate::collections::{entry_labels, lemma_index_of_unique};
use crate::directive::DirectiveView;
use crate::lookup::LookupView;
use crate::report::{findings, valid_exactly_when};
use vstd::prelude::*;
use vstd::seq_lib::*;

verus! {

/// A reference together with what was found at its path.
pub type Looked = (DirectiveView, LookupView);

/// The references of a sequence of references that were looked up.
pub open spec fn references_of(looked: Seq<Looked>) -> Seq<DirectiveView> {
    looked.map_values(|l: Looked| l.0)
}

/// What was found for a sequence of references that were looked up.
pub open spec fn found_for(looked: Seq<Looked>) -> Seq<LookupView> {
    looked.map_values(|l: Looked| l.1)
}

/// The findings of a run that started with nothing and took in `tags`,
/// `refs`, `files` and `dirs` in the order given.
pub open spec fn findings_in_order(
    tags: Seq<DirectiveView>,
    refs: Seq<DirectiveView>,
    files: Seq<Looked>,
    dirs: Seq<Looked>,
) -> Seq<Seq<char>> {
    findings(
        add_tags(seq![], tags),
        refs,
        references_of(files),
        found_for(files),
        references_of(dirs),
        found_for(dirs),
    )
}

spec fn count_step(label: Seq<char>) -> spec_fn(nat, DirectiveView) -> nat {
    |n: nat, t: DirectiveView|
        if t.label == label {
            n + 1
        } else {
            n
        }
}

proof fn lemma_tagged_len(tags: Seq<DirectiveView>, label: Seq<char>)
    ensures
        tagged(tags, label).len() == tags.fold_left(0nat, count_step(label)),
    decreases tags.len(),
{
    reveal(Seq::filter);
    if tags.len() > 0 {
        lemma_tagged_len(tags.drop_last(), label);
    }
}

/// However tags are ordered, a label has as many of them.
pub proof fn tags_of_a_label_are_as_many(
    tags: Seq<DirectiveView>,
    reordered: Seq<DirectiveView>,
    label: Seq<char>,
)
    requires
        tags.to_multiset() == reordered.to_multiset(),
    ensures
        tagged(tags, label).len() == tagged(reordered, label).len(),
{
    lemma_tagged_len(tags, label);
    lemma_tagged_len(reordered, label);
    lemma_fold_left_permutation(tags, reordered, count_step(label), 0nat);
}

/// The groups that tags make when added to nothing: one for each label that
/// occurs, with all the tags of that label.
pub proof fn groups_of_tags(tags: Seq<DirectiveView>, g: int)
    requires
        0 <= g < add_tags(seq![], tags).len(),
    ensures
        add_tags(seq![], tags)[g].1 == tagged(tags, add_tags(seq![], tags)[g].0),
{
    let empty: Groups = seq![];
    let groups = add_tags(empty, tags);
    let label = groups[g].0;
    assert(entry_labels(empty) =~= Seq::<Seq<char>>::empty());
    merged_group(empty, tags, label);
    assert(entry_labels(groups)[g] == label);
    lemma_index_of_unique(entry_labels(groups), g);
    assert(group_of(empty, label) =~= Seq::<DirectiveView>::empty());
    assert(group_of(groups, label) =~= tagged(tags, label));
}

proof fn lemma_label_has_group(tags: Seq<DirectiveView>, label: Seq<char>)
    ensures
        entry_labels(add_tags(seq![], tags)).contains(label) <==> tagged(tags, label).len() > 0,
{
    let empty: Groups = seq![];
    let groups = add_tags(empty, tags);
    assert(entry_labels(empty) =~= Seq::<Seq<char>>::empty());
    merged_group(empty, tags, label);
    assert(group_of(empty, label) =~= Seq::<DirectiveView>::empty());
    assert(group_of(groups, label) =~= tagged(tags, label));
    if entry_labels(groups).contains(label) {
        let g = entry_labels(groups).index_of(label);
        lemma_groups_are_not_empty(empty, tags, g);
    }
}

proof fn lemma_groups_are_not_empty(groups: Groups, tags: Seq<DirectiveView>, g: int)
    requires
        forall|i: int| 0 <= i < groups.len() ==> (#[trigger] groups[i]).1.len() > 0,
        0 <= g < add_tags(groups, tags).len(),
    ensures
        add_tags(groups, tags)[g].1.len() > 0,
    decreases tags.len(),
{
    if tags.len() > 0 {
        let earlier = add_tags(groups, tags.drop_last());
        if g < earlier.len() {
            lemma_groups_are_not_empty(groups, tags.drop_last(), g);
        }
    }
}

proof fn lemma_no_duplicates_by_label(tags: Seq<DirectiveView>)
    ensures
        (forall|g: int|
            0 <= g < add_tags(seq![], tags).len() ==> (#[trigger] add_tags(seq![], tags)[g]).1.len()
                <= 1) <==> (forall|label: Seq<char>| #[trigger] tagged(tags, label).len() <= 1),
{
    let groups = add_tags(seq![], tags);
    if forall|label: Seq<char>| #[trigger] tagged(tags, label).len() <= 1 {
        assert forall|g: int| 0 <= g < groups.len() implies (#[trigger] groups[g]).1.len() <= 1 by {
            groups_of_tags(tags, g);
            assert(tagged(tags, groups[g].0).len() <= 1);
        }
    }
    if forall|g: int| 0 <= g < groups.len() ==> (#[trigger] groups[g]).1.len() <= 1 {
        assert forall|label: Seq<char>| #[trigger] tagged(tags, label).len() <= 1 by {
            lemma_label_has_group(tags, label);
            if tagged(tags, label).len() > 0 {
                let g = entry_labels(groups).index_of(label);
                assert(groups[g].0 == label);
                groups_of_tags(tags, g);
            }
        }
    }
}

proof fn lemma_same_validity(
    tags: Seq<DirectiveView>,
    refs: Seq<DirectiveView>,
    files: Seq<Looked>,
    dirs: Seq<Looked>,
    tags2: Seq<DirectiveView>,
    refs2: Seq<DirectiveView>,
    files2: Seq<Looked>,
    dirs2: Seq<Looked>,
)
    requires
        tags.to_multiset() == tags2.to_multiset(),
        refs.to_multiset() == refs2.to_multiset(),
        files.to_multiset() == files2.to_multiset(),
        dirs.to_multiset() == dirs2.to_multiset(),
        findings_in_order(tags, refs, files, dirs).len() == 0,
    ensures
        findings_in_order(tags2, refs2, files2, dirs2).len() == 0,
{
    broadcast use group_to_multiset_ensures;

    let groups = add_tags(seq![], tags);
    let groups2 = add_tags(seq![], tags2);
    valid_exactly_when(
        groups,
        refs,
        references_of(files),
        found_for(files),
        references_of(dirs),
        found_for(dirs),
    );
    valid_exactly_when(
        groups2,
        refs2,
        references_of(files2),
        found_for(files2),
        references_of(dirs2),
        found_for(dirs2),
    );
    lemma_no_duplicates_by_label(tags);
    lemma_no_duplicates_by_label(tags2);
    assert forall|label: Seq<char>| #[trigger] tagged(tags2, label).len() <= 1 by {
        tags_of_a_label_are_as_many(tags, tags2, label);
        assert(tagged(tags, label).len() <= 1);
    }
    assert forall|i: int| 0 <= i < refs2.len() implies entry_labels(groups2).contains(
        (#[trigger] refs2[i]).label,
    ) by {
        let label = refs2[i].label;
        assert(refs2.contains(refs2[i]));
        assert(refs.to_multiset().count(refs2[i]) > 0);
        assert(refs.contains(refs2[i]));
        let k = refs.index_of(refs2[i]);
        assert(entry_labels(groups).contains(refs[k].label));
        lemma_label_has_group(tags, label);
        tags_of_a_label_are_as_many(tags, tags2, label);
        lemma_label_has_group(tags2, label);
    }
    assert forall|i: int| 0 <= i < files2.len() implies #[trigger] found_for(files2)[i]
        is File by {
        assert(files2.contains(files2[i]));
        assert(files.to_multiset().count(files2[i]) > 0);
        assert(files.contains(files2[i]));
        let k = files.index_of(files2[i]);
        assert(found_for(files)[k] is File);
    }
    assert forall|i: int| 0 <= i < dirs2.len() implies #[trigger] found_for(dirs2)[i]
        is Directory by {
        assert(dirs2.contains(dirs2[i]));
        assert(dirs.to_multiset().count(dirs2[i]) > 0);
        assert(dirs.contains(dirs2[i]));
        let k = dirs.index_of(dirs2[i]);
        assert(found_for(dirs)[k] is Directory);
    }
}

/// Whether a tree is valid does not depend on the order in which its
/// directives were taken in: two runs that gathered the same tags and the
/// same references, each reference with the same answer of the file system,
/// in whatever order, both find nothing wrong or both find something.
pub proof fn validity_ignores_order(
    tags: Seq<DirectiveView>,
    refs: Seq<DirectiveView>,
    files: Seq<Looked>,
    dirs: Seq<Looked>,
    tags2: Seq<DirectiveView>,
    refs2: Seq<DirectiveView>,
    files2: Seq<Looked>,
    dirs2: Seq<Looked>,
)
    requires
        tags.to_multiset() == tags2.to_multiset(),
        refs.to_multiset() == refs2.to_multiset(),
        files.to_multiset() == files2.to_multiset(),
        dirs.to_multiset() == dirs2.to_multiset(),
    ensures
        findings_in_order(tags, refs, files, dirs).len() == 0 <==> findings_in_order(
            tags2,
            refs2,
            files2,
            dirs2,
        ).len() == 0,
{
    if findings_in_order(tags, refs, files, dirs).len() == 0 {
        lemma_same_validity(tags, refs, files, dirs, tags2, refs2, files2, dirs2);
    }
    if findings_in_order(tags2, refs2, files2, dirs2).len() == 0 {
        lemma_same_validity(tags2, refs2, files2, dirs2, tags, refs, files, dirs);
    }
}

} // verus!
