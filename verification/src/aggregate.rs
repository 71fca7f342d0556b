//! The directives of a whole run, gathered file by file.

use crate::collections::{entry_labels, lemma_index_of_unique, with_item, LabelMap};
use crate::directive::{render, views, Directive, DirectiveView, Directives};
use crate::duplicates::{
    duplicate_errors, duplicate_is_reported, message_names_each, tag_groups,
};
use crate::text::occurs_in;
use vstd::prelude::*;
use vstd::string::*;

verus! {

/// Tags grouped by label, as mathematical values.
pub type Groups = Seq<(Seq<char>, Seq<DirectiveView>)>;

/// `groups` with one more tag, put with the tags of the same label.
pub open spec fn add_tag(groups: Groups, tag: DirectiveView) -> Groups {
    with_item(groups, tag.label, tag)
}

/// `groups` with `tags` added one after another.
pub open spec fn add_tags(groups: Groups, tags: Seq<DirectiveView>) -> Groups
    decreases tags.len(),
{
    if tags.len() == 0 {
        groups
    } else {
        add_tag(add_tags(groups, tags.drop_last()), tags.last())
    }
}

/// Everything that a run has found so far: the tags, grouped by label, and
/// the references of each kind in the order in which they came.
pub struct Aggregate {
    pub tags: LabelMap<Vec<Directive>>,
    pub refs: Vec<Directive>,
    pub files: Vec<Directive>,
    pub dirs: Vec<Directive>,
}

proof fn lemma_add_tag_views(map_before: Seq<(Seq<char>, Seq<Directive>)>, tag: Directive)
    ensures
        group_views(with_item(map_before, tag.label@, tag)) == add_tag(
            group_views(map_before),
            tag@,
        ),
{
    let labels = entry_labels(map_before);
    assert(entry_labels(group_views(map_before)) =~= labels);
    if labels.contains(tag.label@) {
        let i = labels.index_of(tag.label@);
        assert(views(map_before[i].1.push(tag)) =~= views(map_before[i].1).push(tag@));
        assert(group_views(with_item(map_before, tag.label@, tag)) =~= add_tag(
            group_views(map_before),
            tag@,
        ));
    } else {
        assert(views(seq![tag]) =~= seq![tag@]);
        assert(group_views(with_item(map_before, tag.label@, tag)) =~= add_tag(
            group_views(map_before),
            tag@,
        ));
    }
}

/// Groups of directives as groups of their views.
pub open spec fn group_views(groups: Seq<(Seq<char>, Seq<Directive>)>) -> Groups {
    groups.map_values(|g: (Seq<char>, Seq<Directive>)| (g.0, views(g.1)))
}

impl Aggregate {
    /// The tags, grouped by label.
    pub open spec fn groups(&self) -> Groups {
        tag_groups(self.tags)
    }

    /// An aggregate that holds nothing yet.
    pub fn new() -> (empty: Aggregate)
        ensures
            empty.groups() == Seq::<(Seq<char>, Seq<DirectiveView>)>::empty(),
            empty.refs@ == Seq::<Directive>::empty(),
            empty.files@ == Seq::<Directive>::empty(),
            empty.dirs@ == Seq::<Directive>::empty(),
    {
        let empty = Aggregate {
            tags: LabelMap::new(),
            refs: Vec::new(),
            files: Vec::new(),
            dirs: Vec::new(),
        };
        assert(empty.groups() =~= Seq::<(Seq<char>, Seq<DirectiveView>)>::empty());
        empty
    }

    /// Takes in the directives of one file. Each tag goes to the tags of its
    /// label, or starts a new group where its label is new; the references
    /// are appended. Nothing is dropped: a label that is tagged twice keeps
    /// both tags.
    pub fn merge(&mut self, directives: Directives)
        ensures
            final(self).groups() == add_tags(old(self).groups(), views(directives.tags@)),
            views(final(self).refs@) == views(old(self).refs@) + views(directives.refs@),
            views(final(self).files@) == views(old(self).files@) + views(directives.files@),
            views(final(self).dirs@) == views(old(self).dirs@) + views(directives.dirs@),
    {
        let mut directives = directives;
        let ghost given = directives;
        let mut i: usize = 0;
        while i < directives.tags.len()
            invariant
                i <= directives.tags.len(),
                directives == given,
                self.refs == old(self).refs,
                self.files == old(self).files,
                self.dirs == old(self).dirs,
                self.groups() == add_tags(old(self).groups(), views(given.tags@).take(i as int)),
            decreases directives.tags.len() - i,
        {
            proof {
                let next = views(given.tags@).take(i + 1);
                assert(next.drop_last() =~= views(given.tags@).take(i as int));
                assert(next.last() == given.tags[i as int]@);
                lemma_add_tag_views(self.tags.groups(), given.tags[i as int]);
                assert(group_views(self.tags.groups()) =~= self.groups());
            }
            let tag = directives.tags[i].clone();
            self.tags.add(tag.label.clone(), tag);
            assert(group_views(self.tags.groups()) =~= self.groups());
            i += 1;
        }
        assert(views(given.tags@).take(i as int) =~= views(given.tags@));
        let ghost refs_before = self.refs@;
        let ghost files_before = self.files@;
        let ghost dirs_before = self.dirs@;
        self.refs.append(&mut directives.refs);
        self.files.append(&mut directives.files);
        self.dirs.append(&mut directives.dirs);
        assert(views(self.refs@) =~= views(refs_before) + views(given.refs@));
        assert(views(self.files@) =~= views(files_before) + views(given.files@));
        assert(views(self.dirs@) =~= views(dirs_before) + views(given.dirs@));
    }
}

/// Adding tags in two steps is adding all of them in one.
pub proof fn add_tags_in_steps(groups: Groups, first: Seq<DirectiveView>, second: Seq<DirectiveView>)
    ensures
        add_tags(add_tags(groups, first), second) == add_tags(groups, first + second),
    decreases second.len(),
{
    if second.len() == 0 {
        assert(first + second =~= first);
    } else {
        add_tags_in_steps(groups, first, second.drop_last());
        assert((first + second).drop_last() =~= first + second.drop_last());
    }
}

/// The tags kept under `label`: none where the label has no group.
pub open spec fn group_of(groups: Groups, label: Seq<char>) -> Seq<DirectiveView> {
    if entry_labels(groups).contains(label) {
        groups[entry_labels(groups).index_of(label)].1
    } else {
        seq![]
    }
}

/// Those of `tags` that have the label `label`, in their order.
pub open spec fn tagged(tags: Seq<DirectiveView>, label: Seq<char>) -> Seq<DirectiveView> {
    tags.filter(|t: DirectiveView| t.label == label)
}

proof fn lemma_add_tag(groups: Groups, tag: DirectiveView, label: Seq<char>)
    requires
        entry_labels(groups).no_duplicates(),
    ensures
        entry_labels(add_tag(groups, tag)).no_duplicates(),
        group_of(add_tag(groups, tag), label) == if tag.label == label {
            group_of(groups, label).push(tag)
        } else {
            group_of(groups, label)
        },
{
    let labels = entry_labels(groups);
    let after = add_tag(groups, tag);
    if labels.contains(tag.label) {
        let i = labels.index_of(tag.label);
        assert(entry_labels(after) =~= labels);
        if tag.label == label {
        } else if labels.contains(label) {
            let j = labels.index_of(label);
            assert(j != i);
        }
    } else {
        assert(entry_labels(after) =~= labels.push(tag.label));
        assert forall|a: int, b: int|
            0 <= a < entry_labels(after).len() && 0 <= b < entry_labels(after).len() && a
                != b implies entry_labels(after)[a] != entry_labels(after)[b] by {
            if a < labels.len() {
                assert(labels.contains(labels[a]));
            }
            if b < labels.len() {
                assert(labels.contains(labels[b]));
            }
        }
        if tag.label == label {
            lemma_index_of_unique(entry_labels(after), labels.len() as int);
        } else if labels.contains(label) {
            let j = labels.index_of(label);
            lemma_index_of_unique(labels, j);
            lemma_index_of_unique(entry_labels(after), j);
        } else {
            if entry_labels(after).contains(label) {
                let j = entry_labels(after).index_of(label);
                if j < labels.len() {
                    assert(labels[j] == label);
                }
            }
        }
    }
}

/// Merging groups tags by label and loses nothing: after tags have been
/// added, the tags kept under a label are those that were kept under it
/// before, and then the added tags of that label, in the order in which they
/// came. No label has two groups.
pub proof fn merged_group(groups: Groups, tags: Seq<DirectiveView>, label: Seq<char>)
    requires
        entry_labels(groups).no_duplicates(),
    ensures
        entry_labels(add_tags(groups, tags)).no_duplicates(),
        group_of(add_tags(groups, tags), label) == group_of(groups, label) + tagged(tags, label),
    decreases tags.len(),
{
    reveal(Seq::filter);
    if tags.len() == 0 {
        assert(group_of(groups, label) + tagged(tags, label) =~= group_of(groups, label));
    } else {
        merged_group(groups, tags.drop_last(), label);
        lemma_add_tag(add_tags(groups, tags.drop_last()), tags.last(), label);
        assert(group_of(add_tags(groups, tags), label) =~= group_of(groups, label) + tagged(
            tags,
            label,
        ));
    }
}

proof fn lemma_two_tagged(tags: Seq<DirectiveView>, i: int, j: int)
    requires
        0 <= i < j < tags.len(),
        tags[i].label == tags[j].label,
    ensures
        exists|a: int, b: int|
            0 <= a < b < tagged(tags, tags[i].label).len() && tagged(tags, tags[i].label)[a]
                == tags[i] && tagged(tags, tags[i].label)[b] == tags[j],
    decreases tags.len(),
{
    reveal(Seq::filter);
    let label = tags[i].label;
    let all = tagged(tags, label);
    if j == tags.len() - 1 {
        let earlier = tagged(tags.drop_last(), label);
        tags.drop_last().lemma_filter_contains(|t: DirectiveView| t.label == label, i);
        let a = earlier.index_of(tags[i]);
        assert(all =~= earlier.push(tags[j]));
        assert(all[a] == tags[i] && all[earlier.len() as int] == tags[j]);
    } else {
        lemma_two_tagged(tags.drop_last(), i, j);
        let earlier = tagged(tags.drop_last(), label);
        let (a, b) = choose|a: int, b: int|
            0 <= a < b < earlier.len() && earlier[a] == tags[i] && earlier[b] == tags[j];
        assert(all[a] == tags[i] && all[b] == tags[j]);
    }
}

/// A tag defined twice is complained about, and the complaint names both
/// origins: where two of the added tags have the same label, the check for
/// duplicates complains about that label, and both tags are printed in the
/// complaint.
pub proof fn twice_tagged_is_reported(groups: Groups, tags: Seq<DirectiveView>, i: int, j: int)
    requires
        entry_labels(groups).no_duplicates(),
        0 <= i < j < tags.len(),
        tags[i].label == tags[j].label,
    ensures
        exists|error: Seq<char>| #[trigger]
            duplicate_errors(add_tags(groups, tags)).contains(error) && occurs_in(
                render(tags[i]),
                error,
            ) && occurs_in(render(tags[j]), error),
{
    let label = tags[i].label;
    let merged = add_tags(groups, tags);
    merged_group(groups, tags, label);
    lemma_two_tagged(tags, i, j);
    let (a, b) = choose|a: int, b: int|
        0 <= a < b < tagged(tags, label).len() && tagged(tags, label)[a] == tags[i] && tagged(
            tags,
            label,
        )[b] == tags[j];
    let group = group_of(merged, label);
    let before = group_of(groups, label).len() as int;
    assert(group.len() == before + tagged(tags, label).len());
    assert(group[before + a] == tags[i]);
    assert(group[before + b] == tags[j]);
    assert(entry_labels(merged).contains(label));
    let g = entry_labels(merged).index_of(label);
    assert(merged[g].0 == label);
    duplicate_is_reported(merged, g);
    message_names_each(label, group, before + a);
    message_names_each(label, group, before + b);
}

} // verus!
