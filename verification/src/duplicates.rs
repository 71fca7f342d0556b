//! Tags must be unique: no label may be defined by more than one tag.

use crate::collections::LabelMap;
use crate::directive::{render, views, Directive, DirectiveView};
use crate::text::{occurs_in, occurs_in_between, occurs_in_itself, texts};
use vstd::prelude::*;
use vstd::string::*;

verus! {

/// The tags of a map as mathematical values: each label with the views of the
/// directives kept under it.
pub open spec fn tag_groups(map: LabelMap<Vec<Directive>>) -> Seq<(Seq<char>, Seq<DirectiveView>)> {
    map.entries().map_values(|e: (Seq<char>, Vec<Directive>)| (e.0, views(e.1@)))
}

/// One line for each directive: two spaces, the directive with its origin,
/// and a line feed.
pub open spec fn listing(directives: Seq<DirectiveView>) -> Seq<char>
    decreases directives.len(),
{
    if directives.len() == 0 {
        seq![]
    } else {
        listing(directives.drop_last()) + "  "@ + render(directives.last()) + "\n"@
    }
}

/// The complaint about a label that several tags define: a headline that
/// names the label, then every one of the tags with its origin.
pub open spec fn duplicate_message(label: Seq<char>, directives: Seq<DirectiveView>) -> Seq<char> {
    "Duplicate tags found for label `"@ + label + "`:\n"@ + listing(directives)
}

/// The groups of more than one directive, in their order.
pub open spec fn duplicates(groups: Seq<(Seq<char>, Seq<DirectiveView>)>) -> Seq<
    (Seq<char>, Seq<DirectiveView>),
> {
    groups.filter(|g: (Seq<char>, Seq<DirectiveView>)| g.1.len() > 1)
}

/// The complaints about `groups`: one for each label that has more than one
/// directive, in the order of the labels.
pub open spec fn duplicate_errors(groups: Seq<(Seq<char>, Seq<DirectiveView>)>) -> Seq<Seq<char>> {
    duplicates(groups).map_values(
        |g: (Seq<char>, Seq<DirectiveView>)| duplicate_message(g.0, g.1),
    )
}

proof fn lemma_duplicate_errors(groups: Seq<(Seq<char>, Seq<DirectiveView>)>)
    ensures
        duplicate_errors(groups) == if groups.len() == 0 {
            seq![]
        } else if groups.last().1.len() > 1 {
            duplicate_errors(groups.drop_last()).push(
                duplicate_message(groups.last().0, groups.last().1),
            )
        } else {
            duplicate_errors(groups.drop_last())
        },
{
    reveal(Seq::filter);
    if groups.len() == 0 {
        assert(duplicate_errors(groups) =~= seq![]);
    } else if groups.last().1.len() > 1 {
        assert(duplicate_errors(groups) =~= duplicate_errors(groups.drop_last()).push(
            duplicate_message(groups.last().0, groups.last().1),
        ));
    }
}

/// Writes the complaint about `label`, which `directives` all define.
pub fn describe(label: &str, directives: &Vec<Directive>) -> (error: String)
    ensures
        error@ == duplicate_message(label@, views(directives@)),
{
    let mut error = "Duplicate tags found for label `".to_owned();
    error.append(label);
    error.append("`:\n");
    let ghost head = error@;
    let mut i: usize = 0;
    while i < directives.len()
        invariant
            i <= directives.len(),
            error@ == head + listing(views(directives@).take(i as int)),
        decreases directives.len() - i,
    {
        proof {
            let next = views(directives@).take(i + 1);
            assert(next.drop_last() =~= views(directives@).take(i as int));
            assert(next.last() == directives[i as int]@);
        }
        let line = directives[i].to_string();
        error.append("  ");
        error.append(line.as_str());
        error.append("\n");
        assert(error@ =~= head + listing(views(directives@).take(i + 1)));
        i += 1;
    }
    assert(views(directives@).take(i as int) =~= views(directives@));
    error
}

/// Checks that every label of `tags_map` has at most one tag. Returns one
/// complaint for each label that has more.
pub fn check(tags_map: &LabelMap<Vec<Directive>>) -> (errors: Vec<String>)
    ensures
        texts(errors@) == duplicate_errors(tag_groups(*tags_map)),
{
    let mut errors: Vec<String> = Vec::new();
    let mut i: usize = 0;
    let n = tags_map.len();
    proof {
        lemma_duplicate_errors(tag_groups(*tags_map).take(0));
    }
    while i < n
        invariant
            i <= n,
            n == tags_map.entries().len(),
            texts(errors@) == duplicate_errors(tag_groups(*tags_map).take(i as int)),
        decreases n - i,
    {
        proof {
            let next = tag_groups(*tags_map).take(i + 1);
            assert(next.drop_last() =~= tag_groups(*tags_map).take(i as int));
            assert(next.last() == tag_groups(*tags_map)[i as int]);
            lemma_duplicate_errors(next);
        }
        let directives = tags_map.value_at(i);
        if directives.len() > 1 {
            let ghost before = errors@;
            let error = describe(tags_map.label_at(i), directives);
            errors.push(error);
            assert(texts(errors@) =~= texts(before).push(error@));
        }
        i += 1;
    }
    assert(tag_groups(*tags_map).take(i as int) =~= tag_groups(*tags_map));
    errors
}

/// A label with more than one tag is complained about.
pub proof fn duplicate_is_reported(groups: Seq<(Seq<char>, Seq<DirectiveView>)>, i: int)
    requires
        0 <= i < groups.len(),
        groups[i].1.len() > 1,
    ensures
        duplicate_errors(groups).contains(duplicate_message(groups[i].0, groups[i].1)),
    decreases groups.len(),
{
    lemma_duplicate_errors(groups);
    if i == groups.len() - 1 {
        let errors = duplicate_errors(groups);
        assert(errors[errors.len() - 1] == duplicate_message(groups[i].0, groups[i].1));
    } else {
        duplicate_is_reported(groups.drop_last(), i);
        let earlier = duplicate_errors(groups.drop_last());
        let at = earlier.index_of(duplicate_message(groups[i].0, groups[i].1));
        assert(duplicate_errors(groups)[at] == earlier[at]);
    }
}

/// Every complaint is about a label with more than one tag: labels with one
/// tag, or none, are not complained about.
pub proof fn report_is_of_a_duplicate(groups: Seq<(Seq<char>, Seq<DirectiveView>)>, k: int)
    requires
        0 <= k < duplicate_errors(groups).len(),
    ensures
        exists|i: int|
            0 <= i < groups.len() && (#[trigger] groups[i]).1.len() > 1 && duplicate_errors(
                groups,
            )[k] == duplicate_message(groups[i].0, groups[i].1),
    decreases groups.len(),
{
    lemma_duplicate_errors(groups);
    if groups.len() > 0 {
        let earlier = duplicate_errors(groups.drop_last());
        if k < earlier.len() {
            report_is_of_a_duplicate(groups.drop_last(), k);
            let i = choose|i: int|
                0 <= i < groups.drop_last().len() && (#[trigger] groups.drop_last()[i]).1.len() > 1
                    && earlier[k] == duplicate_message(
                    groups.drop_last()[i].0,
                    groups.drop_last()[i].1,
                );
            assert(groups[i] == groups.drop_last()[i]);
        } else {
            let i = groups.len() - 1;
            assert(groups[i].1.len() > 1);
        }
    }
}

/// A listing names every directive it lists.
pub proof fn listing_names_each(directives: Seq<DirectiveView>, k: int)
    requires
        0 <= k < directives.len(),
    ensures
        occurs_in(render(directives[k]), listing(directives)),
    decreases directives.len(),
{
    let earlier = listing(directives.drop_last());
    if k == directives.len() - 1 {
        occurs_in_itself(render(directives[k]));
        occurs_in_between(render(directives[k]), earlier + "  "@, render(directives[k]), "\n"@);
        assert(earlier + "  "@ + render(directives[k]) + "\n"@ =~= listing(directives));
    } else {
        listing_names_each(directives.drop_last(), k);
        occurs_in_between(
            render(directives[k]),
            seq![],
            earlier,
            "  "@ + render(directives.last()) + "\n"@,
        );
        assert(seq![] + earlier + ("  "@ + render(directives.last()) + "\n"@) =~= listing(
            directives,
        ));
    }
}

/// The complaint about a label names every one of its tags with its origin.
pub proof fn message_names_each(label: Seq<char>, directives: Seq<DirectiveView>, k: int)
    requires
        0 <= k < directives.len(),
    ensures
        occurs_in(render(directives[k]), duplicate_message(label, directives)),
{
    listing_names_each(directives, k);
    let head = "Duplicate tags found for label `"@ + label + "`:\n"@;
    occurs_in_between(render(directives[k]), head, listing(directives), seq![]);
    assert(head + listing(directives) + seq![] =~= duplicate_message(label, directives));
}

} // verus!
