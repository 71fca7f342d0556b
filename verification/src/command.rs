//! The operations of a run, once the tree has been scanned: what each prints
//! and whether it fails.

use crate::aggregate::{Aggregate, Groups};
use crate::directive::{render, views, Directive, DirectiveView};
use crate::lookup::{lookup_views, Lookup, LookupView};
use crate::report::{findings_of, summary_of, summary_text, validate};
use crate::text::{joined, str_eq, texts};
use vstd::prelude::*;
use vstd::string::*;

verus! {

/// What a run is asked to do.
#[derive(Clone, Copy, Debug, PartialEq, Eq, Structural)]
pub enum Subcommand {
    /// Validate everything.
    Check,
    /// Print every tag.
    ListTags,
    /// Print every reference to a tag.
    ListRefs,
    /// Print every reference to a file.
    ListFiles,
    /// Print every reference to a directory.
    ListDirs,
    /// Print the tags that nothing refers to, and fail if there is any where
    /// the flag is set.
    ListUnused(bool),
}

/// What a run hands back: the lines to print, and whether it failed.
#[derive(Debug)]
pub struct Output {
    pub lines: Vec<String>,
    pub outcome: Result<(), String>,
}

/// The labels of a sequence of directives.
pub open spec fn labels_of(directives: Seq<DirectiveView>) -> Seq<Seq<char>> {
    directives.map_values(|d: DirectiveView| d.label)
}

/// Each directive printed with its origin.
pub open spec fn renders(directives: Seq<DirectiveView>) -> Seq<Seq<char>> {
    directives.map_values(|d: DirectiveView| render(d))
}

/// The directives of all groups, group after group.
pub open spec fn flattened(groups: Groups) -> Seq<DirectiveView>
    decreases groups.len(),
{
    if groups.len() == 0 {
        seq![]
    } else {
        flattened(groups.drop_last()) + groups.last().1
    }
}

/// The groups that nothing refers to: those whose label is the label of no
/// reference, in their order.
pub open spec fn unused_groups(groups: Groups, refs: Seq<DirectiveView>) -> Groups {
    groups.filter(|g: (Seq<char>, Seq<DirectiveView>)| !labels_of(refs).contains(g.0))
}

/// The tags that nothing refers to: the directives of the groups whose label
/// is the label of no reference, group after group.
pub open spec fn unused(groups: Groups, refs: Seq<DirectiveView>) -> Seq<DirectiveView> {
    flattened(unused_groups(groups, refs))
}

proof fn lemma_unused(groups: Groups, refs: Seq<DirectiveView>)
    ensures
        unused(groups, refs) == if groups.len() == 0 {
            seq![]
        } else if labels_of(refs).contains(groups.last().0) {
            unused(groups.drop_last(), refs)
        } else {
            unused(groups.drop_last(), refs) + groups.last().1
        },
{
    reveal(Seq::filter);
    if groups.len() > 0 && !labels_of(refs).contains(groups.last().0) {
        let kept = unused_groups(groups, refs);
        assert(kept.drop_last() =~= unused_groups(groups.drop_last(), refs));
    }
}

/// The error of a listing of unused tags that was told to fail if there is
/// any, and found one.
pub open spec fn unused_failure() -> Seq<char> {
    "Found unused tags while using --fail-if-any"@
}

/// The lines that a run prints.
pub open spec fn printed(
    subcommand: Subcommand,
    state: Aggregate,
    file_found: Seq<LookupView>,
    dir_found: Seq<LookupView>,
    files_scanned: usize,
) -> Seq<Seq<char>> {
    match subcommand {
        Subcommand::Check => if findings_of(state, file_found, dir_found).len() == 0 {
            seq![summary_text(summary_of(state, files_scanned))]
        } else {
            seq![]
        },
        Subcommand::ListTags => renders(flattened(state.groups())),
        Subcommand::ListRefs => renders(views(state.refs@)),
        Subcommand::ListFiles => renders(views(state.files@)),
        Subcommand::ListDirs => renders(views(state.dirs@)),
        Subcommand::ListUnused(_) => renders(unused(state.groups(), views(state.refs@))),
    }
}

/// The error that a run ends with, if it fails.
pub open spec fn failure(
    subcommand: Subcommand,
    state: Aggregate,
    file_found: Seq<LookupView>,
    dir_found: Seq<LookupView>,
) -> Option<Seq<char>> {
    match subcommand {
        Subcommand::Check => if findings_of(state, file_found, dir_found).len() == 0 {
            None
        } else {
            Some(joined(findings_of(state, file_found, dir_found), "\n\n"@))
        },
        Subcommand::ListUnused(fail_if_any) => if fail_if_any && unused(
            state.groups(),
            views(state.refs@),
        ).len() > 0 {
            Some(unused_failure())
        } else {
            None
        },
        _ => None,
    }
}

/// Copies `items` to the end of `list`.
fn extend(list: &mut Vec<Directive>, items: &Vec<Directive>)
    ensures
        final(list)@ == old(list)@ + items@,
{
    let ghost before = list@;
    let mut i: usize = 0;
    while i < items.len()
        invariant
            i <= items.len(),
            list@ == before + items@.take(i as int),
        decreases items.len() - i,
    {
        list.push(items[i].clone());
        assert(list@ =~= before + items@.take(i + 1));
        i += 1;
    }
    assert(items@.take(i as int) =~= items@);
}

/// Prints each directive with its origin.
pub fn render_all(directives: &[Directive]) -> (lines: Vec<String>)
    ensures
        texts(lines@) == renders(views(directives@)),
{
    let mut lines: Vec<String> = Vec::new();
    let mut i: usize = 0;
    while i < directives.len()
        invariant
            i <= directives.len(),
            texts(lines@) == renders(views(directives@)).take(i as int),
        decreases directives.len() - i,
    {
        let ghost before = lines@;
        let line = directives[i].to_string();
        lines.push(line);
        assert(texts(lines@) =~= texts(before).push(line@));
        assert(texts(lines@) =~= renders(views(directives@)).take(i + 1));
        i += 1;
    }
    assert(renders(views(directives@)).take(i as int) =~= renders(views(directives@)));
    lines
}

/// True when one of `refs` has the label `label`.
pub fn is_referenced(label: &str, refs: &[Directive]) -> (referenced: bool)
    ensures
        referenced == labels_of(views(refs@)).contains(label@),
{
    let mut i: usize = 0;
    while i < refs.len()
        invariant
            i <= refs.len(),
            forall|j: int| 0 <= j < i ==> labels_of(views(refs@))[j] != label@,
        decreases refs.len() - i,
    {
        if str_eq(refs[i].label.as_str(), label) {
            assert(labels_of(views(refs@))[i as int] == label@);
            return true;
        }
        i += 1;
    }
    false
}

impl Aggregate {
    /// Every tag, group after group.
    pub fn all_tags(&self) -> (tags: Vec<Directive>)
        ensures
            views(tags@) == flattened(self.groups()),
    {
        let mut tags: Vec<Directive> = Vec::new();
        let n = self.tags.len();
        let mut i: usize = 0;
        while i < n
            invariant
                i <= n,
                n == self.groups().len(),
                views(tags@) == flattened(self.groups().take(i as int)),
            decreases n - i,
        {
            proof {
                let next = self.groups().take(i + 1);
                assert(next.drop_last() =~= self.groups().take(i as int));
                assert(next.last() == self.groups()[i as int]);
            }
            let ghost before = tags@;
            let group = self.tags.value_at(i);
            extend(&mut tags, group);
            assert(views(tags@) =~= views(before) + views(group@));
            i += 1;
        }
        assert(self.groups().take(i as int) =~= self.groups());
        tags
    }

    /// The tags that no reference refers to, group after group.
    pub fn unused_tags(&self) -> (tags: Vec<Directive>)
        ensures
            views(tags@) == unused(self.groups(), views(self.refs@)),
    {
        let mut tags: Vec<Directive> = Vec::new();
        let n = self.tags.len();
        let mut i: usize = 0;
        proof {
            lemma_unused(self.groups().take(0), views(self.refs@));
        }
        while i < n
            invariant
                i <= n,
                n == self.groups().len(),
                views(tags@) == unused(self.groups().take(i as int), views(self.refs@)),
            decreases n - i,
        {
            proof {
                let next = self.groups().take(i + 1);
                assert(next.drop_last() =~= self.groups().take(i as int));
                assert(next.last() == self.groups()[i as int]);
                lemma_unused(next, views(self.refs@));
            }
            if !is_referenced(self.tags.label_at(i), self.refs.as_slice()) {
                let ghost before = tags@;
                let group = self.tags.value_at(i);
                extend(&mut tags, group);
                assert(views(tags@) =~= views(before) + views(group@));
            }
            i += 1;
        }
        assert(self.groups().take(i as int) =~= self.groups());
        tags
    }
}

/// Carries out `subcommand` on what a scan has gathered.
///
/// A check needs to know what the file system holds: `file_found[i]` and
/// `dir_found[i]` are what was found at the paths that `state.files[i]` and
/// `state.dirs[i]` name. The listings do not look at them. `files_scanned` is
/// the number of files that the scan has read.
pub fn execute(
    subcommand: Subcommand,
    state: &Aggregate,
    file_found: &[Lookup],
    dir_found: &[Lookup],
    files_scanned: usize,
) -> (output: Output)
    requires
        subcommand is Check ==> file_found.len() == state.files.len() && dir_found.len()
            == state.dirs.len(),
    ensures
        texts(output.lines@) == printed(
            subcommand,
            *state,
            lookup_views(file_found@),
            lookup_views(dir_found@),
            files_scanned,
        ),
        match output.outcome {
            Ok(_) => failure(subcommand, *state, lookup_views(file_found@), lookup_views(dir_found@))
                is None,
            Err(error) => failure(
                subcommand,
                *state,
                lookup_views(file_found@),
                lookup_views(dir_found@),
            ) == Some(error@),
        },
{
    match subcommand {
        Subcommand::Check => match validate(state, file_found, dir_found, files_scanned) {
            Ok(summary) => {
                let mut lines: Vec<String> = Vec::new();
                let line = summary.to_string();
                lines.push(line);
                assert(texts(lines@) =~= seq![line@]);
                Output { lines, outcome: Ok(()) }
            },
            Err(error) => {
                let lines: Vec<String> = Vec::new();
                assert(texts(lines@) =~= Seq::<Seq<char>>::empty());
                Output { lines, outcome: Err(error) }
            },
        },
        Subcommand::ListTags => {
            let tags = state.all_tags();
            Output { lines: render_all(tags.as_slice()), outcome: Ok(()) }
        },
        Subcommand::ListRefs => Output {
            lines: render_all(state.refs.as_slice()),
            outcome: Ok(()),
        },
        Subcommand::ListFiles => Output {
            lines: render_all(state.files.as_slice()),
            outcome: Ok(()),
        },
        Subcommand::ListDirs => Output {
            lines: render_all(state.dirs.as_slice()),
            outcome: Ok(()),
        },
        Subcommand::ListUnused(fail_if_any) => {
            let tags = state.unused_tags();
            let lines = render_all(tags.as_slice());
            if fail_if_any && tags.len() > 0 {
                Output {
                    lines,
                    outcome: Err("Found unused tags while using --fail-if-any".to_owned()),
                }
            } else {
                Output { lines, outcome: Ok(()) }
            }
        },
    }
}

proof fn lemma_unused_has(groups: Groups, refs: Seq<DirectiveView>, g: int, k: int)
    requires
        0 <= g < groups.len(),
        0 <= k < groups[g].1.len(),
        !labels_of(refs).contains(groups[g].0),
    ensures
        unused(groups, refs).contains(groups[g].1[k]),
    decreases groups.len(),
{
    lemma_unused(groups, refs);
    let all = unused(groups, refs);
    let earlier = unused(groups.drop_last(), refs);
    if g == groups.len() - 1 {
        assert(all[earlier.len() + k] == groups[g].1[k]);
    } else {
        lemma_unused_has(groups.drop_last(), refs, g, k);
        let at = earlier.index_of(groups[g].1[k]);
        assert(all[at] == earlier[at]);
    }
}

/// A tag that nothing refers to is listed among the unused tags. Where the
/// listing was told to fail if there is any, it fails; where it was not, it
/// succeeds, and lists the tag all the same.
pub proof fn unused_tag_is_listed(
    state: Aggregate,
    file_found: Seq<LookupView>,
    dir_found: Seq<LookupView>,
    files_scanned: usize,
    fail_if_any: bool,
    g: int,
    k: int,
)
    requires
        0 <= g < state.groups().len(),
        0 <= k < state.groups()[g].1.len(),
        !labels_of(views(state.refs@)).contains(state.groups()[g].0),
    ensures
        printed(
            Subcommand::ListUnused(fail_if_any),
            state,
            file_found,
            dir_found,
            files_scanned,
        ).contains(render(state.groups()[g].1[k])),
        fail_if_any ==> failure(Subcommand::ListUnused(fail_if_any), state, file_found, dir_found)
            == Some(unused_failure()),
        !fail_if_any ==> failure(Subcommand::ListUnused(fail_if_any), state, file_found, dir_found)
            is None,
{
    let tags = unused(state.groups(), views(state.refs@));
    lemma_unused_has(state.groups(), views(state.refs@), g, k);
    let at = tags.index_of(state.groups()[g].1[k]);
    assert(renders(tags)[at] == render(tags[at]));
}

/// Only tags that nothing refers to are listed among the unused tags.
pub proof fn listed_tag_is_unused(groups: Groups, refs: Seq<DirectiveView>, i: int)
    requires
        0 <= i < unused(groups, refs).len(),
    ensures
        exists|g: int, k: int|
            0 <= g < groups.len() && 0 <= k < groups[g].1.len() && !labels_of(refs).contains(
                groups[g].0,
            ) && #[trigger] groups[g].1[k] == unused(groups, refs)[i],
    decreases groups.len(),
{
    lemma_unused(groups, refs);
    if groups.len() > 0 {
        let earlier = unused(groups.drop_last(), refs);
        if i < earlier.len() {
            listed_tag_is_unused(groups.drop_last(), refs, i);
            let (g, k) = choose|g: int, k: int|
                0 <= g < groups.drop_last().len() && 0 <= k < groups.drop_last()[g].1.len()
                    && !labels_of(refs).contains(groups.drop_last()[g].0)
                    && #[trigger] groups.drop_last()[g].1[k] == earlier[i];
            assert(groups[g].1[k] == unused(groups, refs)[i]);
        } else {
            let g = groups.len() - 1;
            let k = i - earlier.len();
            assert(groups[g].1[k] == unused(groups, refs)[i]);
        }
    }
}

} // verus!
