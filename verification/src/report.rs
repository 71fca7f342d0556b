//! The verdict on a whole run: every complaint of every check at once, or a
//! summary of what was validated.

use crate::aggregate::{Aggregate, Groups};
use crate::collections::entry_labels;
use crate::dir_references::{dir_errors, dir_verdict};
use crate::directive::{views, DirectiveView};
use crate::duplicates::{duplicate_errors, duplicate_is_reported, report_is_of_a_duplicate};
use crate::file_references::{file_errors, file_verdict};
use crate::lookup::{lookup_views, Lookup, LookupView};
use crate::tag_references::{dangling_errors, dangling_is_reported, report_is_of_a_dangling};
use crate::text::{decimal, decimal_string, join, joined, texts};
use vstd::prelude::*;
use vstd::string::*;

verus! {

/// What a successful validation covered.
#[derive(Clone, Copy, Debug, PartialEq, Eq, Structural)]
pub struct Summary {
    /// The number of different tag labels.
    pub tags: usize,
    /// The number of references to tags.
    pub refs: usize,
    /// The number of references to files.
    pub files: usize,
    /// The number of references to directories.
    pub dirs: usize,
    /// The number of files that were scanned.
    pub files_scanned: usize,
}

/// A number with its noun: `1 tag`, `0 tags`, `2 tags`.
pub open spec fn counted(n: nat, noun: Seq<char>) -> Seq<char> {
    if n == 1 {
        decimal(n) + " "@ + noun
    } else {
        decimal(n) + " "@ + noun + "s"@
    }
}

/// The sentence that reports a successful validation.
pub open spec fn summary_text(summary: Summary) -> Seq<char> {
    counted(summary.tags as nat, "tag"@) + ", "@ + counted(summary.refs as nat, "tag reference"@)
        + ", "@ + counted(summary.files as nat, "file reference"@) + ", and "@ + counted(
        summary.dirs as nat,
        "directory reference"@,
    ) + " validated in "@ + counted(summary.files_scanned as nat, "file"@) + "."@
}

/// Every complaint about what was gathered, in a fixed order: duplicate tags,
/// then dangling references to tags, then file references, then directory
/// references. `file_found` and `dir_found` hold, index by index, what was
/// found at the paths that the file and directory references name.
pub open spec fn findings(
    groups: Groups,
    refs: Seq<DirectiveView>,
    files: Seq<DirectiveView>,
    file_found: Seq<LookupView>,
    dirs: Seq<DirectiveView>,
    dir_found: Seq<LookupView>,
) -> Seq<Seq<char>> {
    duplicate_errors(groups) + dangling_errors(entry_labels(groups), refs) + file_errors(
        files,
        file_found,
    ) + dir_errors(dirs, dir_found)
}

/// The findings about an aggregate.
pub open spec fn findings_of(
    state: Aggregate,
    file_found: Seq<LookupView>,
    dir_found: Seq<LookupView>,
) -> Seq<Seq<char>> {
    findings(
        state.groups(),
        views(state.refs@),
        views(state.files@),
        file_found,
        views(state.dirs@),
        dir_found,
    )
}

/// The counts that a validation of `state` reports.
pub open spec fn summary_of(state: Aggregate, files_scanned: usize) -> Summary {
    Summary {
        tags: state.groups().len() as usize,
        refs: state.refs@.len() as usize,
        files: state.files@.len() as usize,
        dirs: state.dirs@.len() as usize,
        files_scanned,
    }
}

/// True when `outcome` is the verdict on `state`: the counts where there is no
/// finding, and else the findings as one text, a blank line between each two.
pub open spec fn is_verdict(
    outcome: Result<Summary, String>,
    state: Aggregate,
    file_found: Seq<LookupView>,
    dir_found: Seq<LookupView>,
    files_scanned: usize,
) -> bool {
    match outcome {
        Ok(summary) => findings_of(state, file_found, dir_found).len() == 0 && summary
            == summary_of(state, files_scanned),
        Err(error) => findings_of(state, file_found, dir_found).len() > 0 && error@ == joined(
            findings_of(state, file_found, dir_found),
            "\n\n"@,
        ),
    }
}

/// Writes a number with its noun, the noun in the plural unless the number
/// is 1.
pub fn count(n: usize, noun: &str) -> (text: String)
    ensures
        text@ == counted(n as nat, noun@),
{
    let mut text = decimal_string(n);
    text.append(" ");
    text.append(noun);
    if n != 1 {
        text.append("s");
    }
    text
}

impl Summary {
    /// The sentence that reports the validation.
    pub fn to_string(&self) -> (text: String)
        ensures
            text@ == summary_text(*self),
    {
        let mut text = count(self.tags, "tag");
        text.append(", ");
        text.append(count(self.refs, "tag reference").as_str());
        text.append(", ");
        text.append(count(self.files, "file reference").as_str());
        text.append(", and ");
        text.append(count(self.dirs, "directory reference").as_str());
        text.append(" validated in ");
        text.append(count(self.files_scanned, "file").as_str());
        text.append(".");
        text
    }
}

/// Runs every check on `state`, where `file_found[i]` and `dir_found[i]` are
/// what was found at the paths that `state.files[i]` and `state.dirs[i]`
/// name. No check stops another: where anything is wrong, the error holds
/// every finding, separated by blank lines. Where nothing is, the counts are
/// returned.
pub fn validate(
    state: &Aggregate,
    file_found: &[Lookup],
    dir_found: &[Lookup],
    files_scanned: usize,
) -> (outcome: Result<Summary, String>)
    requires
        file_found.len() == state.files.len(),
        dir_found.len() == state.dirs.len(),
    ensures
        is_verdict(
            outcome,
            *state,
            lookup_views(file_found@),
            lookup_views(dir_found@),
            files_scanned,
        ),
{
    let mut errors: Vec<String> = Vec::new();
    let mut duplicates = crate::duplicates::check(&state.tags);
    let labels = state.tags.label_set();
    let mut dangling = crate::tag_references::check(&labels, state.refs.as_slice());
    let mut files = crate::file_references::check(state.files.as_slice(), file_found);
    let mut dirs = crate::dir_references::check(state.dirs.as_slice(), dir_found);
    proof {
        assert(entry_labels(state.groups()) =~= state.tags.labels());
    }
    let ghost all = texts(duplicates@) + texts(dangling@) + texts(files@) + texts(dirs@);
    errors.append(&mut duplicates);
    errors.append(&mut dangling);
    errors.append(&mut files);
    errors.append(&mut dirs);
    assert(texts(errors@) =~= all);
    if errors.len() == 0 {
        Ok(
            Summary {
                tags: state.tags.len(),
                refs: state.refs.len(),
                files: state.files.len(),
                dirs: state.dirs.len(),
                files_scanned,
            },
        )
    } else {
        Err(join(&errors, "\n\n"))
    }
}

/// Nothing is wrong exactly when every check is met: no label has more than
/// one tag, the label of every reference is the label of a tag, at the path
/// of every file reference a regular file was found, and at the path of every
/// directory reference a directory.
pub proof fn valid_exactly_when(
    groups: Groups,
    refs: Seq<DirectiveView>,
    files: Seq<DirectiveView>,
    file_found: Seq<LookupView>,
    dirs: Seq<DirectiveView>,
    dir_found: Seq<LookupView>,
)
    requires
        files.len() == file_found.len(),
        dirs.len() == dir_found.len(),
    ensures
        findings(groups, refs, files, file_found, dirs, dir_found).len() == 0 <==> {
            &&& forall|g: int| 0 <= g < groups.len() ==> (#[trigger] groups[g]).1.len() <= 1
            &&& forall|i: int|
                0 <= i < refs.len() ==> entry_labels(groups).contains((#[trigger] refs[i]).label)
            &&& forall|i: int| 0 <= i < files.len() ==> #[trigger] file_found[i] is File
            &&& forall|i: int| 0 <= i < dirs.len() ==> #[trigger] dir_found[i] is Directory
        },
{
    let labels = entry_labels(groups);
    if findings(groups, refs, files, file_found, dirs, dir_found).len() == 0 {
        assert forall|g: int| 0 <= g < groups.len() implies (#[trigger] groups[g]).1.len()
            <= 1 by {
            if groups[g].1.len() > 1 {
                duplicate_is_reported(groups, g);
            }
        }
        assert forall|i: int| 0 <= i < refs.len() implies labels.contains(
            (#[trigger] refs[i]).label,
        ) by {
            if !labels.contains(refs[i].label) {
                dangling_is_reported(labels, refs, i);
            }
        }
        assert forall|i: int| 0 <= i < files.len() implies #[trigger] file_found[i] is File by {
            if !(file_found[i] is File) {
                crate::file_references::wrong_is_reported(files, file_found, i);
            }
        }
        assert forall|i: int| 0 <= i < dirs.len() implies #[trigger] dir_found[i]
            is Directory by {
            if !(dir_found[i] is Directory) {
                crate::dir_references::wrong_is_reported(dirs, dir_found, i);
            }
        }
    } else {
        if duplicate_errors(groups).len() > 0 {
            report_is_of_a_duplicate(groups, 0);
        } else if dangling_errors(labels, refs).len() > 0 {
            report_is_of_a_dangling(labels, refs, 0);
        } else if file_errors(files, file_found).len() > 0 {
            crate::file_references::report_is_of_a_wrong(files, file_found, 0);
            let i = choose|i: int|
                0 <= i < files.len() && file_verdict(#[trigger] files[i], file_found[i]) == Some(
                    file_errors(files, file_found)[0],
                );
            assert(!(file_found[i] is File));
        } else {
            crate::dir_references::report_is_of_a_wrong(dirs, dir_found, 0);
            let i = choose|i: int|
                0 <= i < dirs.len() && dir_verdict(#[trigger] dirs[i], dir_found[i]) == Some(
                    dir_errors(dirs, dir_found)[0],
                );
            assert(!(dir_found[i] is Directory));
        }
    }
}

/// Validating twice what has not changed gives the same verdict twice: both
/// succeed with the same counts, or both fail with the same text.
pub proof fn validating_twice_agrees(
    first: Result<Summary, String>,
    second: Result<Summary, String>,
    state: Aggregate,
    file_found: Seq<LookupView>,
    dir_found: Seq<LookupView>,
    files_scanned: usize,
)
    requires
        is_verdict(first, state, file_found, dir_found, files_scanned),
        is_verdict(second, state, file_found, dir_found, files_scanned),
    ensures
        first is Ok <==> second is Ok,
        first is Ok ==> first->Ok_0 == second->Ok_0,
        first is Err ==> first->Err_0@ == second->Err_0@,
{
}

} // verus!
