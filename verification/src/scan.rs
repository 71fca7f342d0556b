//! Scanning the lines of a file with one matcher.

use crate::lines::line_views;
use crate::matcher::{first_groups, Matcher};
use crate::text::{present, texts};
use vstd::prelude::*;
use vstd::string::*;

verus! {

/// A captured label and the number of the line it was captured in, as a
/// mathematical value.
pub struct FoundView {
    pub label: Seq<char>,
    pub line_number: nat,
}

/// A captured label and the number of the line it was captured in, counted
/// from 1.
#[derive(Debug)]
pub struct Found {
    pub label: String,
    pub line_number: usize,
}

impl View for Found {
    type V = FoundView;

    open spec fn view(&self) -> FoundView {
        FoundView { label: self.label@, line_number: self.line_number as nat }
    }
}

/// The views of a sequence of finds.
pub open spec fn found_views(found: Seq<Found>) -> Seq<FoundView> {
    found.map_values(|f: Found| f@)
}

/// The labels that the pattern captures in one line, from left to right. A
/// line that is not text holds none.
pub open spec fn labels_in_line(pattern: Seq<char>, line: Option<Seq<char>>) -> Seq<Seq<char>> {
    match line {
        Some(text) => present(first_groups(pattern, text)),
        None => seq![],
    }
}

/// `labels`, each marked as found in line `line_number`.
pub open spec fn on_line(labels: Seq<Seq<char>>, line_number: nat) -> Seq<FoundView> {
    labels.map_values(|label: Seq<char>| FoundView { label, line_number })
}

/// Everything the pattern captures in `lines`: line after line, and within a
/// line from left to right. The first line has number 1.
pub open spec fn found_in(pattern: Seq<char>, lines: Seq<Option<Seq<char>>>) -> Seq<FoundView>
    decreases lines.len(),
{
    if lines.len() == 0 {
        seq![]
    } else {
        found_in(pattern, lines.drop_last()) + on_line(
            labels_in_line(pattern, lines.last()),
            lines.len(),
        )
    }
}

/// Scans `lines` with `matcher`.
pub fn find(matcher: &Matcher, lines: &Vec<Option<&str>>) -> (found: Vec<Found>)
    ensures
        found_views(found@) == found_in(matcher@, line_views(lines@)),
{
    let mut found: Vec<Found> = Vec::new();
    let mut i: usize = 0;
    while i < lines.len()
        invariant
            i <= lines.len(),
            found_views(found@) == found_in(matcher@, line_views(lines@).take(i as int)),
        decreases lines.len() - i,
    {
        let ghost so_far = found@;
        let ghost upto = line_views(lines@).take(i + 1);
        assert(upto.drop_last() =~= line_views(lines@).take(i as int));
        assert(upto.last() == line_views(lines@)[i as int]);
        if let Some(text) = lines[i] {
            let labels = matcher.labels(text);
            let mut k: usize = 0;
            while k < labels.len()
                invariant
                    k <= labels.len(),
                    i < lines.len(),
                    found_views(found@) == found_views(so_far) + on_line(
                        texts(labels@).take(k as int),
                        (i + 1) as nat,
                    ),
                decreases labels.len() - k,
            {
                let ghost before = found@;
                found.push(Found { label: labels[k].clone(), line_number: i + 1 });
                assert(found_views(found@) =~= found_views(before).push(found@.last()@));
                assert(found_views(found@) =~= found_views(so_far) + on_line(
                    texts(labels@).take(k + 1),
                    (i + 1) as nat,
                ));
                k += 1;
            }
            assert(texts(labels@).take(k as int) =~= texts(labels@));
        } else {
            assert(found_views(found@) =~= found_views(so_far) + on_line(seq![], (i + 1) as nat));
        }
        i += 1;
    }
    assert(line_views(lines@).take(i as int) =~= line_views(lines@));
    found
}

/// The finds that carry the line number `n`, in the order in which they were
/// found.
pub open spec fn found_on(found: Seq<FoundView>, n: nat) -> Seq<FoundView> {
    found.filter(|f: FoundView| f.line_number == n)
}

proof fn lemma_filter_keeps_all<A>(s: Seq<A>, pred: spec_fn(A) -> bool)
    requires
        forall|i: int| 0 <= i < s.len() ==> pred(s[i]),
    ensures
        s.filter(pred) == s,
    decreases s.len(),
{
    reveal(Seq::filter);
    if s.len() > 0 {
        lemma_filter_keeps_all(s.drop_last(), pred);
        assert(s.drop_last().push(s.last()) =~= s);
    }
}

proof fn lemma_filter_keeps_none<A>(s: Seq<A>, pred: spec_fn(A) -> bool)
    requires
        forall|i: int| 0 <= i < s.len() ==> !pred(s[i]),
    ensures
        s.filter(pred) == Seq::<A>::empty(),
    decreases s.len(),
{
    reveal(Seq::filter);
    if s.len() > 0 {
        lemma_filter_keeps_none(s.drop_last(), pred);
    }
}

/// Every find carries the number of a line of the scan: at least 1, at most
/// the number of lines.
pub proof fn line_numbers_in_range(pattern: Seq<char>, lines: Seq<Option<Seq<char>>>, i: int)
    requires
        0 <= i < found_in(pattern, lines).len(),
    ensures
        1 <= found_in(pattern, lines)[i].line_number <= lines.len(),
    decreases lines.len(),
{
    if lines.len() > 0 {
        let earlier = found_in(pattern, lines.drop_last());
        if i < earlier.len() {
            line_numbers_in_range(pattern, lines.drop_last(), i);
        }
    }
}

/// The finds of a scan stand in the order of their lines: line numbers never
/// go down from one find to the next.
pub proof fn line_numbers_ascend(
    pattern: Seq<char>,
    lines: Seq<Option<Seq<char>>>,
    i: int,
    j: int,
)
    requires
        0 <= i <= j < found_in(pattern, lines).len(),
    ensures
        found_in(pattern, lines)[i].line_number <= found_in(pattern, lines)[j].line_number,
    decreases lines.len(),
{
    if lines.len() > 0 {
        let earlier = found_in(pattern, lines.drop_last());
        if j < earlier.len() {
            line_numbers_ascend(pattern, lines.drop_last(), i, j);
        } else if i < earlier.len() {
            line_numbers_in_range(pattern, lines.drop_last(), i);
        }
    }
}

/// Whatever a line holds is found, all of it and in order: the finds that
/// carry the number of a line are the labels that the pattern captures in
/// that line, from left to right, each with that number.
pub proof fn finds_of_a_line(pattern: Seq<char>, lines: Seq<Option<Seq<char>>>, n: nat)
    requires
        1 <= n <= lines.len(),
    ensures
        found_on(found_in(pattern, lines), n) == on_line(
            labels_in_line(pattern, lines[n - 1]),
            n,
        ),
    decreases lines.len(),
{
    let pred = |f: FoundView| f.line_number == n;
    let earlier = found_in(pattern, lines.drop_last());
    let latest = on_line(labels_in_line(pattern, lines.last()), lines.len());
    Seq::filter_distributes_over_add(earlier, latest, pred);
    if n == lines.len() {
        assert forall|i: int| 0 <= i < earlier.len() implies !pred(earlier[i]) by {
            line_numbers_in_range(pattern, lines.drop_last(), i);
        }
        lemma_filter_keeps_none(earlier, pred);
        lemma_filter_keeps_all(latest, pred);
        assert(earlier.filter(pred) + latest.filter(pred) =~= latest);
    } else {
        finds_of_a_line(pattern, lines.drop_last(), n);
        lemma_filter_keeps_none(latest, pred);
        assert(earlier.filter(pred) + latest.filter(pred) =~= earlier.filter(pred));
        assert(lines.drop_last()[n - 1] == lines[n - 1]);
    }
}

} // verus!
