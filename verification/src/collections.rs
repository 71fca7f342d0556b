//! Collections keyed by label. Labels are compared character by character:
//! `label` and `LABEL` are different labels.

use crate::text::{str_eq, texts};
use vstd::prelude::*;
use vstd::string::*;

verus! {

/// The place of `label` among `labels`: the first index that holds it.
pub fn position(labels: &Vec<String>, label: &str) -> (place: Option<usize>)
    ensures
        match place {
            Some(i) => i < labels.len() && labels[i as int]@ == label@ && forall|j: int|
                0 <= j < i ==> labels[j]@ != label@,
            None => forall|j: int| 0 <= j < labels.len() ==> labels[j]@ != label@,
        },
{
    let mut i: usize = 0;
    while i < labels.len()
        invariant
            i <= labels.len(),
            forall|j: int| 0 <= j < i ==> labels[j]@ != label@,
        decreases labels.len() - i,
    {
        if str_eq(labels[i].as_str(), label) {
            return Some(i);
        }
        i += 1;
    }
    None
}

/// Among labels that are all different, a label is found at its own index.
pub proof fn lemma_index_of_unique(labels: Seq<Seq<char>>, i: int)
    requires
        labels.no_duplicates(),
        0 <= i < labels.len(),
    ensures
        labels.contains(labels[i]),
        labels.index_of(labels[i]) == i,
{
    let k = labels.index_of(labels[i]);
    assert(0 <= k < labels.len() && labels[k] == labels[i]);
}

/// A set of labels. It remembers the order in which its labels came.
pub struct LabelSet {
    labels: Vec<String>,
}

impl LabelSet {
    /// The labels of the set, in the order in which they were inserted.
    pub closed spec fn labels(&self) -> Seq<Seq<char>> {
        texts(self.labels@)
    }

    /// No label is held twice.
    pub open spec fn wf(&self) -> bool {
        self.labels().no_duplicates()
    }

    #[verifier::type_invariant]
    spec fn inv(&self) -> bool {
        self.wf()
    }

    /// True when `label` is in the set.
    pub open spec fn has(&self, label: Seq<char>) -> bool {
        self.labels().contains(label)
    }

    /// The empty set.
    pub fn new() -> (set: LabelSet)
        ensures
            set.labels() == Seq::<Seq<char>>::empty(),
            set.wf(),
    {
        LabelSet { labels: Vec::new() }
    }

    /// The number of labels in the set.
    pub fn len(&self) -> (n: usize)
        ensures
            n == self.labels().len(),
            self.wf(),
    {
        proof {
            use_type_invariant(self);
        }
        self.labels.len()
    }

    /// True when the set holds no label.
    pub fn is_empty(&self) -> (empty: bool)
        ensures
            empty == (self.labels().len() == 0),
            self.wf(),
    {
        proof {
            use_type_invariant(self);
        }
        self.labels.len() == 0
    }

    /// True when `label` is in the set.
    pub fn contains(&self, label: &str) -> (found: bool)
        ensures
            found == self.has(label@),
            self.wf(),
    {
        proof {
            use_type_invariant(self);
        }
        let place = position(&self.labels, label);
        proof {
            if let Some(i) = place {
                assert(self.labels()[i as int] == label@);
            }
        }
        place.is_some()
    }

    /// Puts `label` into the set. Returns whether it was new; a label that is
    /// already there stays where it is.
    pub fn insert(&mut self, label: String) -> (fresh: bool)
        ensures
            fresh == !old(self).has(label@),
            fresh ==> final(self).labels() == old(self).labels().push(label@),
            !fresh ==> final(self).labels() == old(self).labels(),
            final(self).wf(),
    {
        proof {
            use_type_invariant(&*self);
        }
        let place = position(&self.labels, label.as_str());
        match place {
            Some(i) => {
                assert(self.labels()[i as int] == label@);
                false
            },
            None => {
                let mut labels: Vec<String> = Vec::new();
                core::mem::swap(&mut self.labels, &mut labels);
                let ghost before = labels@;
                labels.push(label);
                assert(texts(labels@) =~= texts(before).push(label@));
                core::mem::swap(&mut self.labels, &mut labels);
                true
            },
        }
    }
}

/// A map from labels to values. It remembers the order in which its labels
/// first came.
pub struct LabelMap<V> {
    entries: Vec<(String, V)>,
}

/// The labels of a sequence of entries.
pub open spec fn entry_labels<V>(entries: Seq<(Seq<char>, V)>) -> Seq<Seq<char>> {
    entries.map_values(|e: (Seq<char>, V)| e.0)
}

/// The values of a sequence of entries.
pub open spec fn entry_values<V>(entries: Seq<(Seq<char>, V)>) -> Seq<V> {
    entries.map_values(|e: (Seq<char>, V)| e.1)
}

/// The views of a sequence of entries: each label as text, each value as it
/// is.
pub open spec fn entry_views<V>(entries: Seq<(String, V)>) -> Seq<(Seq<char>, V)> {
    entries.map_values(|e: (String, V)| (e.0@, e.1))
}

fn entry_position<V>(entries: &Vec<(String, V)>, label: &str) -> (place: Option<usize>)
    ensures
        match place {
            Some(i) => i < entries.len() && entries[i as int].0@ == label@,
            None => !entry_labels(entry_views(entries@)).contains(label@),
        },
{
    let mut i: usize = 0;
    while i < entries.len()
        invariant
            i <= entries.len(),
            forall|j: int| 0 <= j < i ==> entries[j].0@ != label@,
        decreases entries.len() - i,
    {
        if str_eq(entries[i].0.as_str(), label) {
            return Some(i);
        }
        i += 1;
    }
    None
}

impl<V> LabelMap<V> {
    /// The entries of the map, in the order in which their labels first came.
    pub closed spec fn entries(&self) -> Seq<(Seq<char>, V)> {
        entry_views(self.entries@)
    }

    /// The labels of the map, in the order in which they first came.
    pub open spec fn labels(&self) -> Seq<Seq<char>> {
        entry_labels(self.entries())
    }

    /// The values of the map, each at the index of its label.
    pub open spec fn values(&self) -> Seq<V> {
        entry_values(self.entries())
    }

    /// No label is held twice.
    pub open spec fn wf(&self) -> bool {
        self.labels().no_duplicates()
    }

    #[verifier::type_invariant]
    spec fn inv(&self) -> bool {
        self.wf()
    }

    /// True when `label` is a key of the map.
    pub open spec fn has(&self, label: Seq<char>) -> bool {
        self.labels().contains(label)
    }

    /// The value kept under `label`, where there is one.
    pub open spec fn value_of(&self, label: Seq<char>) -> V
        recommends
            self.has(label),
    {
        self.values()[self.labels().index_of(label)]
    }

    /// The empty map.
    pub fn new() -> (map: LabelMap<V>)
        ensures
            map.entries() == Seq::<(Seq<char>, V)>::empty(),
            map.wf(),
    {
        LabelMap { entries: Vec::new() }
    }

    /// The number of labels in the map.
    pub fn len(&self) -> (n: usize)
        ensures
            n == self.entries().len(),
            self.wf(),
    {
        proof {
            use_type_invariant(self);
        }
        self.entries.len()
    }

    /// True when the map holds no label.
    pub fn is_empty(&self) -> (empty: bool)
        ensures
            empty == (self.entries().len() == 0),
            self.wf(),
    {
        proof {
            use_type_invariant(self);
        }
        self.entries.len() == 0
    }

    /// The index at which `label` is kept, if it is a key of the map.
    pub fn index_of(&self, label: &str) -> (place: Option<usize>)
        ensures
            self.wf(),
            match place {
                Some(i) => i < self.entries().len() && self.labels()[i as int] == label@,
                None => !self.has(label@),
            },
    {
        proof {
            use_type_invariant(self);
        }
        entry_position(&self.entries, label)
    }

    /// True when `label` is a key of the map.
    pub fn contains_key(&self, label: &str) -> (found: bool)
        ensures
            found == self.has(label@),
            self.wf(),
    {
        let place = self.index_of(label);
        place.is_some()
    }

    /// The label kept at index `i`.
    pub fn label_at(&self, i: usize) -> (label: &str)
        requires
            i < self.entries().len(),
        ensures
            label@ == self.labels()[i as int],
    {
        self.entries[i].0.as_str()
    }

    /// The value kept at index `i`.
    pub fn value_at(&self, i: usize) -> (value: &V)
        requires
            i < self.entries().len(),
        ensures
            *value == self.values()[i as int],
    {
        &self.entries[i].1
    }

    /// The value kept under `label`, if it is a key of the map.
    pub fn get(&self, label: &str) -> (value: Option<&V>)
        ensures
            self.wf(),
            match value {
                Some(v) => self.has(label@) && *v == self.value_of(label@),
                None => !self.has(label@),
            },
    {
        match self.index_of(label) {
            Some(i) => {
                proof {
                    lemma_index_of_unique(self.labels(), i as int);
                }
                Some(self.value_at(i))
            },
            None => None,
        }
    }

    /// The labels of the map as a set.
    pub fn label_set(&self) -> (set: LabelSet)
        ensures
            set.labels() == self.labels(),
            set.wf(),
    {
        proof {
            use_type_invariant(self);
        }
        let mut labels: Vec<String> = Vec::new();
        let mut i: usize = 0;
        while i < self.entries.len()
            invariant
                i <= self.entries.len(),
                texts(labels@) == entry_labels(entry_views(self.entries@)).take(i as int),
            decreases self.entries.len() - i,
        {
            let ghost before = labels@;
            labels.push(self.entries[i].0.clone());
            assert(texts(labels@) =~= texts(before).push(self.entries[i as int].0@));
            assert(texts(labels@) =~= entry_labels(entry_views(self.entries@)).take(i + 1));
            i += 1;
        }
        assert(texts(labels@) =~= entry_labels(entry_views(self.entries@)));
        LabelSet { labels }
    }

    /// Puts `value` under `label`. Where the label is new, the entry goes to
    /// the end; where it is not, the new value takes the place of the old
    /// one, which is returned.
    pub fn insert(&mut self, label: String, value: V) -> (replaced: Option<V>)
        ensures
            final(self).wf(),
            match replaced {
                Some(v) => old(self).has(label@) && v == old(self).value_of(label@)
                    && final(self).entries() == old(self).entries().update(
                    old(self).labels().index_of(label@),
                    (label@, value),
                ),
                None => !old(self).has(label@) && final(self).entries() == old(
                    self,
                ).entries().push((label@, value)),
            },
    {
        proof {
            use_type_invariant(&*self);
        }
        let place = entry_position(&self.entries, label.as_str());
        let mut entries: Vec<(String, V)> = Vec::new();
        core::mem::swap(&mut self.entries, &mut entries);
        let ghost before = entries@;
        let replaced = match place {
            Some(i) => {
                proof {
                    lemma_index_of_unique(entry_labels(entry_views(before)), i as int);
                }
                entries.push((label, value));
                let old_entry = entries.swap_remove(i);
                assert(entry_views(entries@) =~= entry_views(before).update(
                    i as int,
                    (label@, value),
                ));
                assert(entry_labels(entry_views(entries@)) =~= entry_labels(entry_views(before)));
                Some(old_entry.1)
            },
            None => {
                entries.push((label, value));
                assert(entry_views(entries@) =~= entry_views(before).push((label@, value)));
                assert(entry_labels(entry_views(entries@)) =~= entry_labels(
                    entry_views(before),
                ).push(label@));
                None
            },
        };
        core::mem::swap(&mut self.entries, &mut entries);
        replaced
    }

    /// Takes `label` and its value out of the map. The other entries keep
    /// their order.
    pub fn remove(&mut self, label: &str) -> (removed: Option<V>)
        ensures
            final(self).wf(),
            match removed {
                Some(v) => old(self).has(label@) && v == old(self).value_of(label@)
                    && final(self).entries() == old(self).entries().remove(
                    old(self).labels().index_of(label@),
                ),
                None => !old(self).has(label@) && final(self).entries() == old(self).entries(),
            },
    {
        proof {
            use_type_invariant(&*self);
        }
        let place = entry_position(&self.entries, label);
        match place {
            Some(i) => {
                let mut entries: Vec<(String, V)> = Vec::new();
                core::mem::swap(&mut self.entries, &mut entries);
                let ghost before = entries@;
                proof {
                    lemma_index_of_unique(entry_labels(entry_views(before)), i as int);
                }
                let entry = entries.remove(i);
                assert(entry_views(entries@) =~= entry_views(before).remove(i as int));
                assert(entry_labels(entry_views(entries@)) =~= entry_labels(
                    entry_views(before),
                ).remove(i as int));
                core::mem::swap(&mut self.entries, &mut entries);
                Some(entry.1)
            },
            None => None,
        }
    }
}

/// `groups` with `item` added under `label`: at the end of the items of that
/// label where it has an entry, and else as the one item of a new entry at
/// the end.
pub open spec fn with_item<T>(groups: Seq<(Seq<char>, Seq<T>)>, label: Seq<char>, item: T) -> Seq<
    (Seq<char>, Seq<T>),
> {
    let labels = entry_labels(groups);
    if labels.contains(label) {
        let i = labels.index_of(label);
        groups.update(i, (label, groups[i].1.push(item)))
    } else {
        groups.push((label, seq![item]))
    }
}

/// The entries of a map of lists, with each list as a sequence.
pub open spec fn entry_groups<T>(entries: Seq<(Seq<char>, Vec<T>)>) -> Seq<(Seq<char>, Seq<T>)> {
    entries.map_values(|e: (Seq<char>, Vec<T>)| (e.0, e.1@))
}

impl<T> LabelMap<Vec<T>> {
    /// The entries of the map, with each list of items as a sequence.
    pub open spec fn groups(&self) -> Seq<(Seq<char>, Seq<T>)> {
        entry_groups(self.entries())
    }

    /// Adds `item` to the items kept under `label`. A label that is new gets
    /// an entry of its own, at the end.
    pub fn add(&mut self, label: String, item: T)
        ensures
            final(self).wf(),
            final(self).groups() == with_item(old(self).groups(), label@, item),
    {
        proof {
            use_type_invariant(&*self);
        }
        let place = entry_position(&self.entries, label.as_str());
        let mut entries: Vec<(String, Vec<T>)> = Vec::new();
        core::mem::swap(&mut self.entries, &mut entries);
        let ghost before = entries@;
        assert(entry_labels(entry_groups(entry_views(before))) =~= entry_labels(
            entry_views(before),
        ));
        match place {
            Some(i) => {
                proof {
                    lemma_index_of_unique(entry_labels(entry_views(before)), i as int);
                }
                entries[i].1.push(item);
                assert(entries@.len() == before.len());
                assert(entries@[i as int].0 == before[i as int].0);
                assert(entries@[i as int].1@ == before[i as int].1@.push(item));
                assert(forall|j: int| 0 <= j < before.len() && j != i ==> entries@[j] == before[j]);
                assert(entry_labels(entry_views(entries@)) =~= entry_labels(entry_views(before)));
            },
            None => {
                let mut items: Vec<T> = Vec::new();
                items.push(item);
                entries.push((label, items));
                assert(entry_labels(entry_views(entries@)) =~= entry_labels(
                    entry_views(before),
                ).push(label@));
            },
        }
        assert(entry_groups(entry_views(entries@)) =~= with_item(
            entry_groups(entry_views(before)),
            label@,
            item,
        ));
        core::mem::swap(&mut self.entries, &mut entries);
    }
}

} // verus!
