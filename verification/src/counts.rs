//! An aggregate as it is held in memory: a list of entries, one for each
//! label, that stands for a mapping from labels to counts.

use vstd::prelude::*;
use crate::ranking::{distinct_labels, entry_views, is_ranking, lists, rank, shows};
use crate::tally::count_in;

verus! {

/// The mapping that a list of entries stands for.
spec fn entry_map(entries: Seq<(Seq<char>, nat)>) -> Map<Seq<char>, nat> {
    Map::new(
        |label: Seq<char>| lists(entries, label),
        |label: Seq<char>| entries[choose|i: int| shows(entries, label, i)].1,
    )
}

/// With distinct labels, each entry is the one the mapping speaks of.
proof fn lemma_entry_map_at(entries: Seq<(Seq<char>, nat)>, i: int)
    requires
        distinct_labels(entries),
        0 <= i < entries.len(),
    ensures
        entry_map(entries).contains_key(entries[i].0),
        entry_map(entries)[entries[i].0] == entries[i].1,
{
    assert(shows(entries, entries[i].0, i));
}

/// A new entry for a label that has none adds that label to the mapping.
proof fn lemma_entry_map_push(entries: Seq<(Seq<char>, nat)>, entry: (Seq<char>, nat))
    requires
        distinct_labels(entries),
        !lists(entries, entry.0),
    ensures
        distinct_labels(entries.push(entry)),
        entry_map(entries.push(entry)) == entry_map(entries).insert(entry.0, entry.1),
{
    let longer = entries.push(entry);
    let last = entries.len() as int;
    assert forall|i: int, j: int|
        0 <= i < longer.len() && 0 <= j < longer.len() && i != j implies (#[trigger] longer[i]).0
        != (#[trigger] longer[j]).0 by {
        if i < last {
            assert(!shows(entries, entry.0, i));
        }
        if j < last {
            assert(!shows(entries, entry.0, j));
        }
    }
    assert forall|label: Seq<char>| lists(longer, label) <==> lists(entries, label) || label
        == entry.0 by {
        if lists(entries, label) {
            let i = choose|i: int| shows(entries, label, i);
            assert(shows(longer, label, i));
        }
        if label == entry.0 {
            assert(shows(longer, label, last));
        }
        if lists(longer, label) {
            let i = choose|i: int| shows(longer, label, i);
            if i < last {
                assert(shows(entries, label, i));
            }
        }
    }
    assert forall|label: Seq<char>| lists(longer, label) implies #[trigger] entry_map(
        longer,
    )[label] == entry_map(entries).insert(entry.0, entry.1)[label] by {
        let i = choose|i: int| shows(longer, label, i);
        lemma_entry_map_at(longer, i);
        if i < last {
            lemma_entry_map_at(entries, i);
        }
    }
    assert(entry_map(longer) =~= entry_map(entries).insert(entry.0, entry.1));
}

/// Another count in the entry of a label changes the count of that label
/// only.
proof fn lemma_entry_map_update(entries: Seq<(Seq<char>, nat)>, at: int, count: nat)
    requires
        distinct_labels(entries),
        0 <= at < entries.len(),
    ensures
        distinct_labels(entries.update(at, (entries[at].0, count))),
        entry_map(entries.update(at, (entries[at].0, count))) == entry_map(entries).insert(
            entries[at].0,
            count,
        ),
{
    let label = entries[at].0;
    let changed = entries.update(at, (label, count));
    assert forall|i: int, j: int|
        0 <= i < changed.len() && 0 <= j < changed.len() && i != j implies (
    #[trigger] changed[i]).0 != (#[trigger] changed[j]).0 by {
        assert(changed[i].0 == entries[i].0);
        assert(changed[j].0 == entries[j].0);
    }
    assert forall|other: Seq<char>| lists(changed, other) <==> lists(entries, other) by {
        if lists(entries, other) {
            let i = choose|i: int| shows(entries, other, i);
            assert(shows(changed, other, i));
        }
        if lists(changed, other) {
            let i = choose|i: int| shows(changed, other, i);
            assert(shows(entries, other, i));
        }
    }
    assert(shows(entries, label, at));
    assert forall|other: Seq<char>| lists(changed, other) implies #[trigger] entry_map(
        changed,
    )[other] == entry_map(entries).insert(label, count)[other] by {
        let i = choose|i: int| shows(changed, other, i);
        lemma_entry_map_at(changed, i);
        if i != at {
            lemma_entry_map_at(entries, i);
        }
    }
    assert(entry_map(changed) =~= entry_map(entries).insert(label, count));
}

/// A list in descending order that holds the same entries as a list with
/// distinct labels is the ranking of the mapping that the list stands for.
proof fn lemma_ranking_of_entries(entries: Seq<(Seq<char>, nat)>, ranking: Seq<(Seq<char>, nat)>)
    requires
        distinct_labels(entries),
        crate::ranking::descending(ranking),
        ranking.to_multiset() == entries.to_multiset(),
    ensures
        is_ranking(ranking, entry_map(entries)),
{
    entries.to_multiset_ensures();
    ranking.to_multiset_ensures();
    assert forall|k: int| 0 <= k < ranking.len() implies entry_map(entries).contains_key(
        (#[trigger] ranking[k]).0,
    ) && entry_map(entries)[ranking[k].0] == ranking[k].1 by {
        assert(ranking.contains(ranking[k]));
        assert(entries.to_multiset().count(ranking[k]) > 0);
        assert(entries.contains(ranking[k]));
        let i = choose|i: int| 0 <= i < entries.len() && entries[i] == ranking[k];
        lemma_entry_map_at(entries, i);
    }
    assert forall|label: Seq<char>| #[trigger]
        entry_map(entries).contains_key(label) implies lists(ranking, label) by {
        let i = choose|i: int| shows(entries, label, i);
        assert(entries.contains(entries[i]));
        assert(ranking.to_multiset().count(entries[i]) > 0);
        assert(ranking.contains(entries[i]));
        let k = choose|k: int| 0 <= k < ranking.len() && ranking[k] == entries[i];
        assert(shows(ranking, label, k));
    }
}

/// A mapping from labels to counts: how often each label was recorded.
pub struct Counts {
    entries: Vec<(String, usize)>,
}

impl View for Counts {
    type V = Map<Seq<char>, nat>;

    closed spec fn view(&self) -> Map<Seq<char>, nat> {
        entry_map(entry_views(self.entries@))
    }
}

impl Counts {
    #[verifier::type_invariant]
    spec fn well_formed(self) -> bool {
        &&& distinct_labels(entry_views(self.entries@))
        &&& self@.dom().finite()
        &&& self@.dom().len() == self.entries@.len()
    }

    /// An aggregate in which nothing was recorded yet.
    pub fn new() -> (counts: Counts)
        ensures
            counts@ == Map::<Seq<char>, nat>::empty(),
    {
        let entries: Vec<(String, usize)> = Vec::new();
        assert(entry_map(entry_views(entries@)) =~= Map::<Seq<char>, nat>::empty());
        Counts { entries }
    }

    /// The number of labels that were recorded.
    pub fn len(&self) -> (len: usize)
        ensures
            self@.dom().finite(),
            len == self@.dom().len(),
    {
        proof {
            use_type_invariant(self);
        }
        self.entries.len()
    }

    /// Whether nothing was recorded.
    pub fn is_empty(&self) -> (empty: bool)
        ensures
            empty == (self@ == Map::<Seq<char>, nat>::empty()),
    {
        proof {
            use_type_invariant(self);
            if self.entries@.len() == 0 {
                assert(self@ =~= Map::<Seq<char>, nat>::empty());
            }
        }
        self.entries.len() == 0
    }

    /// Where the entry of `label` stands, if there is one.
    fn find(&self, label: &String) -> (at: Option<usize>)
        ensures
            match at {
                Some(i) => shows(entry_views(self.entries@), label@, i as int),
                None => !lists(entry_views(self.entries@), label@),
            },
    {
        let mut i: usize = 0;
        while i < self.entries.len()
            invariant
                i <= self.entries.len(),
                forall|k: int| 0 <= k < i ==> !shows(entry_views(self.entries@), label@, k),
            decreases self.entries.len() - i,
        {
            if self.entries[i].0 == *label {
                return Some(i);
            }
            i = i + 1;
        }
        None
    }

    /// How often `label` was recorded: zero if it never was.
    pub fn get(&self, label: &String) -> (count: usize)
        ensures
            count == count_in(self@, label@),
    {
        proof {
            use_type_invariant(self);
        }
        match self.find(label) {
            Some(i) => {
                proof {
                    lemma_entry_map_at(entry_views(self.entries@), i as int);
                }
                self.entries[i].1
            },
            None => 0,
        }
    }

    /// Records one more occurrence of `label`.
    pub fn record(self, label: String) -> (counts: Counts)
        requires
            count_in(self@, label@) < usize::MAX,
        ensures
            counts@ == self@.insert(label@, count_in(self@, label@) + 1),
    {
        proof {
            use_type_invariant(&self);
        }
        let ghost before = entry_views(self.entries@);
        let found = self.find(&label);
        let mut entries = self.entries;
        match found {
            Some(i) => {
                let count = entries[i].1;
                proof {
                    lemma_entry_map_at(before, i as int);
                    lemma_entry_map_update(before, i as int, (count + 1) as nat);
                }
                entries.set(i, (label, count + 1));
                assert(entry_views(entries@) =~= before.update(
                    i as int,
                    (label@, (count + 1) as nat),
                ));
            },
            None => {
                proof {
                    lemma_entry_map_push(before, (label@, 1));
                }
                entries.push((label, 1));
                assert(entry_views(entries@) =~= before.push((label@, 1)));
            },
        }
        Counts { entries }
    }

    /// The entries in the order in which they are shown: highest count first,
    /// and of equal counts the label that comes last first.
    pub fn ranked(&self) -> (ranking: Vec<(String, usize)>)
        ensures
            is_ranking(entry_views(ranking@), self@),
    {
        proof {
            use_type_invariant(self);
        }
        let ranking = rank(&self.entries);
        proof {
            lemma_ranking_of_entries(entry_views(self.entries@), entry_views(ranking@));
        }
        ranking
    }
}

} // verus!
