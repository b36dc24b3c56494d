//! Ranking an aggregate for display: highest count first, and among equal
//! counts the label that comes last in lexicographic order first. This is the
//! descending order of the pairs of count and label.

use vstd::prelude::*;
use crate::order::{
    label_precedes,
    lemma_precedes_asymmetric,
    lemma_precedes_irreflexive,
    lemma_precedes_total,
    lemma_precedes_transitive,
    precedes,
};

verus! {

/// A list of entries as mathematical values: each label with its count.
pub open spec fn entry_views(entries: Seq<(String, usize)>) -> Seq<(Seq<char>, nat)> {
    Seq::new(entries.len(), |i: int| (entries[i].0@, entries[i].1 as nat))
}

/// Whether entry `a`, a label with its count, is shown before entry `b`.
pub open spec fn outranks(a: (Seq<char>, nat), b: (Seq<char>, nat)) -> bool {
    a.1 > b.1 || (a.1 == b.1 && precedes(b.0, a.0))
}

/// Whether position `i` of `entries` holds `label`.
pub open spec fn shows(entries: Seq<(Seq<char>, nat)>, label: Seq<char>, i: int) -> bool {
    0 <= i < entries.len() && entries[i].0 == label
}

/// Whether `entries` holds `label` at some position.
pub open spec fn lists(entries: Seq<(Seq<char>, nat)>, label: Seq<char>) -> bool {
    exists|i: int| shows(entries, label, i)
}

/// Whether no label stands at two positions of `entries`.
pub open spec fn distinct_labels(entries: Seq<(Seq<char>, nat)>) -> bool {
    forall|i: int, j: int|
        0 <= i < entries.len() && 0 <= j < entries.len() && i != j ==> (#[trigger] entries[i]).0
            != (#[trigger] entries[j]).0
}

/// Whether every entry of `ranking` is shown before the entries that follow it.
pub open spec fn descending(ranking: Seq<(Seq<char>, nat)>) -> bool {
    forall|i: int, j: int|
        0 <= i < j < ranking.len() ==> outranks(#[trigger] ranking[i], #[trigger] ranking[j])
}

/// Whether `ranking` is the ranking of `counts`: it shows the labels of
/// `counts` and no others, each with its count, in descending order.
pub open spec fn is_ranking(ranking: Seq<(Seq<char>, nat)>, counts: Map<Seq<char>, nat>) -> bool {
    &&& forall|i: int|
        0 <= i < ranking.len() ==> counts.contains_key((#[trigger] ranking[i]).0)
            && counts[ranking[i].0] == ranking[i].1
    &&& forall|label: Seq<char>| #[trigger] counts.contains_key(label) ==> lists(ranking, label)
    &&& descending(ranking)
}

/// No entry is shown before itself.
pub proof fn lemma_outranks_irreflexive(a: (Seq<char>, nat))
    ensures
        !outranks(a, a),
{
    lemma_precedes_irreflexive(a.0);
}

/// Of two entries at most one is shown before the other.
pub proof fn lemma_outranks_asymmetric(a: (Seq<char>, nat), b: (Seq<char>, nat))
    requires
        outranks(a, b),
    ensures
        !outranks(b, a),
{
    if a.1 == b.1 {
        lemma_precedes_asymmetric(b.0, a.0);
    }
}

/// Being shown before is transitive.
pub proof fn lemma_outranks_transitive(
    a: (Seq<char>, nat),
    b: (Seq<char>, nat),
    c: (Seq<char>, nat),
)
    requires
        outranks(a, b),
        outranks(b, c),
    ensures
        outranks(a, c),
{
    if a.1 == b.1 && b.1 == c.1 {
        lemma_precedes_transitive(c.0, b.0, a.0);
    }
}

/// Of two entries with different labels one is shown before the other.
pub proof fn lemma_outranks_total(a: (Seq<char>, nat), b: (Seq<char>, nat))
    requires
        a.0 != b.0,
    ensures
        outranks(a, b) || outranks(b, a),
{
    lemma_precedes_total(a.0, b.0);
}

/// Without its first entry, a ranking is the ranking of the other labels.
proof fn lemma_rest_is_ranking(ranking: Seq<(Seq<char>, nat)>, counts: Map<Seq<char>, nat>)
    requires
        is_ranking(ranking, counts),
        ranking.len() > 0,
    ensures
        is_ranking(ranking.drop_first(), counts.remove(ranking[0].0)),
{
    let top = ranking[0];
    let tail = ranking.drop_first();
    let rest = counts.remove(top.0);
    assert forall|i: int| 0 <= i < tail.len() implies rest.contains_key((#[trigger] tail[i]).0)
        && rest[tail[i].0] == tail[i].1 by {
        assert(tail[i] == ranking[i + 1]);
        assert(outranks(ranking[0], ranking[i + 1]));
        if tail[i].0 == top.0 {
            lemma_outranks_irreflexive(top);
        }
    }
    assert forall|label: Seq<char>| #[trigger] rest.contains_key(label) implies lists(
        tail,
        label,
    ) by {
        assert(counts.contains_key(label));
        let i = choose|i: int| shows(ranking, label, i);
        assert(shows(tail, label, i - 1));
    }
    assert forall|i: int, j: int| 0 <= i < j < tail.len() implies outranks(
        #[trigger] tail[i],
        #[trigger] tail[j],
    ) by {
        assert(tail[i] == ranking[i + 1]);
        assert(tail[j] == ranking[j + 1]);
    }
}

/// An aggregate has one ranking only: whatever order the labels were counted
/// in, they are shown in the same order.
pub proof fn lemma_ranking_unique(
    counts: Map<Seq<char>, nat>,
    first: Seq<(Seq<char>, nat)>,
    second: Seq<(Seq<char>, nat)>,
)
    requires
        is_ranking(first, counts),
        is_ranking(second, counts),
    ensures
        first == second,
    decreases first.len(),
{
    if first.len() == 0 {
        if second.len() > 0 {
            assert(counts.contains_key(second[0].0));
            let i = choose|i: int| shows(first, second[0].0, i);
            assert(shows(first, second[0].0, i));
        }
        assert(first =~= second);
    } else {
        let top = first[0];
        assert(counts.contains_key(top.0));
        let j = choose|j: int| shows(second, top.0, j);
        assert(second[j] == top);
        let other = second[0];
        assert(counts.contains_key(other.0));
        let k = choose|k: int| shows(first, other.0, k);
        assert(first[k] == other);
        if j > 0 && k > 0 {
            assert(outranks(second[0], second[j]));
            assert(outranks(first[0], first[k]));
            lemma_outranks_asymmetric(top, other);
        }
        assert(top == other);
        lemma_rest_is_ranking(first, counts);
        lemma_rest_is_ranking(second, counts);
        lemma_ranking_unique(counts.remove(top.0), first.drop_first(), second.drop_first());
        assert(first =~= seq![top] + first.drop_first());
        assert(second =~= seq![top] + second.drop_first());
    }
}

/// Decides whether the entry of `label` and `count` is shown before the entry
/// of `other_label` and `other_count`.
fn entry_outranks(label: &String, count: usize, other_label: &String, other_count: usize) -> (before:
    bool)
    ensures
        before == outranks((label@, count as nat), (other_label@, other_count as nat)),
{
    count > other_count || (count == other_count && label_precedes(
        other_label.as_str(),
        label.as_str(),
    ))
}

/// Puts an entry into a ranking, at the place that keeps the order.
fn insert_ranked(ranking: &mut Vec<(String, usize)>, label: String, count: usize)
    requires
        descending(entry_views(old(ranking)@)),
        !lists(entry_views(old(ranking)@), label@),
    ensures
        descending(entry_views(final(ranking)@)),
        entry_views(final(ranking)@).to_multiset() == entry_views(
            old(ranking)@,
        ).to_multiset().insert((label@, count as nat)),
{
    let ghost before = entry_views(ranking@);
    let ghost entry = (label@, count as nat);
    let mut at: usize = 0;
    while at < ranking.len() && entry_outranks(&ranking[at].0, ranking[at].1, &label, count)
        invariant
            at <= ranking.len(),
            entry_views(ranking@) == before,
            entry == (label@, count as nat),
            forall|k: int| 0 <= k < at ==> outranks(#[trigger] before[k], entry),
        decreases ranking.len() - at,
    {
        at = at + 1;
    }
    proof {
        assert forall|k: int| at <= k < before.len() implies outranks(entry, #[trigger] before[k]) by {
            assert(!shows(before, label@, at as int));
            lemma_outranks_total(entry, before[at as int]);
            if k > at {
                assert(outranks(before[at as int], before[k]));
                lemma_outranks_transitive(entry, before[at as int], before[k]);
            }
        }
    }
    ranking.insert(at, (label, count));
    proof {
        let after = entry_views(ranking@);
        assert(after =~= before.insert(at as int, entry));
        assert forall|i: int, j: int| 0 <= i < j < after.len() implies outranks(
            #[trigger] after[i],
            #[trigger] after[j],
        ) by {
            if i < at && j > at {
                assert(outranks(before[i], before[j - 1]));
            } else if i > at {
                assert(outranks(before[i - 1], before[j - 1]));
            } else if j < at {
                assert(outranks(before[i], before[j]));
            }
        }
        after.to_multiset_ensures();
        assert(after.remove(at as int) =~= before);
        assert(after.to_multiset() =~= before.to_multiset().insert(entry));
    }
}

/// Sorts entries with distinct labels into the order in which they are
/// shown. The ranking holds the same entries, each once.
pub(crate) fn rank(entries: &Vec<(String, usize)>) -> (ranking: Vec<(String, usize)>)
    requires
        distinct_labels(entry_views(entries@)),
    ensures
        descending(entry_views(ranking@)),
        entry_views(ranking@).to_multiset() == entry_views(entries@).to_multiset(),
{
    let ghost all = entry_views(entries@);
    let mut ranking: Vec<(String, usize)> = Vec::new();
    let mut i: usize = 0;
    proof {
        assert(all.take(0) =~= entry_views(ranking@));
    }
    while i < entries.len()
        invariant
            i <= entries.len(),
            all == entry_views(entries@),
            distinct_labels(all),
            descending(entry_views(ranking@)),
            entry_views(ranking@).to_multiset() == all.take(i as int).to_multiset(),
        decreases entries.len() - i,
    {
        let label = entries[i].0.clone();
        let count = entries[i].1;
        proof {
            let seen = all.take(i as int);
            let ranked = entry_views(ranking@);
            seen.to_multiset_ensures();
            ranked.to_multiset_ensures();
            if lists(ranked, label@) {
                let k = choose|k: int| shows(ranked, label@, k);
                assert(ranked.contains(ranked[k]));
                assert(seen.to_multiset().count(ranked[k]) > 0);
                assert(seen.contains(ranked[k]));
                let j = choose|j: int| 0 <= j < seen.len() && seen[j] == ranked[k];
                assert(all[j].0 == all[i as int].0);
            }
            assert(all.take(i + 1) =~= seen.push((label@, count as nat)));
        }
        insert_ranked(&mut ranking, label, count);
        i = i + 1;
    }
    proof {
        assert(all.take(entries@.len() as int) =~= all);
    }
    ranking
}

} // verus!
