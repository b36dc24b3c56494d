//! Counting labels: the mathematics of an aggregate.
//!
//! An aggregate maps each label that occurs to the number of times it occurs.

use vstd::prelude::*;

verus! {

/// The aggregate of a list of labels: every label of the list, with the
/// number of its occurrences.
pub open spec fn tally(labels: Seq<Seq<char>>) -> Map<Seq<char>, nat> {
    Map::new(
        |label: Seq<char>| labels.contains(label),
        |label: Seq<char>| labels.to_multiset().count(label),
    )
}

/// The count an aggregate holds for a label: zero for a label it does not hold.
pub open spec fn count_in(counts: Map<Seq<char>, nat>, label: Seq<char>) -> nat {
    if counts.contains_key(label) {
        counts[label]
    } else {
        0
    }
}

/// The sum of all counts of a finite aggregate.
pub open spec fn sum_of_counts(counts: Map<Seq<char>, nat>) -> nat
    decreases counts.dom().len(),
    when counts.dom().finite()
{
    if counts.dom().len() == 0 {
        0
    } else {
        let label = counts.dom().choose();
        counts[label] + sum_of_counts(counts.remove(label))
    }
}

/// The sum of the counts can be taken with any label first.
pub proof fn lemma_sum_remove(counts: Map<Seq<char>, nat>, label: Seq<char>)
    requires
        counts.dom().finite(),
        counts.contains_key(label),
    ensures
        sum_of_counts(counts) == counts[label] + sum_of_counts(counts.remove(label)),
    decreases counts.dom().len(),
{
    let first = counts.dom().choose();
    if first != label {
        lemma_sum_remove(counts.remove(first), label);
        lemma_sum_remove(counts.remove(label), first);
        assert(counts.remove(first).remove(label) =~= counts.remove(label).remove(first));
    }
}

/// Setting the count of one label changes the sum by the difference.
pub proof fn lemma_sum_insert(counts: Map<Seq<char>, nat>, label: Seq<char>, count: nat)
    requires
        counts.dom().finite(),
    ensures
        sum_of_counts(counts.insert(label, count)) + count_in(counts, label) == sum_of_counts(
            counts,
        ) + count,
{
    let updated = counts.insert(label, count);
    lemma_sum_remove(updated, label);
    assert(updated.remove(label) =~= counts.remove(label));
    if counts.contains_key(label) {
        lemma_sum_remove(counts, label);
    } else {
        assert(counts.remove(label) =~= counts);
    }
}

/// The aggregate of no labels is empty.
pub proof fn lemma_tally_empty()
    ensures
        tally(Seq::empty()) == Map::<Seq<char>, nat>::empty(),
{
    assert(tally(Seq::empty()) =~= Map::<Seq<char>, nat>::empty());
}

/// One more label raises its count by one and leaves every other count alone.
pub proof fn lemma_tally_push(labels: Seq<Seq<char>>, label: Seq<char>)
    ensures
        tally(labels.push(label)) == tally(labels).insert(
            label,
            count_in(tally(labels), label) + 1,
        ),
{
    broadcast use vstd::seq_lib::group_to_multiset_ensures;

    let longer = labels.push(label);
    assert(longer.to_multiset() =~= labels.to_multiset().insert(label));
    assert forall|other: Seq<char>| longer.contains(other) <==> labels.contains(other) || other
        == label by {
        if labels.contains(other) {
            let i = choose|i: int| 0 <= i < labels.len() && labels[i] == other;
            assert(longer[i] == other);
        }
        if other == label {
            assert(longer[labels.len() as int] == other);
        }
    }
    assert(tally(longer) =~= tally(labels).insert(label, count_in(tally(labels), label) + 1));
}

/// The counts of an aggregate sum to the number of labels counted.
pub proof fn lemma_tally_total(labels: Seq<Seq<char>>)
    ensures
        tally(labels).dom().finite(),
        sum_of_counts(tally(labels)) == labels.len(),
    decreases labels.len(),
{
    if labels.len() == 0 {
        assert(tally(labels) =~= Map::<Seq<char>, nat>::empty());
    } else {
        let shorter = labels.drop_last();
        let label = labels.last();
        assert(labels =~= shorter.push(label));
        lemma_tally_total(shorter);
        lemma_tally_push(shorter, label);
        lemma_sum_insert(tally(shorter), label, count_in(tally(shorter), label) + 1);
    }
}

/// No label is counted more often than there are labels.
pub proof fn lemma_tally_bounded(labels: Seq<Seq<char>>, label: Seq<char>)
    ensures
        count_in(tally(labels), label) <= labels.len(),
{
    lemma_tally_total(labels);
    if tally(labels).contains_key(label) {
        lemma_sum_remove(tally(labels), label);
    }
}

/// The aggregate does not depend on the order of the labels.
pub proof fn lemma_tally_permutation(a: Seq<Seq<char>>, b: Seq<Seq<char>>)
    requires
        a.to_multiset() == b.to_multiset(),
    ensures
        tally(a) == tally(b),
{
    a.to_multiset_ensures();
    b.to_multiset_ensures();
    assert forall|label: Seq<char>| a.contains(label) <==> b.contains(label) by {
        assert(a.contains(label) <==> a.to_multiset().count(label) > 0);
        assert(b.contains(label) <==> b.to_multiset().count(label) > 0);
    }
    assert(tally(a) =~= tally(b));
}

} // verus!
