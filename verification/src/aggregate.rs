//! What is computed from a snapshot: the labels that are counted and the
//! player totals, with the laws that hold of them.

use vstd::prelude::*;
use crate::counts::Counts;
use crate::ranking::{is_ranking, lemma_ranking_unique};
use crate::record::{views, RecordView, ServerRecord};
use crate::tally::{
    lemma_tally_bounded,
    lemma_tally_empty,
    lemma_tally_permutation,
    lemma_tally_push,
    lemma_tally_total,
    sum_of_counts,
    tally,
};

verus! {

/// The property by which servers are grouped.
#[derive(Clone, Copy, Debug, PartialEq, Eq, Structural)]
pub enum Grouping {
    ByRegion,
    ByMap,
    ByGamemode,
}

/// The label under which a record is counted in a grouping.
pub open spec fn label_of(record: RecordView, by: Grouping) -> Seq<char> {
    match by {
        Grouping::ByRegion => record.region,
        Grouping::ByMap => record.map,
        Grouping::ByGamemode => record.gamemode.label_text(),
    }
}

/// The labels of a list of records, one for each record, in the same order.
pub open spec fn labels(records: Seq<RecordView>, by: Grouping) -> Seq<Seq<char>> {
    records.map_values(|record: RecordView| label_of(record, by))
}

/// The sum of a list of numbers.
pub open spec fn total(values: Seq<nat>) -> nat
    decreases values.len(),
{
    if values.len() == 0 {
        0
    } else {
        total(values.drop_last()) + values.last()
    }
}

/// The number of players on each server of a list.
pub open spec fn player_counts(records: Seq<RecordView>) -> Seq<nat> {
    records.map_values(|record: RecordView| record.player_count)
}

/// The number of players waiting for each server of a list.
pub open spec fn queued_player_counts(records: Seq<RecordView>) -> Seq<nat> {
    records.map_values(|record: RecordView| record.queued_player_count)
}

/// The number of players on all servers of a list.
pub open spec fn active_players(records: Seq<RecordView>) -> nat {
    total(player_counts(records))
}

/// The number of players waiting for any server of a list.
pub open spec fn queued_players(records: Seq<RecordView>) -> nat {
    total(queued_player_counts(records))
}

/// The sum of two lists in a row is the sum of their sums.
pub proof fn lemma_total_additive(a: Seq<nat>, b: Seq<nat>)
    ensures
        total(a + b) == total(a) + total(b),
    decreases b.len(),
{
    if b.len() == 0 {
        assert(a + b =~= a);
    } else {
        assert((a + b).drop_last() =~= a + b.drop_last());
        lemma_total_additive(a, b.drop_last());
    }
}

/// A sum can be taken with any of its numbers last.
pub proof fn lemma_total_remove(values: Seq<nat>, at: int)
    requires
        0 <= at < values.len(),
    ensures
        total(values) == total(values.remove(at)) + values[at],
    decreases values.len(),
{
    if at == values.len() - 1 {
        assert(values.remove(at) =~= values.drop_last());
    } else {
        assert(values.remove(at).drop_last() =~= values.drop_last().remove(at));
        lemma_total_remove(values.drop_last(), at);
    }
}

/// A sum does not depend on the order of its numbers.
pub proof fn lemma_total_permutation(a: Seq<nat>, b: Seq<nat>)
    requires
        a.to_multiset() == b.to_multiset(),
    ensures
        total(a) == total(b),
    decreases a.len(),
{
    a.to_multiset_ensures();
    b.to_multiset_ensures();
    if a.len() > 0 {
        let last = a.last();
        assert(a[a.len() - 1] == last);
        assert(a.to_multiset().count(last) > 0);
        assert(b.to_multiset().count(last) > 0);
        assert(b.contains(last));
        let at = choose|at: int| 0 <= at < b.len() && b[at] == last;
        assert(a.remove(a.len() - 1) =~= a.drop_last());
        lemma_total_permutation(a.drop_last(), b.remove(at));
        lemma_total_remove(b, at);
    } else {
        assert(b.len() == 0);
    }
}

/// Lists that hold the same items, in whatever order, still hold the same
/// items after a function was applied to each item.
pub proof fn lemma_map_values_permutation<A, B>(a: Seq<A>, b: Seq<A>, f: spec_fn(A) -> B)
    requires
        a.to_multiset() == b.to_multiset(),
    ensures
        a.map_values(f).to_multiset() == b.map_values(f).to_multiset(),
    decreases a.len(),
{
    a.to_multiset_ensures();
    b.to_multiset_ensures();
    if a.len() > 0 {
        let last = a.last();
        assert(a[a.len() - 1] == last);
        assert(a.to_multiset().count(last) > 0);
        assert(b.to_multiset().count(last) > 0);
        assert(b.contains(last));
        let at = choose|at: int| 0 <= at < b.len() && b[at] == last;
        assert(a.remove(a.len() - 1) =~= a.drop_last());
        lemma_map_values_permutation(a.drop_last(), b.remove(at), f);
        let fa = a.map_values(f);
        let fb = b.map_values(f);
        fa.to_multiset_ensures();
        fb.to_multiset_ensures();
        assert(fa.remove(a.len() - 1) =~= a.drop_last().map_values(f));
        assert(fb.remove(at) =~= b.remove(at).map_values(f));
        assert(fa[a.len() - 1] == fb[at]);
        assert(fa.to_multiset() =~= fa.remove(a.len() - 1).to_multiset().insert(f(last)));
        assert(fb.to_multiset() =~= fb.remove(at).to_multiset().insert(f(last)));
    } else {
        assert(b.len() == 0);
        assert(a.map_values(f) =~= b.map_values(f));
    }
}

/// For every list of records and every grouping, the counts sum to the number
/// of records.
pub proof fn lemma_counts_sum_to_len(records: Seq<RecordView>, by: Grouping)
    ensures
        tally(labels(records, by)).dom().finite(),
        sum_of_counts(tally(labels(records, by))) == records.len(),
{
    lemma_tally_total(labels(records, by));
}

/// No players are counted where there are no servers, and the totals of two
/// lists in a row are the sums of the totals of each.
pub proof fn lemma_players_additive(a: Seq<RecordView>, b: Seq<RecordView>)
    ensures
        active_players(Seq::empty()) == 0,
        queued_players(Seq::empty()) == 0,
        active_players(a + b) == active_players(a) + active_players(b),
        queued_players(a + b) == queued_players(a) + queued_players(b),
{
    assert(player_counts(a + b) =~= player_counts(a) + player_counts(b));
    assert(queued_player_counts(a + b) =~= queued_player_counts(a) + queued_player_counts(b));
    lemma_total_additive(player_counts(a), player_counts(b));
    lemma_total_additive(queued_player_counts(a), queued_player_counts(b));
}

/// Nothing that is computed from a snapshot depends on the order in which its
/// records stand.
pub proof fn lemma_order_is_irrelevant(a: Seq<RecordView>, b: Seq<RecordView>, by: Grouping)
    requires
        a.to_multiset() == b.to_multiset(),
    ensures
        tally(labels(a, by)) == tally(labels(b, by)),
        active_players(a) == active_players(b),
        queued_players(a) == queued_players(b),
{
    lemma_map_values_permutation(a, b, |record: RecordView| label_of(record, by));
    lemma_tally_permutation(labels(a, by), labels(b, by));
    lemma_map_values_permutation(a, b, |record: RecordView| record.player_count);
    lemma_total_permutation(player_counts(a), player_counts(b));
    lemma_map_values_permutation(a, b, |record: RecordView| record.queued_player_count);
    lemma_total_permutation(queued_player_counts(a), queued_player_counts(b));
}

/// Two snapshots in which every label has the same count are ranked alike,
/// in whatever order their records were put in: the labels are shown in the
/// same order, with the same counts.
pub proof fn lemma_ranking_is_stable(
    a: Seq<RecordView>,
    b: Seq<RecordView>,
    by: Grouping,
    ranking_of_a: Seq<(Seq<char>, nat)>,
    ranking_of_b: Seq<(Seq<char>, nat)>,
)
    requires
        tally(labels(a, by)) == tally(labels(b, by)),
        is_ranking(ranking_of_a, tally(labels(a, by))),
        is_ranking(ranking_of_b, tally(labels(b, by))),
    ensures
        ranking_of_a == ranking_of_b,
{
    lemma_ranking_unique(tally(labels(a, by)), ranking_of_a, ranking_of_b);
}

/// Computes the label under which a record is counted in a grouping.
pub fn record_label(record: &ServerRecord, by: Grouping) -> (label: String)
    ensures
        label@ == label_of(record@, by),
{
    match by {
        Grouping::ByRegion => record.region().clone(),
        Grouping::ByMap => record.map().clone(),
        Grouping::ByGamemode => record.gamemode().label(),
    }
}

/// Groups the records by a property and counts the records of each group.
///
/// The counts sum to the number of records; of no records the aggregate is
/// empty.
pub fn count_by(records: &Vec<ServerRecord>, by: Grouping) -> (counts: Counts)
    ensures
        counts@ == tally(labels(views(records@), by)),
        counts@.dom().finite(),
        sum_of_counts(counts@) == records@.len(),
        records@.len() == 0 ==> counts@ == Map::<Seq<char>, nat>::empty(),
{
    let ghost all = labels(views(records@), by);
    let mut counts = Counts::new();
    let mut i: usize = 0;
    proof {
        lemma_tally_empty();
        assert(all.take(0) =~= Seq::empty());
    }
    while i < records.len()
        invariant
            i <= records.len(),
            all == labels(views(records@), by),
            counts@ == tally(all.take(i as int)),
        decreases records.len() - i,
    {
        let label = record_label(&records[i], by);
        proof {
            let counted = all.take(i as int);
            assert(all.take(i + 1) =~= counted.push(label@));
            lemma_tally_bounded(counted, label@);
            lemma_tally_push(counted, label@);
        }
        counts = counts.record(label);
        i = i + 1;
    }
    proof {
        assert(all.take(records@.len() as int) =~= all);
        lemma_tally_total(all);
        if records@.len() == 0 {
            assert(all =~= Seq::empty());
        }
    }
    counts
}

/// Sums the players on the servers and the players waiting for them.
pub fn player_totals(records: &Vec<ServerRecord>) -> (totals: (u128, u128))
    ensures
        totals.0 == active_players(views(records@)),
        totals.1 == queued_players(views(records@)),
{
    let ghost active = player_counts(views(records@));
    let ghost queued = queued_player_counts(views(records@));
    let mut playing: u128 = 0;
    let mut waiting: u128 = 0;
    let mut i: usize = 0;
    proof {
        assert(active.take(0) =~= Seq::empty());
        assert(queued.take(0) =~= Seq::empty());
    }
    while i < records.len()
        invariant
            i <= records.len(),
            active == player_counts(views(records@)),
            queued == queued_player_counts(views(records@)),
            playing == total(active.take(i as int)),
            waiting == total(queued.take(i as int)),
            playing <= i * 0xffff_ffff_ffff_ffff,
            waiting <= i * 0xffff_ffff_ffff_ffff,
        decreases records.len() - i,
    {
        proof {
            assert(active.take(i + 1).drop_last() =~= active.take(i as int));
            assert(queued.take(i + 1).drop_last() =~= queued.take(i as int));
        }
        playing = playing + records[i].player_count() as u128;
        waiting = waiting + records[i].queued_player_count() as u128;
        i = i + 1;
    }
    proof {
        assert(active.take(records@.len() as int) =~= active);
        assert(queued.take(records@.len() as int) =~= queued);
    }
    (playing, waiting)
}

} // verus!
