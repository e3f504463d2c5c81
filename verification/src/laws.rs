//! What holds of every difference.

use vstd::prelude::*;
use crate::change::Side;
use crate::change::Sides;
use crate::change::lemma_merge_from;
use crate::change::lemma_merge_rows_commute;
use crate::change::lemma_merge_rows_swapped;
use crate::change::merge_rows;
use crate::change::swapped_map;
use crate::classify::Change;
use crate::classify::change_of;
use crate::diff::EntitiesDiff;
use crate::diff::Met;
use crate::diff::Records;
use crate::diff::Rows;
use crate::diff::leader_rows;
use crate::diff_report::keyspace_lines_upto;
use crate::diff_report::replica_lines_upto;
use crate::diff_report::table_lines_upto;
use crate::diff_report::tablet_lines_upto;
use crate::idmap::lemma_listing_entry;
use crate::idmap::lemma_listing_unique;
use crate::model::EntitiesView;
use crate::records::KeyspaceSide;
use crate::records::ReplicaSide;
use crate::records::TableSide;
use crate::records::TabletSide;
use crate::report::SpanView;

verus! {

/// The change read in the opposite direction: what was added is removed,
/// what was removed is added.
pub open spec fn mirrored(change: Change) -> Change {
    match change {
        Change::Added => Change::Removed,
        Change::Removed => Change::Added,
        other => other,
    }
}

/// The two sides of a difference are merged independently of each other:
/// the first observation and the second may be merged in either order.
pub proof fn law_merge_order(records: Records, a: Rows, b: Rows)
    ensures
        records.with_rows(a, Side::First).with_rows(b, Side::Second) == records.with_rows(
            b,
            Side::Second,
        ).with_rows(a, Side::First),
{
    lemma_merge_rows_commute(records.keyspaces, a.keyspaces, b.keyspaces, KeyspaceSide::zero());
    lemma_merge_rows_commute(records.tables, a.tables, b.tables, TableSide::zero());
    lemma_merge_rows_commute(records.tablets, a.tablets, b.tablets, TabletSide::zero());
    lemma_merge_rows_commute(records.replicas, a.replicas, b.replicas, ReplicaSide::zero());
}

/// The difference between two passes, read in the opposite direction, is
/// the difference between the passes exchanged: every record is there with
/// its first and second side exchanged.
pub proof fn law_diff_exchanged(
    a: Seq<EntitiesView>,
    a_leader: Seq<char>,
    b: Seq<EntitiesView>,
    b_leader: Seq<char>,
)
    ensures
        Records::between(a, a_leader, b, b_leader).swapped() == Records::between(
            b,
            b_leader,
            a,
            a_leader,
        ),
{
    let ra = leader_rows(a, a_leader);
    let rb = leader_rows(b, b_leader);
    let none = Records::empty();
    lemma_with_rows_swapped(none.with_rows(ra, Side::First), rb, Side::Second);
    lemma_with_rows_swapped(none, ra, Side::First);
    assert(none.swapped() == none) by {
        assert(swapped_map(none.keyspaces) =~= none.keyspaces);
        assert(swapped_map(none.tables) =~= none.tables);
        assert(swapped_map(none.tablets) =~= none.tablets);
        assert(swapped_map(none.replicas) =~= none.replicas);
    }
    law_merge_order(none, rb, ra);
}

/// Merging rows as one side and reading the records in the opposite
/// direction is merging them as the other side into the records read in
/// the opposite direction.
pub proof fn lemma_with_rows_swapped(records: Records, rows: Rows, side: Side)
    ensures
        records.with_rows(rows, side).swapped() == records.swapped().with_rows(rows, side.other()),
{
    lemma_merge_rows_swapped(records.keyspaces, rows.keyspaces, KeyspaceSide::zero(), side);
    lemma_merge_rows_swapped(records.tables, rows.tables, TableSide::zero(), side);
    lemma_merge_rows_swapped(records.tablets, rows.tablets, TabletSide::zero(), side);
    lemma_merge_rows_swapped(records.replicas, rows.replicas, ReplicaSide::zero(), side);
}

/// A record read in the opposite direction has the mirrored change, as far
/// as its two sides alone decide it.
pub proof fn law_change_mirrored<S>(record: Sides<S>, zero: S)
    ensures
        change_of(record.swapped(), zero) == mirrored(change_of(record, zero)),
{
}

/// What became of a keyspace, read in the opposite direction. Where the
/// sides of its record differ the change is mirrored. Where they are the
/// same, a keyspace that was removed because it lost its tables is one that
/// has tables again, and the other way round: the direction of a dropped
/// keyspace cannot be exchanged.
pub proof fn law_keyspace_change_mirrored(records: Records, id: Seq<char>, record: Sides<KeyspaceSide>)
    ensures
        ({
            let there = records.keyspace_change(id, record);
            let back = records.swapped().keyspace_change(id, record.swapped());
            &&& record.first != record.second ==> back == mirrored(there)
            &&& record.first == record.second ==> (match there {
                Change::Removed => back == Change::Reappeared,
                Change::Reappeared => back == Change::Removed,
                _ => back == Change::Unchanged,
            })
        }),
{
    let swapped = records.swapped();
    assert forall|side: Side| swapped.has_tables(id, side) == records.has_tables(id, side.other()) by {
        if records.has_tables(id, side.other()) {
            let t = choose|t: Seq<char>| #[trigger]
                records.tables.contains_key(t) && records.tables[t].get(side.other()).keyspace_id
                    == id;
            assert(swapped.tables.contains_key(t));
        }
        if swapped.has_tables(id, side) {
            let t = choose|t: Seq<char>| #[trigger]
                swapped.tables.contains_key(t) && swapped.tables[t].get(side).keyspace_id == id;
            assert(records.tables.contains_key(t));
        }
    }
    assert(swapped.has_tables(id, Side::First) == records.has_tables(id, Side::Second));
    assert(swapped.has_tables(id, Side::Second) == records.has_tables(id, Side::First));
}

/// Merging the same rows as both sides leaves every record with two equal
/// sides.
pub proof fn lemma_same_rows_same_sides<K, S>(rows: Seq<(K, S)>, zero: S, k: K)
    ensures
        ({
            let m = merge_rows(
                merge_rows(Map::<K, Sides<S>>::empty(), rows, zero, Side::First),
                rows,
                zero,
                Side::Second,
            );
            m.contains_key(k) ==> m[k].first == m[k].second
        }),
{
    let none = Map::<K, Sides<S>>::empty();
    let once = merge_rows(none, rows, zero, Side::First);
    lemma_merge_from(none, Set::empty(), rows, zero, Side::First);
    lemma_merge_from(once, Set::empty(), rows, zero, Side::Second);
}

/// The difference between a pass and itself holds no change: every record
/// of every kind is unchanged.
pub proof fn law_diff_of_same(a: Seq<EntitiesView>, leader: Seq<char>)
    ensures
        ({
            let d = Records::between(a, leader, a, leader);
            &&& forall|id: Seq<char>| #[trigger]
                d.keyspaces.contains_key(id) ==> d.keyspace_change(id, d.keyspaces[id])
                    == Change::Unchanged
            &&& forall|id: Seq<char>| #[trigger]
                d.tables.contains_key(id) ==> change_of(d.tables[id], TableSide::zero())
                    == Change::Unchanged
            &&& forall|id: Seq<char>| #[trigger]
                d.tablets.contains_key(id) ==> change_of(d.tablets[id], TabletSide::zero())
                    == Change::Unchanged
            &&& forall|id: (Seq<char>, Seq<char>)| #[trigger]
                d.replicas.contains_key(id) ==> change_of(d.replicas[id], ReplicaSide::zero())
                    == Change::Unchanged
        }),
{
    let rows = leader_rows(a, leader);
    let d = Records::between(a, leader, a, leader);
    assert forall|id: Seq<char>| #[trigger] d.tables.contains_key(id) implies d.tables[id].first
        == d.tables[id].second by {
        lemma_same_rows_same_sides(rows.tables, TableSide::zero(), id);
    }
    assert forall|id: Seq<char>| #[trigger] d.keyspaces.contains_key(id) implies d.keyspace_change(
        id,
        d.keyspaces[id],
    ) == Change::Unchanged by {
        lemma_same_rows_same_sides(rows.keyspaces, KeyspaceSide::zero(), id);
        assert(d.has_tables(id, Side::First) == d.has_tables(id, Side::Second));
    }
    assert forall|id: Seq<char>| #[trigger] d.tablets.contains_key(id) implies change_of(
        d.tablets[id],
        TabletSide::zero(),
    ) == Change::Unchanged by {
        lemma_same_rows_same_sides(rows.tablets, TabletSide::zero(), id);
    }
    assert forall|id: (Seq<char>, Seq<char>)| #[trigger] d.replicas.contains_key(id) implies change_of(
        d.replicas[id],
        ReplicaSide::zero(),
    ) == Change::Unchanged by {
        lemma_same_rows_same_sides(rows.replicas, ReplicaSide::zero(), id);
    }
}

/// No record is ever taken out: what the records held before a merge they
/// hold after it.
pub proof fn law_merge_keeps_records(records: Records, rows: Rows, side: Side)
    ensures
        ({
            let after = records.with_rows(rows, side);
            &&& records.keyspaces.dom().subset_of(after.keyspaces.dom())
            &&& records.tables.dom().subset_of(after.tables.dom())
            &&& records.tablets.dom().subset_of(after.tablets.dom())
            &&& records.replicas.dom().subset_of(after.replicas.dom())
        }),
{
    let none = Met::empty();
    lemma_merge_from(records.keyspaces, none.keyspaces, rows.keyspaces, KeyspaceSide::zero(), side);
    lemma_merge_from(records.tables, none.tables, rows.tables, TableSide::zero(), side);
    lemma_merge_from(records.tablets, none.tablets, rows.tablets, TabletSide::zero(), side);
    lemma_merge_from(records.replicas, none.replicas, rows.replicas, ReplicaSide::zero(), side);
}

/// The report is decided by the records and by whether a leader was found:
/// two engines that hold the same records report the same lines.
pub proof fn law_report_by_records(d: &EntitiesDiff, e: &EntitiesDiff)
    requires
        d@ == e@,
        d.master_found == e.master_found,
        d.keyspaces.wf(),
        d.tables.wf(),
        d.tablets.wf(),
        d.replicas.wf(),
        e.keyspaces.wf(),
        e.tables.wf(),
        e.tablets.wf(),
        e.replicas.wf(),
    ensures
        d.lines() == e.lines(),
{
    lemma_listing_unique::<String, Sides<KeyspaceSide>>(d.keyspaces.listing(), e.keyspaces.listing());
    lemma_listing_unique::<String, Sides<TableSide>>(d.tables.listing(), e.tables.listing());
    lemma_listing_unique::<String, Sides<TabletSide>>(d.tablets.listing(), e.tablets.listing());
    lemma_listing_unique::<(String, String), Sides<ReplicaSide>>(
        d.replicas.listing(),
        e.replicas.listing(),
    );
}

/// The report of the difference between a pass and itself is empty.
pub proof fn law_report_of_same(d: &EntitiesDiff, a: Seq<EntitiesView>, leader: Seq<char>)
    requires
        d@ == Records::between(a, leader, a, leader),
        d.master_found,
        d.keyspaces.wf(),
        d.tables.wf(),
        d.tablets.wf(),
        d.replicas.wf(),
    ensures
        d.lines() == Seq::<Seq<SpanView>>::empty(),
{
    law_diff_of_same(a, leader);
    lemma_no_keyspace_lines(d, d.keyspaces.listing().len() as int);
    lemma_no_table_lines(d, d.tables.listing().len() as int);
    lemma_no_tablet_lines(d, d.tablets.listing().len() as int);
    lemma_no_replica_lines(d, d.replicas.listing().len() as int);
    assert(d.lines() =~= Seq::<Seq<SpanView>>::empty());
}

/// Where every keyspace is unchanged, no line is about a keyspace.
proof fn lemma_no_keyspace_lines(d: &EntitiesDiff, n: int)
    requires
        d.keyspaces.wf(),
        0 <= n <= d.keyspaces.listing().len(),
        forall|id: Seq<char>| #[trigger]
            d@.keyspaces.contains_key(id) ==> d@.keyspace_change(id, d@.keyspaces[id])
                == Change::Unchanged,
    ensures
        keyspace_lines_upto(d@, d.keyspaces.listing(), n) == Seq::<Seq<SpanView>>::empty(),
    decreases n,
{
    if n > 0 {
        lemma_no_keyspace_lines(d, n - 1);
        lemma_listing_entry::<String, Sides<KeyspaceSide>>(d.keyspaces.listing(), n - 1);
        assert(d@.keyspaces.contains_key(d.keyspaces.listing()[n - 1].0));
        assert(keyspace_lines_upto(d@, d.keyspaces.listing(), n) =~= Seq::<
            Seq<SpanView>,
        >::empty());
    }
}

/// Where every table is unchanged, no line is about a table.
proof fn lemma_no_table_lines(d: &EntitiesDiff, n: int)
    requires
        d.tables.wf(),
        0 <= n <= d.tables.listing().len(),
        forall|id: Seq<char>| #[trigger]
            d@.tables.contains_key(id) ==> change_of(d@.tables[id], TableSide::zero())
                == Change::Unchanged,
    ensures
        table_lines_upto(d@, d.tables.listing(), n) == Seq::<Seq<SpanView>>::empty(),
    decreases n,
{
    if n > 0 {
        lemma_no_table_lines(d, n - 1);
        lemma_listing_entry::<String, Sides<TableSide>>(d.tables.listing(), n - 1);
        assert(d@.tables.contains_key(d.tables.listing()[n - 1].0));
        assert(table_lines_upto(d@, d.tables.listing(), n) =~= Seq::<Seq<SpanView>>::empty());
    }
}

/// Where every tablet is unchanged, no line is about a tablet.
proof fn lemma_no_tablet_lines(d: &EntitiesDiff, n: int)
    requires
        d.tablets.wf(),
        0 <= n <= d.tablets.listing().len(),
        forall|id: Seq<char>| #[trigger]
            d@.tablets.contains_key(id) ==> change_of(d@.tablets[id], TabletSide::zero())
                == Change::Unchanged,
    ensures
        tablet_lines_upto(d@, d.tablets.listing(), n) == Seq::<Seq<SpanView>>::empty(),
    decreases n,
{
    if n > 0 {
        lemma_no_tablet_lines(d, n - 1);
        lemma_listing_entry::<String, Sides<TabletSide>>(d.tablets.listing(), n - 1);
        assert(d@.tablets.contains_key(d.tablets.listing()[n - 1].0));
        assert(tablet_lines_upto(d@, d.tablets.listing(), n) =~= Seq::<Seq<SpanView>>::empty());
    }
}

/// Where every replica is unchanged, no line is about a replica.
proof fn lemma_no_replica_lines(d: &EntitiesDiff, n: int)
    requires
        d.replicas.wf(),
        0 <= n <= d.replicas.listing().len(),
        forall|id: (Seq<char>, Seq<char>)| #[trigger]
            d@.replicas.contains_key(id) ==> change_of(d@.replicas[id], ReplicaSide::zero())
                == Change::Unchanged,
    ensures
        replica_lines_upto(d@, d.replicas.listing(), n) == Seq::<Seq<SpanView>>::empty(),
    decreases n,
{
    if n > 0 {
        lemma_no_replica_lines(d, n - 1);
        lemma_listing_entry::<(String, String), Sides<ReplicaSide>>(d.replicas.listing(), n - 1);
        assert(d@.replicas.contains_key(d.replicas.listing()[n - 1].0));
        assert(replica_lines_upto(d@, d.replicas.listing(), n) =~= Seq::<
            Seq<SpanView>,
        >::empty());
    }
}

} // verus!
