//! Merging an observation into the change records.
//!
//! A merge keeps, beside the records, the identifiers it has met: a row
//! whose identifier it has met repeats that identifier and is reported, not
//! merged.

use vstd::prelude::*;
use crate::change::Side;
use crate::change::keys_of;
use crate::change::lemma_keys_joined;
use crate::change::lemma_merge_from_joined;
use crate::change::lemma_merge_step;
use crate::change::lemma_repeats_joined;
use crate::change::merge_from;
use crate::change::merge_row;
use crate::change::repeats_from;
use crate::diff::Duplicates;
use crate::diff::EntitiesDiff;
use crate::diff::Met;
use crate::diff::Records;
use crate::diff::Repeats;
use crate::diff::Rows;
use crate::diff::keyspace_rows;
use crate::diff::leader_rows;
use crate::diff::leader_rows_upto;
use crate::diff::replica_rows;
use crate::diff::replica_rows_of;
use crate::diff::replica_rows_upto;
use crate::diff::table_rows;
use crate::diff::tablet_rows;
use crate::idmap::IdMap;
use crate::model::AllEntities;
use crate::model::Entities;
use crate::model::Keyspaces;
use crate::model::Replicas;
use crate::model::Tables;
use crate::model::Tablets;
use crate::records::KeyspaceDiff;
use crate::records::KeyspaceSide;
use crate::records::ReplicaSide;
use crate::records::ReplicasDiff;
use crate::records::TableSide;
use crate::records::TablesDiff;
use crate::records::TabletSide;
use crate::records::TabletsDiff;
use crate::records::keyspace_side;
use crate::records::replica_side;
use crate::records::table_side;
use crate::records::tablet_side;
use crate::views::lemma_views_push;
use crate::views::views;

verus! {

/// Merges one keyspace row into the records.
fn merge_keyspace(
    map: &mut IdMap<String, KeyspaceDiff>,
    seen: &mut IdMap<String, ()>,
    row: &Keyspaces,
    side: Side,
    dups: &mut Vec<String>,
)
    ensures
        final(map)@ == merge_row(
            old(map)@,
            old(seen)@.dom(),
            row@.keyspace_id,
            keyspace_side(row@),
            KeyspaceSide::zero(),
            side,
        ),
        final(seen)@.dom() == old(seen)@.dom().insert(row@.keyspace_id),
        views(final(dups)@) == views(old(dups)@) + (if old(seen)@.dom().contains(row@.keyspace_id) {
            seq![row@.keyspace_id]
        } else {
            Seq::empty()
        }),
{
    let id = row.keyspace_id.clone();
    let ghost before = views(dups@);
    let ghost met = seen@.dom();
    if seen.contains_key(&id) {
        proof {
            lemma_views_push(dups@, id);
        }
        dups.push(id);
        assert(views(dups@) =~= before + seq![row@.keyspace_id]);
        assert(seen@.dom() =~= met.insert(row@.keyspace_id));
    } else {
        let record = match map.get(&id) {
            Some(found) => found.with_side(side, row),
            None => KeyspaceDiff::new().with_side(side, row),
        };
        seen.insert(id.clone(), ());
        map.insert(id, record);
        assert(views(dups@) =~= before + Seq::empty());
        assert(seen@.dom() =~= met.insert(row@.keyspace_id));
    }
}

/// Merges the keyspaces of an observation into the records.
pub fn merge_keyspaces(
    map: &mut IdMap<String, KeyspaceDiff>,
    seen: &mut IdMap<String, ()>,
    entity: &Entities,
    side: Side,
    dups: &mut Vec<String>,
)
    ensures
        final(map)@ == merge_from(
            old(map)@,
            old(seen)@.dom(),
            keyspace_rows(entity@),
            KeyspaceSide::zero(),
            side,
        ),
        final(seen)@.dom() == old(seen)@.dom().union(keys_of(keyspace_rows(entity@))),
        views(final(dups)@) == views(old(dups)@) + repeats_from(
            old(seen)@.dom(),
            keyspace_rows(entity@),
        ),
{
    let ghost rows = keyspace_rows(entity@);
    let ghost m0 = map@;
    let ghost s0 = seen@.dom();
    let ghost d0 = views(dups@);
    let mut i: usize = 0;
    proof {
        assert(rows.take(0) =~= Seq::empty());
        assert(s0.union(keys_of(rows.take(0))) =~= s0);
        assert(d0 + Seq::empty() =~= d0);
    }
    while i < entity.keyspaces.len()
        invariant
            i <= entity.keyspaces.len(),
            rows == keyspace_rows(entity@),
            map@ == merge_from(m0, s0, rows.take(i as int), KeyspaceSide::zero(), side),
            seen@.dom() == s0.union(keys_of(rows.take(i as int))),
            views(dups@) == d0 + repeats_from(s0, rows.take(i as int)),
        decreases entity.keyspaces.len() - i,
    {
        proof {
            lemma_merge_step(m0, s0, rows, i as int, KeyspaceSide::zero(), side);
        }
        merge_keyspace(map, seen, &entity.keyspaces[i], side, dups);
        proof {
            assert(views(dups@) =~= d0 + repeats_from(s0, rows.take(i + 1)));
        }
        i += 1;
    }
    proof {
        assert(rows.take(i as int) =~= rows);
    }
}

/// Merges one table row into the records.
fn merge_table(
    map: &mut IdMap<String, TablesDiff>,
    seen: &mut IdMap<String, ()>,
    row: &Tables,
    side: Side,
    dups: &mut Vec<String>,
)
    ensures
        final(map)@ == merge_row(
            old(map)@,
            old(seen)@.dom(),
            row@.table_id,
            table_side(row@),
            TableSide::zero(),
            side,
        ),
        final(seen)@.dom() == old(seen)@.dom().insert(row@.table_id),
        views(final(dups)@) == views(old(dups)@) + (if old(seen)@.dom().contains(row@.table_id) {
            seq![row@.table_id]
        } else {
            Seq::empty()
        }),
{
    let id = row.table_id.clone();
    let ghost before = views(dups@);
    let ghost met = seen@.dom();
    if seen.contains_key(&id) {
        proof {
            lemma_views_push(dups@, id);
        }
        dups.push(id);
        assert(views(dups@) =~= before + seq![row@.table_id]);
        assert(seen@.dom() =~= met.insert(row@.table_id));
    } else {
        let record = match map.get(&id) {
            Some(found) => found.with_side(side, row),
            None => TablesDiff::new().with_side(side, row),
        };
        seen.insert(id.clone(), ());
        map.insert(id, record);
        assert(views(dups@) =~= before + Seq::empty());
        assert(seen@.dom() =~= met.insert(row@.table_id));
    }
}

/// Merges the tables of an observation into the records.
pub fn merge_tables(
    map: &mut IdMap<String, TablesDiff>,
    seen: &mut IdMap<String, ()>,
    entity: &Entities,
    side: Side,
    dups: &mut Vec<String>,
)
    ensures
        final(map)@ == merge_from(
            old(map)@,
            old(seen)@.dom(),
            table_rows(entity@),
            TableSide::zero(),
            side,
        ),
        final(seen)@.dom() == old(seen)@.dom().union(keys_of(table_rows(entity@))),
        views(final(dups)@) == views(old(dups)@) + repeats_from(
            old(seen)@.dom(),
            table_rows(entity@),
        ),
{
    let ghost rows = table_rows(entity@);
    let ghost m0 = map@;
    let ghost s0 = seen@.dom();
    let ghost d0 = views(dups@);
    let mut i: usize = 0;
    proof {
        assert(rows.take(0) =~= Seq::empty());
        assert(s0.union(keys_of(rows.take(0))) =~= s0);
        assert(d0 + Seq::empty() =~= d0);
    }
    while i < entity.tables.len()
        invariant
            i <= entity.tables.len(),
            rows == table_rows(entity@),
            map@ == merge_from(m0, s0, rows.take(i as int), TableSide::zero(), side),
            seen@.dom() == s0.union(keys_of(rows.take(i as int))),
            views(dups@) == d0 + repeats_from(s0, rows.take(i as int)),
        decreases entity.tables.len() - i,
    {
        proof {
            lemma_merge_step(m0, s0, rows, i as int, TableSide::zero(), side);
        }
        merge_table(map, seen, &entity.tables[i], side, dups);
        proof {
            assert(views(dups@) =~= d0 + repeats_from(s0, rows.take(i + 1)));
        }
        i += 1;
    }
    proof {
        assert(rows.take(i as int) =~= rows);
    }
}

/// Merges one tablet row into the records.
fn merge_tablet(
    map: &mut IdMap<String, TabletsDiff>,
    seen: &mut IdMap<String, ()>,
    row: &Tablets,
    side: Side,
    dups: &mut Vec<String>,
)
    ensures
        final(map)@ == merge_row(
            old(map)@,
            old(seen)@.dom(),
            row@.tablet_id,
            tablet_side(row@),
            TabletSide::zero(),
            side,
        ),
        final(seen)@.dom() == old(seen)@.dom().insert(row@.tablet_id),
        views(final(dups)@) == views(old(dups)@) + (if old(seen)@.dom().contains(row@.tablet_id) {
            seq![row@.tablet_id]
        } else {
            Seq::empty()
        }),
{
    let id = row.tablet_id.clone();
    let ghost before = views(dups@);
    let ghost met = seen@.dom();
    if seen.contains_key(&id) {
        proof {
            lemma_views_push(dups@, id);
        }
        dups.push(id);
        assert(views(dups@) =~= before + seq![row@.tablet_id]);
        assert(seen@.dom() =~= met.insert(row@.tablet_id));
    } else {
        let record = match map.get(&id) {
            Some(found) => found.with_side(side, row),
            None => TabletsDiff::new().with_side(side, row),
        };
        seen.insert(id.clone(), ());
        map.insert(id, record);
        assert(views(dups@) =~= before + Seq::empty());
        assert(seen@.dom() =~= met.insert(row@.tablet_id));
    }
}

/// Merges one replica row of a tablet into the records.
fn merge_replica(
    map: &mut IdMap<(String, String), ReplicasDiff>,
    seen: &mut IdMap<(String, String), ()>,
    tablet_id: &String,
    row: &Replicas,
    side: Side,
    dups: &mut Vec<(String, String)>,
)
    ensures
        final(map)@ == merge_row(
            old(map)@,
            old(seen)@.dom(),
            (tablet_id@, row@.server_uuid),
            replica_side(row@),
            ReplicaSide::zero(),
            side,
        ),
        final(seen)@.dom() == old(seen)@.dom().insert((tablet_id@, row@.server_uuid)),
        views(final(dups)@) == views(old(dups)@) + (if old(seen)@.dom().contains(
            (tablet_id@, row@.server_uuid),
        ) {
            seq![(tablet_id@, row@.server_uuid)]
        } else {
            Seq::empty()
        }),
{
    let id = (tablet_id.clone(), row.server_uuid.clone());
    let ghost before = views(dups@);
    let ghost met = seen@.dom();
    if seen.contains_key(&id) {
        proof {
            lemma_views_push(dups@, id);
        }
        dups.push(id);
        assert(views(dups@) =~= before + seq![(tablet_id@, row@.server_uuid)]);
        assert(seen@.dom() =~= met.insert((tablet_id@, row@.server_uuid)));
    } else {
        let record = match map.get(&id) {
            Some(found) => found.with_side(side, row),
            None => ReplicasDiff::new().with_side(side, row),
        };
        seen.insert((tablet_id.clone(), row.server_uuid.clone()), ());
        map.insert(id, record);
        assert(views(dups@) =~= before + Seq::empty());
        assert(seen@.dom() =~= met.insert((tablet_id@, row@.server_uuid)));
    }
}

/// Merges the replicas of one tablet into the records.
fn merge_replicas_of(
    map: &mut IdMap<(String, String), ReplicasDiff>,
    seen: &mut IdMap<(String, String), ()>,
    tablet: &Tablets,
    side: Side,
    dups: &mut Vec<(String, String)>,
)
    ensures
        final(map)@ == merge_from(
            old(map)@,
            old(seen)@.dom(),
            replica_rows_of(tablet@),
            ReplicaSide::zero(),
            side,
        ),
        final(seen)@.dom() == old(seen)@.dom().union(keys_of(replica_rows_of(tablet@))),
        views(final(dups)@) == views(old(dups)@) + repeats_from(
            old(seen)@.dom(),
            replica_rows_of(tablet@),
        ),
{
    let ghost rows = replica_rows_of(tablet@);
    let ghost m0 = map@;
    let ghost s0 = seen@.dom();
    let ghost d0 = views(dups@);
    proof {
        assert(rows.take(0) =~= Seq::empty());
        assert(s0.union(keys_of(rows.take(0))) =~= s0);
        assert(d0 + Seq::empty() =~= d0);
    }
    match &tablet.replicas {
        None => {
            assert(rows =~= rows.take(0));
        },
        Some(replicas) => {
            let mut i: usize = 0;
            while i < replicas.len()
                invariant
                    i <= replicas.len(),
                    tablet.replicas == Some(*replicas),
                    rows == replica_rows_of(tablet@),
                    rows.len() == replicas@.len(),
                    map@ == merge_from(m0, s0, rows.take(i as int), ReplicaSide::zero(), side),
                    seen@.dom() == s0.union(keys_of(rows.take(i as int))),
                    views(dups@) == d0 + repeats_from(s0, rows.take(i as int)),
                decreases replicas.len() - i,
            {
                proof {
                    lemma_merge_step(m0, s0, rows, i as int, ReplicaSide::zero(), side);
                    assert(tablet@.replica_list()[i as int] == replicas@[i as int]@);
                }
                merge_replica(map, seen, &tablet.tablet_id, &replicas[i], side, dups);
                proof {
                    assert(views(dups@) =~= d0 + repeats_from(s0, rows.take(i + 1)));
                }
                i += 1;
            }
            proof {
                assert(rows.take(i as int) =~= rows);
            }
        },
    }
}

/// Merges the tablets of an observation, and the replicas of each, into
/// the records.
pub fn merge_tablets(
    tablets: &mut IdMap<String, TabletsDiff>,
    seen_tablets: &mut IdMap<String, ()>,
    replicas: &mut IdMap<(String, String), ReplicasDiff>,
    seen_replicas: &mut IdMap<(String, String), ()>,
    entity: &Entities,
    side: Side,
    tablet_dups: &mut Vec<String>,
    replica_dups: &mut Vec<(String, String)>,
)
    ensures
        final(tablets)@ == merge_from(
            old(tablets)@,
            old(seen_tablets)@.dom(),
            tablet_rows(entity@),
            TabletSide::zero(),
            side,
        ),
        final(seen_tablets)@.dom() == old(seen_tablets)@.dom().union(
            keys_of(tablet_rows(entity@)),
        ),
        views(final(tablet_dups)@) == views(old(tablet_dups)@) + repeats_from(
            old(seen_tablets)@.dom(),
            tablet_rows(entity@),
        ),
        final(replicas)@ == merge_from(
            old(replicas)@,
            old(seen_replicas)@.dom(),
            replica_rows(entity@),
            ReplicaSide::zero(),
            side,
        ),
        final(seen_replicas)@.dom() == old(seen_replicas)@.dom().union(
            keys_of(replica_rows(entity@)),
        ),
        views(final(replica_dups)@) == views(old(replica_dups)@) + repeats_from(
            old(seen_replicas)@.dom(),
            replica_rows(entity@),
        ),
{
    let ghost rows = tablet_rows(entity@);
    let ghost m0 = tablets@;
    let ghost s0 = seen_tablets@.dom();
    let ghost d0 = views(tablet_dups@);
    let ghost r0 = replicas@;
    let ghost rs0 = seen_replicas@.dom();
    let ghost rd0 = views(replica_dups@);
    let mut i: usize = 0;
    proof {
        assert(rows.take(0) =~= Seq::empty());
        assert(s0.union(keys_of(rows.take(0))) =~= s0);
        assert(d0 + Seq::empty() =~= d0);
        assert(rs0.union(keys_of(replica_rows_upto(entity@, 0))) =~= rs0);
        assert(rd0 + Seq::empty() =~= rd0);
    }
    while i < entity.tablets.len()
        invariant
            i <= entity.tablets.len(),
            rows == tablet_rows(entity@),
            tablets@ == merge_from(m0, s0, rows.take(i as int), TabletSide::zero(), side),
            seen_tablets@.dom() == s0.union(keys_of(rows.take(i as int))),
            views(tablet_dups@) == d0 + repeats_from(s0, rows.take(i as int)),
            replicas@ == merge_from(
                r0,
                rs0,
                replica_rows_upto(entity@, i as int),
                ReplicaSide::zero(),
                side,
            ),
            seen_replicas@.dom() == rs0.union(keys_of(replica_rows_upto(entity@, i as int))),
            views(replica_dups@) == rd0 + repeats_from(rs0, replica_rows_upto(entity@, i as int)),
        decreases entity.tablets.len() - i,
    {
        let ghost before = replica_rows_upto(entity@, i as int);
        let ghost more = replica_rows_of(entity@.tablets[i as int]);
        proof {
            lemma_merge_step(m0, s0, rows, i as int, TabletSide::zero(), side);
            lemma_merge_from_joined(r0, rs0, before, more, ReplicaSide::zero(), side);
            lemma_repeats_joined(rs0, before, more);
            lemma_keys_joined(before, more);
        }
        merge_tablet(tablets, seen_tablets, &entity.tablets[i], side, tablet_dups);
        merge_replicas_of(replicas, seen_replicas, &entity.tablets[i], side, replica_dups);
        proof {
            assert(views(tablet_dups@) =~= d0 + repeats_from(s0, rows.take(i + 1)));
            assert(seen_replicas@.dom() =~= rs0.union(keys_of(before + more)));
            assert(views(replica_dups@) =~= rd0 + repeats_from(rs0, before + more));
        }
        i += 1;
    }
    proof {
        assert(rows.take(i as int) =~= rows);
    }
}

/// Merging two runs of rows one after the other is merging the runs joined,
/// for the records of every kind, for the identifiers met and for the
/// repeats.
proof fn lemma_with_rows_joined(records: Records, met: Met, a: Rows, b: Rows, side: Side)
    ensures
        records.with_rows_from(met, a.joined(b), side) == records.with_rows_from(
            met,
            a,
            side,
        ).with_rows_from(met.joined(Met::of(a)), b, side),
        Repeats::from(met, a.joined(b)) == Repeats::from(met, a).joined(
            Repeats::from(met.joined(Met::of(a)), b),
        ),
        met.joined(Met::of(a.joined(b))) == met.joined(Met::of(a)).joined(Met::of(b)),
{
    lemma_merge_from_joined(
        records.keyspaces,
        met.keyspaces,
        a.keyspaces,
        b.keyspaces,
        KeyspaceSide::zero(),
        side,
    );
    lemma_merge_from_joined(records.tables, met.tables, a.tables, b.tables, TableSide::zero(), side);
    lemma_merge_from_joined(
        records.tablets,
        met.tablets,
        a.tablets,
        b.tablets,
        TabletSide::zero(),
        side,
    );
    lemma_merge_from_joined(
        records.replicas,
        met.replicas,
        a.replicas,
        b.replicas,
        ReplicaSide::zero(),
        side,
    );
    lemma_repeats_joined(met.keyspaces, a.keyspaces, b.keyspaces);
    lemma_repeats_joined(met.tables, a.tables, b.tables);
    lemma_repeats_joined(met.tablets, a.tablets, b.tablets);
    lemma_repeats_joined(met.replicas, a.replicas, b.replicas);
    lemma_keys_joined(a.keyspaces, b.keyspaces);
    lemma_keys_joined(a.tables, b.tables);
    lemma_keys_joined(a.tablets, b.tablets);
    lemma_keys_joined(a.replicas, b.replicas);
    let left = met.joined(Met::of(a.joined(b)));
    let right = met.joined(Met::of(a)).joined(Met::of(b));
    assert(left.keyspaces =~= right.keyspaces);
    assert(left.tables =~= right.tables);
    assert(left.tablets =~= right.tablets);
    assert(left.replicas =~= right.replicas);
}

/// The identifiers that a merge has met so far, by kind of entity.
pub struct Seen {
    pub keyspaces: IdMap<String, ()>,
    pub tables: IdMap<String, ()>,
    pub tablets: IdMap<String, ()>,
    pub replicas: IdMap<(String, String), ()>,
}

impl View for Seen {
    type V = Met;

    open spec fn view(&self) -> Met {
        Met {
            keyspaces: self.keyspaces@.dom(),
            tables: self.tables@.dom(),
            tablets: self.tablets@.dom(),
            replicas: self.replicas@.dom(),
        }
    }
}

impl Seen {
    /// A merge that has met nothing.
    pub fn new() -> (r: Self)
        ensures
            r@ == Met::empty(),
    {
        let r = Seen {
            keyspaces: IdMap::new(),
            tables: IdMap::new(),
            tablets: IdMap::new(),
            replicas: IdMap::new(),
        };
        proof {
            assert(r@.keyspaces =~= Set::empty());
            assert(r@.tables =~= Set::empty());
            assert(r@.tablets =~= Set::empty());
            assert(r@.replicas =~= Set::empty());
        }
        r
    }
}

/// Whether a leader is found after a pass with the leader `leader` is
/// merged as one side: the first side finds one where the pass names one;
/// the second side finds one where the pass names one and the first side
/// had found one.
pub open spec fn leader_found(before: bool, leader: Seq<char>, side: Side) -> bool {
    match side {
        Side::First => leader.len() > 0,
        Side::Second => before && leader.len() > 0,
    }
}

impl Default for EntitiesDiff {
    /// An engine without records.
    fn default() -> (r: Self)
        ensures
            r@ == Records::empty(),
            !r.master_found,
    {
        EntitiesDiff::new()
    }
}

impl EntitiesDiff {
    /// An engine without records.
    pub fn new() -> (r: Self)
        ensures
            r@ == Records::empty(),
            !r.master_found,
    {
        EntitiesDiff {
            keyspaces: IdMap::new(),
            tables: IdMap::new(),
            tablets: IdMap::new(),
            replicas: IdMap::new(),
            master_found: false,
        }
    }

    /// Merges one observation into the records as one side.
    fn merge_entity(&mut self, seen: &mut Seen, entity: &Entities, side: Side, dups: &mut Duplicates)
        ensures
            final(self)@ == old(self)@.with_rows_from(old(seen)@, Rows::of(entity@), side),
            final(self).master_found == old(self).master_found,
            final(seen)@ == old(seen)@.joined(Met::of(Rows::of(entity@))),
            final(dups)@ == old(dups)@.joined(Repeats::from(old(seen)@, Rows::of(entity@))),
    {
        merge_keyspaces(&mut self.keyspaces, &mut seen.keyspaces, entity, side, &mut dups.keyspaces);
        merge_tables(&mut self.tables, &mut seen.tables, entity, side, &mut dups.tables);
        merge_tablets(
            &mut self.tablets,
            &mut seen.tablets,
            &mut self.replicas,
            &mut seen.replicas,
            entity,
            side,
            &mut dups.tablets,
            &mut dups.replicas,
        );
    }

    /// Merges a pass into the records as one side: the observations that
    /// the node `master_leader` reported, in order. Of the rows of one
    /// identifier the first is merged, whatever its values, and every later
    /// one is returned as a repeat. With an empty `master_leader` no leader
    /// is known and nothing is merged. `master_found` then says whether a
    /// leader is found: for the first side where this pass names one, for
    /// the second side where this pass names one and a leader was found
    /// before.
    pub fn merge_snapshot(&mut self, allentities: &AllEntities, master_leader: &str, side: Side) -> (r:
        Duplicates)
        ensures
            final(self).master_found == leader_found(old(self).master_found, master_leader@, side),
            final(self)@ == old(self)@.merged(allentities@, master_leader@, side),
            r@ == Repeats::of(leader_rows(allentities@, master_leader@)),
    {
        let mut dups = Duplicates::new();
        let found = !master_leader.is_empty();
        self.master_found = match side {
            Side::First => found,
            Side::Second => self.master_found && found,
        };
        let ghost start = self@;
        let ghost all = allentities@;
        let ghost leader = master_leader@;
        let ghost flag = self.master_found;
        proof {
            let none = Rows::empty();
            assert(start.with_rows(none, side) == start);
            assert(Repeats::of(none) == Repeats::empty());
            let met = Met::empty().joined(Met::of(none));
            assert(met.keyspaces =~= Set::empty());
            assert(met.tables =~= Set::empty());
            assert(met.tablets =~= Set::empty());
            assert(met.replicas =~= Set::empty());
        }
        if !found {
            return dups;
        }
        let mut seen = Seen::new();
        let mut i: usize = 0;
        while i < allentities.entities.len()
            invariant
                i <= allentities.entities.len(),
                all == allentities@,
                leader == master_leader@,
                self.master_found == flag,
                self@ == start.with_rows(leader_rows_upto(all, leader, i as int), side),
                seen@ == Met::empty().joined(Met::of(leader_rows_upto(all, leader, i as int))),
                dups@ == Repeats::of(leader_rows_upto(all, leader, i as int)),
            decreases allentities.entities.len() - i,
        {
            let entity = &allentities.entities[i];
            assert(entity@ == all[i as int]);
            if entity.is_reported_by(master_leader) {
                proof {
                    lemma_with_rows_joined(
                        start,
                        Met::empty(),
                        leader_rows_upto(all, leader, i as int),
                        Rows::of(all[i as int]),
                        side,
                    );
                }
                self.merge_entity(&mut seen, entity, side, &mut dups);
            }
            i += 1;
        }
        dups
    }

    /// Merges a pass as the first observation of the difference. A leader
    /// is found where the pass names one.
    pub fn first_snapshot(&mut self, allentities: AllEntities, master_leader: String) -> (r:
        Duplicates)
        ensures
            final(self).master_found == (master_leader@.len() > 0),
            final(self)@ == old(self)@.merged(allentities@, master_leader@, Side::First),
            r@ == Repeats::of(leader_rows(allentities@, master_leader@)),
    {
        self.merge_snapshot(&allentities, master_leader.as_str(), Side::First)
    }

    /// Merges a pass as the second observation of the difference. A first
    /// observation without leader is a stop for the whole difference: a
    /// leader is found only where it was found before and this pass names
    /// one.
    pub fn second_snapshot(&mut self, allentities: AllEntities, master_leader: String) -> (r:
        Duplicates)
        ensures
            final(self).master_found == (old(self).master_found && master_leader@.len() > 0),
            final(self)@ == old(self)@.merged(allentities@, master_leader@, Side::Second),
            r@ == Repeats::of(leader_rows(allentities@, master_leader@)),
    {
        self.merge_snapshot(&allentities, master_leader.as_str(), Side::Second)
    }

    /// The difference between two passes, each with the node that led the
    /// cluster when it was made, and the identifiers that the first and the
    /// second pass repeat. A pass without a leader is not merged, and the
    /// difference then says that no leader was found.
    pub fn snapshot_diff(
        begin: AllEntities,
        begin_leader: String,
        end: AllEntities,
        end_leader: String,
    ) -> (r: (EntitiesDiff, Duplicates, Duplicates))
        ensures
            r.0@ == Records::between(begin@, begin_leader@, end@, end_leader@),
            r.0.master_found == (begin_leader@.len() > 0 && end_leader@.len() > 0),
            r.1@ == Repeats::of(leader_rows(begin@, begin_leader@)),
            r.2@ == Repeats::of(leader_rows(end@, end_leader@)),
    {
        let mut entitiesdiff = EntitiesDiff::new();
        let first = entitiesdiff.first_snapshot(begin, begin_leader);
        let second = entitiesdiff.second_snapshot(end, end_leader);
        (entitiesdiff, first, second)
    }
}

} // verus!
