//! The difference between two observations of a cluster.
//!
//! For every identifier that either observation holds, the engine keeps one
//! change record per kind of entity: keyspaces, tables and tablets by their
//! identifier, replicas by the pair of their tablet's identifier and their
//! node's. Only the observation of the node that led the cluster when it
//! was made is merged in.

use vstd::prelude::*;
use crate::change::Side;
use crate::change::Sides;
use crate::change::keys_of;
use crate::change::merge_from;
use crate::change::repeats_from;
use crate::change::swapped_map;
use crate::idmap::IdMap;
use crate::model::EntitiesView;
use crate::model::TabletsView;
use crate::records::KeyspaceDiff;
use crate::records::KeyspaceSide;
use crate::records::ReplicaSide;
use crate::records::ReplicasDiff;
use crate::records::TableSide;
use crate::records::TablesDiff;
use crate::records::TabletSide;
use crate::records::TabletsDiff;
use crate::records::keyspace_side;
use crate::records::replica_side;
use crate::records::table_side;
use crate::records::tablet_side;
use crate::views::views;

verus! {

/// The keyspaces of an observation as rows to merge.
pub open spec fn keyspace_rows(e: EntitiesView) -> Seq<(Seq<char>, KeyspaceSide)> {
    Seq::new(e.keyspaces.len(), |i: int| (e.keyspaces[i].keyspace_id, keyspace_side(e.keyspaces[i])))
}

/// The tables of an observation as rows to merge.
pub open spec fn table_rows(e: EntitiesView) -> Seq<(Seq<char>, TableSide)> {
    Seq::new(e.tables.len(), |i: int| (e.tables[i].table_id, table_side(e.tables[i])))
}

/// The tablets of an observation as rows to merge.
pub open spec fn tablet_rows(e: EntitiesView) -> Seq<(Seq<char>, TabletSide)> {
    Seq::new(e.tablets.len(), |i: int| (e.tablets[i].tablet_id, tablet_side(e.tablets[i])))
}

/// The replicas of one tablet as rows to merge.
pub open spec fn replica_rows_of(t: TabletsView) -> Seq<((Seq<char>, Seq<char>), ReplicaSide)> {
    Seq::new(
        t.replica_list().len(),
        |i: int| ((t.tablet_id, t.replica_list()[i].server_uuid), replica_side(t.replica_list()[i])),
    )
}

/// The replicas of the first `n` tablets of an observation as rows to
/// merge, tablet by tablet.
pub open spec fn replica_rows_upto(e: EntitiesView, n: int) -> Seq<
    ((Seq<char>, Seq<char>), ReplicaSide),
>
    decreases n,
{
    if n <= 0 {
        Seq::empty()
    } else {
        replica_rows_upto(e, n - 1) + replica_rows_of(e.tablets[n - 1])
    }
}

/// The replicas of an observation as rows to merge.
pub open spec fn replica_rows(e: EntitiesView) -> Seq<((Seq<char>, Seq<char>), ReplicaSide)> {
    replica_rows_upto(e, e.tablets.len() as int)
}

/// Rows to merge, by kind of entity.
pub struct Rows {
    pub keyspaces: Seq<(Seq<char>, KeyspaceSide)>,
    pub tables: Seq<(Seq<char>, TableSide)>,
    pub tablets: Seq<(Seq<char>, TabletSide)>,
    pub replicas: Seq<((Seq<char>, Seq<char>), ReplicaSide)>,
}

impl Rows {
    /// No rows.
    pub open spec fn empty() -> Rows {
        Rows {
            keyspaces: Seq::empty(),
            tables: Seq::empty(),
            tablets: Seq::empty(),
            replicas: Seq::empty(),
        }
    }

    /// The rows of one observation.
    pub open spec fn of(e: EntitiesView) -> Rows {
        Rows {
            keyspaces: keyspace_rows(e),
            tables: table_rows(e),
            tablets: tablet_rows(e),
            replicas: replica_rows(e),
        }
    }

    /// These rows followed by others.
    pub open spec fn joined(self, more: Rows) -> Rows {
        Rows {
            keyspaces: self.keyspaces + more.keyspaces,
            tables: self.tables + more.tables,
            tablets: self.tablets + more.tablets,
            replicas: self.replicas + more.replicas,
        }
    }
}

/// The rows that the first `n` observations of a pass give to merge: those
/// of the observations that the node `leader` reported, in order.
pub open spec fn leader_rows_upto(all: Seq<EntitiesView>, leader: Seq<char>, n: int) -> Rows
    decreases n,
{
    if n <= 0 {
        Rows::empty()
    } else if all[n - 1].reported_by(leader) {
        leader_rows_upto(all, leader, n - 1).joined(Rows::of(all[n - 1]))
    } else {
        leader_rows_upto(all, leader, n - 1)
    }
}

/// The rows that a pass gives to merge: those of the observations that
/// the node `leader` reported. Without a leader, written as an empty name,
/// the pass gives none.
pub open spec fn leader_rows(all: Seq<EntitiesView>, leader: Seq<char>) -> Rows {
    if leader.len() == 0 {
        Rows::empty()
    } else {
        leader_rows_upto(all, leader, all.len() as int)
    }
}

/// The change records of the four kinds of entity.
pub struct Records {
    pub keyspaces: Map<Seq<char>, Sides<KeyspaceSide>>,
    pub tables: Map<Seq<char>, Sides<TableSide>>,
    pub tablets: Map<Seq<char>, Sides<TabletSide>>,
    pub replicas: Map<(Seq<char>, Seq<char>), Sides<ReplicaSide>>,
}

impl Records {
    /// No records.
    pub open spec fn empty() -> Records {
        Records {
            keyspaces: Map::empty(),
            tables: Map::empty(),
            tablets: Map::empty(),
            replicas: Map::empty(),
        }
    }

    /// The records after rows are merged in as one side, where the merge
    /// has met the identifiers `met` before them.
    pub open spec fn with_rows_from(self, met: Met, rows: Rows, side: Side) -> Records {
        Records {
            keyspaces: merge_from(
                self.keyspaces,
                met.keyspaces,
                rows.keyspaces,
                KeyspaceSide::zero(),
                side,
            ),
            tables: merge_from(self.tables, met.tables, rows.tables, TableSide::zero(), side),
            tablets: merge_from(self.tablets, met.tablets, rows.tablets, TabletSide::zero(), side),
            replicas: merge_from(
                self.replicas,
                met.replicas,
                rows.replicas,
                ReplicaSide::zero(),
                side,
            ),
        }
    }

    /// The records after the rows of one merge are merged in as one side:
    /// of the rows of one identifier the first decides.
    pub open spec fn with_rows(self, rows: Rows, side: Side) -> Records {
        self.with_rows_from(Met::empty(), rows, side)
    }

    /// The records after a pass is merged in as one side.
    pub open spec fn merged(self, all: Seq<EntitiesView>, leader: Seq<char>, side: Side) -> Records {
        self.with_rows(leader_rows(all, leader), side)
    }

    /// The difference between two passes: the first merged into no records
    /// as the first side, then the second as the second side.
    pub open spec fn between(
        first: Seq<EntitiesView>,
        first_leader: Seq<char>,
        second: Seq<EntitiesView>,
        second_leader: Seq<char>,
    ) -> Records {
        Records::empty().merged(first, first_leader, Side::First).merged(
            second,
            second_leader,
            Side::Second,
        )
    }

    /// The records read in the opposite direction.
    pub open spec fn swapped(self) -> Records {
        Records {
            keyspaces: swapped_map(self.keyspaces),
            tables: swapped_map(self.tables),
            tablets: swapped_map(self.tablets),
            replicas: swapped_map(self.replicas),
        }
    }
}

/// The identifiers that a merge has met, by kind of entity.
pub struct Met {
    pub keyspaces: Set<Seq<char>>,
    pub tables: Set<Seq<char>>,
    pub tablets: Set<Seq<char>>,
    pub replicas: Set<(Seq<char>, Seq<char>)>,
}

impl Met {
    /// No identifier.
    pub open spec fn empty() -> Met {
        Met {
            keyspaces: Set::empty(),
            tables: Set::empty(),
            tablets: Set::empty(),
            replicas: Set::empty(),
        }
    }

    /// The identifiers that rows speak of.
    pub open spec fn of(rows: Rows) -> Met {
        Met {
            keyspaces: keys_of(rows.keyspaces),
            tables: keys_of(rows.tables),
            tablets: keys_of(rows.tablets),
            replicas: keys_of(rows.replicas),
        }
    }

    /// These identifiers and others.
    pub open spec fn joined(self, more: Met) -> Met {
        Met {
            keyspaces: self.keyspaces.union(more.keyspaces),
            tables: self.tables.union(more.tables),
            tablets: self.tablets.union(more.tablets),
            replicas: self.replicas.union(more.replicas),
        }
    }
}

/// The identifiers that a merge repeats, by kind of entity and in the
/// order in which they were met.
pub struct Repeats {
    pub keyspaces: Seq<Seq<char>>,
    pub tables: Seq<Seq<char>>,
    pub tablets: Seq<Seq<char>>,
    pub replicas: Seq<(Seq<char>, Seq<char>)>,
}

impl Repeats {
    /// No repeated identifier.
    pub open spec fn empty() -> Repeats {
        Repeats {
            keyspaces: Seq::empty(),
            tables: Seq::empty(),
            tablets: Seq::empty(),
            replicas: Seq::empty(),
        }
    }

    /// The identifiers of the rows that repeat one, where the merge has
    /// met the identifiers `met` before the rows.
    pub open spec fn from(met: Met, rows: Rows) -> Repeats {
        Repeats {
            keyspaces: repeats_from(met.keyspaces, rows.keyspaces),
            tables: repeats_from(met.tables, rows.tables),
            tablets: repeats_from(met.tablets, rows.tablets),
            replicas: repeats_from(met.replicas, rows.replicas),
        }
    }

    /// The identifiers of the rows of one merge that repeat the identifier
    /// of an earlier row.
    pub open spec fn of(rows: Rows) -> Repeats {
        Repeats::from(Met::empty(), rows)
    }

    /// These repeats followed by others.
    pub open spec fn joined(self, more: Repeats) -> Repeats {
        Repeats {
            keyspaces: self.keyspaces + more.keyspaces,
            tables: self.tables + more.tables,
            tablets: self.tablets + more.tablets,
            replicas: self.replicas + more.replicas,
        }
    }
}

/// The identifiers that a pass holds more than once, once for every
/// occurrence after the first. Of each the first occurrence was merged; the
/// later ones are only reported here.
#[derive(Clone, Debug)]
pub struct Duplicates {
    pub keyspaces: Vec<String>,
    pub tables: Vec<String>,
    pub tablets: Vec<String>,
    pub replicas: Vec<(String, String)>,
}

impl View for Duplicates {
    type V = Repeats;

    open spec fn view(&self) -> Repeats {
        Repeats {
            keyspaces: views(self.keyspaces@),
            tables: views(self.tables@),
            tablets: views(self.tablets@),
            replicas: views(self.replicas@),
        }
    }
}

impl Duplicates {
    /// No duplicate.
    pub fn new() -> (r: Self)
        ensures
            r@ == Repeats::empty(),
    {
        let r = Duplicates {
            keyspaces: Vec::new(),
            tables: Vec::new(),
            tablets: Vec::new(),
            replicas: Vec::new(),
        };
        proof {
            assert(r@.keyspaces =~= Seq::empty());
            assert(r@.tables =~= Seq::empty());
            assert(r@.tablets =~= Seq::empty());
            assert(r@.replicas =~= Seq::empty());
        }
        r
    }

    /// Whether no identifier was repeated.
    pub fn is_empty(&self) -> (r: bool)
        ensures
            r == (self@ == Repeats::empty()),
    {
        proof {
            assert((self@ == Repeats::empty()) == (self@.keyspaces =~= Seq::empty() && self@.tables
                =~= Seq::empty() && self@.tablets =~= Seq::empty() && self@.replicas
                =~= Seq::empty()));
        }
        self.keyspaces.len() == 0 && self.tables.len() == 0 && self.tablets.len() == 0
            && self.replicas.len() == 0
    }
}

/// The difference engine: the change records of two observations, and
/// whether the node that led the cluster was found for both. A first
/// observation without leader leaves `master_found` false, and no second
/// observation sets it again.
pub struct EntitiesDiff {
    pub keyspaces: IdMap<String, KeyspaceDiff>,
    pub tables: IdMap<String, TablesDiff>,
    pub tablets: IdMap<String, TabletsDiff>,
    pub replicas: IdMap<(String, String), ReplicasDiff>,
    pub master_found: bool,
}

impl View for EntitiesDiff {
    type V = Records;

    open spec fn view(&self) -> Records {
        Records {
            keyspaces: self.keyspaces@,
            tables: self.tables@,
            tablets: self.tablets@,
            replicas: self.replicas@,
        }
    }
}

} // verus!
