//! What became of an entity between the two observations.
//!
//! A record whose sides say the same is unchanged; one whose first side
//! saw nothing is added, one whose second side saw nothing is removed; any
//! other is modified. A relational keyspace stays listed when it is
//! dropped, so with equal sides it is removed if it had tables and has none
//! left, and it is an anomaly if it had none and has some.

use vstd::prelude::*;
use vstd::utf8::encode_utf8;
use crate::change::Side;
use crate::change::Sides;
use crate::diff::EntitiesDiff;
use crate::diff::Records;
use crate::identifier::catalog_object;
use crate::identifier::colocation_root;
use crate::identifier::is_catalog_object;
use crate::identifier::is_colocation_root_shard_id;
use crate::idmap::lemma_listing_key;
use crate::model::is_relational;
use crate::model::relational;
use crate::records::KeyspaceDiff;
use crate::records::KeyspaceSide;
use crate::records::ReplicaSide;
use crate::records::ReplicasDiff;
use crate::records::TableSide;
use crate::records::TablesDiff;
use crate::records::TabletSide;
use crate::records::TabletsDiff;
use crate::text::same_text;

verus! {

/// What became of an entity between the two observations.
#[derive(Clone, Copy, Debug, PartialEq, Eq, Structural)]
pub enum Change {
    /// Both observations say the same of it.
    Unchanged,
    /// Only the second observation holds it.
    Added,
    /// Only the first observation holds it, or it is a relational keyspace
    /// that lost all its tables.
    Removed,
    /// Both hold it and differ.
    Modified,
    /// A relational keyspace without tables that has tables again: a
    /// dropped keyspace does not come back under its identifier.
    Reappeared,
}

/// What became of an entity, by the two sides of its record alone.
pub open spec fn change_of<S>(record: Sides<S>, zero: S) -> Change {
    if record.first == record.second {
        Change::Unchanged
    } else if record.first == zero {
        Change::Added
    } else if record.second == zero {
        Change::Removed
    } else {
        Change::Modified
    }
}

/// The side of a record that a line about a change speaks from: the second
/// for an addition, the first otherwise.
pub open spec fn telling_side(change: Change) -> Side {
    match change {
        Change::Added => Side::Second,
        _ => Side::First,
    }
}

impl Records {
    /// What one side says of a keyspace; nothing where it has no record.
    pub open spec fn keyspace(self, id: Seq<char>, side: Side) -> KeyspaceSide {
        if self.keyspaces.contains_key(id) {
            self.keyspaces[id].get(side)
        } else {
            KeyspaceSide::zero()
        }
    }

    /// What one side says of the keyspace of a table; nothing where the
    /// table or the keyspace has no record.
    pub open spec fn keyspace_of_table(self, table_id: Seq<char>, side: Side) -> KeyspaceSide {
        if self.tables.contains_key(table_id) {
            self.keyspace(self.tables[table_id].get(side).keyspace_id, side)
        } else {
            KeyspaceSide::zero()
        }
    }

    /// The name that one side gives a table; empty where it has no record.
    pub open spec fn table_name(self, table_id: Seq<char>, side: Side) -> Seq<char> {
        if self.tables.contains_key(table_id) {
            self.tables[table_id].get(side).name
        } else {
            Seq::empty()
        }
    }

    /// What one side says of the keyspace of the table of a tablet.
    pub open spec fn keyspace_of_tablet(self, tablet_id: Seq<char>, side: Side) -> KeyspaceSide {
        if self.tablets.contains_key(tablet_id) {
            self.keyspace_of_table(self.tablets[tablet_id].get(side).table_id, side)
        } else {
            KeyspaceSide::zero()
        }
    }

    /// The name that one side gives the table of a tablet.
    pub open spec fn table_name_of_tablet(self, tablet_id: Seq<char>, side: Side) -> Seq<char> {
        if self.tablets.contains_key(tablet_id) {
            self.table_name(self.tablets[tablet_id].get(side).table_id, side)
        } else {
            Seq::empty()
        }
    }

    /// The address that one side gives the replica of a tablet on a node;
    /// empty where the replica has no record.
    pub open spec fn replica_addr(self, tablet_id: Seq<char>, node: Seq<char>, side: Side) -> Seq<
        char,
    > {
        if self.replicas.contains_key((tablet_id, node)) {
            self.replicas[(tablet_id, node)].get(side).addr
        } else {
            Seq::empty()
        }
    }

    /// Whether one side holds a table of a keyspace.
    pub open spec fn has_tables(self, keyspace_id: Seq<char>, side: Side) -> bool {
        exists|t: Seq<char>| #[trigger]
            self.tables.contains_key(t) && self.tables[t].get(side).keyspace_id == keyspace_id
    }

    /// Whether one side holds a tablet of a table.
    pub open spec fn has_tablets(self, table_id: Seq<char>, side: Side) -> bool {
        exists|t: Seq<char>| #[trigger]
            self.tablets.contains_key(t) && self.tablets[t].get(side).table_id == table_id
    }

    /// Whether one side holds the colocation root of a keyspace.
    pub open spec fn has_colocation_root(self, keyspace_id: Seq<char>, side: Side) -> bool {
        exists|t: Seq<char>| #[trigger]
            self.tablets.contains_key(t) && colocation_root(
                keyspace_id,
                self.tablets[t].get(side).table_id,
            )
    }

    /// What became of a keyspace.
    pub open spec fn keyspace_change(self, id: Seq<char>, record: Sides<KeyspaceSide>) -> Change {
        if record.first == record.second {
            if record.second.kind == relational() {
                let before = self.has_tables(id, Side::First);
                let after = self.has_tables(id, Side::Second);
                if before == after {
                    Change::Unchanged
                } else if before {
                    Change::Removed
                } else {
                    Change::Reappeared
                }
            } else {
                Change::Unchanged
            }
        } else {
            change_of(record, KeyspaceSide::zero())
        }
    }

    /// Whether a keyspace is shown as colocated in the line about its
    /// change: on the side the line speaks from it is relational and has a
    /// colocation root.
    pub open spec fn keyspace_colocated(
        self,
        id: Seq<char>,
        record: Sides<KeyspaceSide>,
        side: Side,
    ) -> bool {
        record.get(side).kind == relational() && self.has_colocation_root(id, side)
    }

    /// Whether the table of a record is a catalog table on one side: its
    /// object number is below the first user object's and its keyspace is
    /// relational.
    pub open spec fn catalog_table(self, id: Seq<char>, record: Sides<TableSide>, side: Side) -> bool {
        catalog_object(encode_utf8(id)) && self.keyspace(record.get(side).keyspace_id, side).kind
            == relational()
    }

    /// Whether the change of a table is left out of the report: catalog
    /// tables come and go with their keyspace.
    pub open spec fn table_suppressed(self, id: Seq<char>, record: Sides<TableSide>) -> bool {
        match change_of(record, TableSide::zero()) {
            Change::Added => self.catalog_table(id, record, Side::Second),
            Change::Removed => self.catalog_table(id, record, Side::First),
            _ => false,
        }
    }

    /// Whether a table is shown as colocated on one side: it is a user
    /// table of a relational keyspace and has no tablet of its own.
    pub open spec fn table_colocated(self, id: Seq<char>, record: Sides<TableSide>, side: Side) -> bool {
        self.keyspace(record.get(side).keyspace_id, side).kind == relational() && !catalog_object(
            encode_utf8(id),
        ) && !self.has_tablets(id, side)
    }
}

impl KeyspaceDiff {
    /// What became of the keyspace, by the two sides alone.
    pub fn change(&self) -> (r: Change)
        ensures
            r == change_of(self@, KeyspaceSide::zero()),
    {
        if self.is_same() {
            Change::Unchanged
        } else if self.is_zero(Side::First) {
            Change::Added
        } else if self.is_zero(Side::Second) {
            Change::Removed
        } else {
            Change::Modified
        }
    }
}

impl TablesDiff {
    /// What became of the table, by the two sides alone.
    pub fn change(&self) -> (r: Change)
        ensures
            r == change_of(self@, TableSide::zero()),
    {
        if self.is_same() {
            Change::Unchanged
        } else if self.is_zero(Side::First) {
            Change::Added
        } else if self.is_zero(Side::Second) {
            Change::Removed
        } else {
            Change::Modified
        }
    }
}

impl TabletsDiff {
    /// What became of the tablet.
    pub fn change(&self) -> (r: Change)
        ensures
            r == change_of(self@, TabletSide::zero()),
    {
        if self.is_same() {
            Change::Unchanged
        } else if self.is_zero(Side::First) {
            Change::Added
        } else if self.is_zero(Side::Second) {
            Change::Removed
        } else {
            Change::Modified
        }
    }
}

impl ReplicasDiff {
    /// What became of the replica.
    pub fn change(&self) -> (r: Change)
        ensures
            r == change_of(self@, ReplicaSide::zero()),
    {
        if self.is_same() {
            Change::Unchanged
        } else if self.is_zero(Side::First) {
            Change::Added
        } else if self.is_zero(Side::Second) {
            Change::Removed
        } else {
            Change::Modified
        }
    }
}

impl EntitiesDiff {
    /// Whether one side holds a table of a keyspace.
    pub fn has_tables(&self, keyspace_id: &str, side: Side) -> (r: bool)
        ensures
            r == self@.has_tables(keyspace_id@, side),
    {
        let n = self.tables.len();
        let mut i: usize = 0;
        while i < n
            invariant
                i <= n,
                n == self.tables.listing().len(),
                self.tables.wf(),
                forall|j: int|
                    0 <= j < i ==> (#[trigger] self.tables.listing()[j]).1.get(side).keyspace_id
                        != keyspace_id@,
            decreases n - i,
        {
            let table = self.tables.value_at(i);
            if same_text(table.keyspace_id(side).as_str(), keyspace_id) {
                assert(self@.tables.contains_key(self.tables.listing()[i as int].0));
                return true;
            }
            i += 1;
        }
        proof {
            assert forall|t: Seq<char>| #[trigger] self@.tables.contains_key(t) implies self@.tables[t].get(
                side,
            ).keyspace_id != keyspace_id@ by {
                lemma_listing_key(self.tables.listing(), t);
            }
        }
        false
    }

    /// Whether one side holds a tablet of a table.
    pub fn has_tablets(&self, table_id: &str, side: Side) -> (r: bool)
        ensures
            r == self@.has_tablets(table_id@, side),
    {
        let n = self.tablets.len();
        let mut i: usize = 0;
        while i < n
            invariant
                i <= n,
                n == self.tablets.listing().len(),
                self.tablets.wf(),
                forall|j: int|
                    0 <= j < i ==> (#[trigger] self.tablets.listing()[j]).1.get(side).table_id
                        != table_id@,
            decreases n - i,
        {
            let tablet = self.tablets.value_at(i);
            if same_text(tablet.table_id(side).as_str(), table_id) {
                assert(self@.tablets.contains_key(self.tablets.listing()[i as int].0));
                return true;
            }
            i += 1;
        }
        proof {
            assert forall|t: Seq<char>| #[trigger] self@.tablets.contains_key(t) implies self@.tablets[t].get(
                side,
            ).table_id != table_id@ by {
                lemma_listing_key(self.tablets.listing(), t);
            }
        }
        false
    }

    /// Whether one side holds the colocation root of a keyspace.
    pub fn has_colocation_root(&self, keyspace_id: &str, side: Side) -> (r: bool)
        ensures
            r == self@.has_colocation_root(keyspace_id@, side),
    {
        let n = self.tablets.len();
        let mut i: usize = 0;
        while i < n
            invariant
                i <= n,
                n == self.tablets.listing().len(),
                self.tablets.wf(),
                forall|j: int|
                    0 <= j < i ==> !colocation_root(
                        keyspace_id@,
                        (#[trigger] self.tablets.listing()[j]).1.get(side).table_id,
                    ),
            decreases n - i,
        {
            let tablet = self.tablets.value_at(i);
            if is_colocation_root_shard_id(keyspace_id, tablet.table_id(side).as_str()) {
                assert(self@.tablets.contains_key(self.tablets.listing()[i as int].0));
                return true;
            }
            i += 1;
        }
        proof {
            assert forall|t: Seq<char>| #[trigger] self@.tablets.contains_key(t) implies !colocation_root(
                keyspace_id@,
                self@.tablets[t].get(side).table_id,
            ) by {
                lemma_listing_key(self.tablets.listing(), t);
            }
        }
        false
    }

    /// What became of a keyspace.
    pub fn keyspace_change(&self, id: &str, record: &KeyspaceDiff) -> (r: Change)
        ensures
            r == self@.keyspace_change(id@, record@),
    {
        if record.is_same() {
            if is_relational(record.second_keyspace_type.as_str()) {
                let before = self.has_tables(id, Side::First);
                let after = self.has_tables(id, Side::Second);
                if before == after {
                    Change::Unchanged
                } else if before {
                    Change::Removed
                } else {
                    Change::Reappeared
                }
            } else {
                Change::Unchanged
            }
        } else {
            record.change()
        }
    }

    /// Whether a keyspace is shown as colocated on one side.
    pub fn keyspace_colocated(&self, id: &str, record: &KeyspaceDiff, side: Side) -> (r: bool)
        ensures
            r == self@.keyspace_colocated(id@, record@, side),
    {
        is_relational(record.kind(side).as_str()) && self.has_colocation_root(id, side)
    }

    /// The type that one side gives a keyspace, empty where it has no
    /// record.
    pub fn keyspace_kind(&self, keyspace_id: &String, side: Side) -> (r: String)
        ensures
            r@ == self@.keyspace(keyspace_id@, side).kind,
    {
        match self.keyspaces.get(keyspace_id) {
            Some(k) => k.kind(side).clone(),
            None => String::new(),
        }
    }

    /// The name that one side gives a keyspace, empty where it has no
    /// record.
    pub fn keyspace_name(&self, keyspace_id: &String, side: Side) -> (r: String)
        ensures
            r@ == self@.keyspace(keyspace_id@, side).name,
    {
        match self.keyspaces.get(keyspace_id) {
            Some(k) => k.name(side).clone(),
            None => String::new(),
        }
    }

    /// Whether the table of a record is a catalog table on one side.
    pub fn is_catalog_table(&self, id: &str, record: &TablesDiff, side: Side) -> (r: bool)
        ensures
            r == self@.catalog_table(id@, record@, side),
    {
        is_catalog_object(id) && is_relational(
            self.keyspace_kind(record.keyspace_id(side), side).as_str(),
        )
    }

    /// Whether the change of a table is left out of the report.
    pub fn is_table_suppressed(&self, id: &str, record: &TablesDiff) -> (r: bool)
        ensures
            r == self@.table_suppressed(id@, record@),
    {
        match record.change() {
            Change::Added => self.is_catalog_table(id, record, Side::Second),
            Change::Removed => self.is_catalog_table(id, record, Side::First),
            _ => false,
        }
    }

    /// Whether a table is shown as colocated on one side.
    pub fn table_colocated(&self, id: &str, record: &TablesDiff, side: Side) -> (r: bool)
        ensures
            r == self@.table_colocated(id@, record@, side),
    {
        is_relational(self.keyspace_kind(record.keyspace_id(side), side).as_str())
            && !is_catalog_object(id) && !self.has_tablets(id, side)
    }

    /// The type and the name that one side gives the keyspace of a table,
    /// both empty where the table or the keyspace has no record.
    pub fn table_keyspace(&self, table_id: &String, side: Side) -> (r: (String, String))
        ensures
            r.0@ == self@.keyspace_of_table(table_id@, side).kind,
            r.1@ == self@.keyspace_of_table(table_id@, side).name,
    {
        match self.tables.get(table_id) {
            Some(t) => (
                self.keyspace_kind(t.keyspace_id(side), side),
                self.keyspace_name(t.keyspace_id(side), side),
            ),
            None => (String::new(), String::new()),
        }
    }

    /// The name that one side gives a table, empty where it has no record.
    pub fn table_name(&self, table_id: &String, side: Side) -> (r: String)
        ensures
            r@ == self@.table_name(table_id@, side),
    {
        match self.tables.get(table_id) {
            Some(t) => t.name(side).clone(),
            None => String::new(),
        }
    }

    /// The type and the name that one side gives the keyspace of the table
    /// of a tablet.
    pub fn tablet_keyspace(&self, tablet_id: &String, side: Side) -> (r: (String, String))
        ensures
            r.0@ == self@.keyspace_of_tablet(tablet_id@, side).kind,
            r.1@ == self@.keyspace_of_tablet(tablet_id@, side).name,
    {
        match self.tablets.get(tablet_id) {
            Some(t) => self.table_keyspace(t.table_id(side), side),
            None => (String::new(), String::new()),
        }
    }

    /// The name that one side gives the table of a tablet.
    pub fn tablet_table_name(&self, tablet_id: &String, side: Side) -> (r: String)
        ensures
            r@ == self@.table_name_of_tablet(tablet_id@, side),
    {
        match self.tablets.get(tablet_id) {
            Some(t) => self.table_name(t.table_id(side), side),
            None => String::new(),
        }
    }

    /// The address that one side gives the replica of a tablet on a node,
    /// empty where the replica has no record.
    pub fn replica_addr(&self, tablet_id: &String, node: &String, side: Side) -> (r: String)
        ensures
            r@ == self@.replica_addr(tablet_id@, node@, side),
    {
        let key = (tablet_id.clone(), node.clone());
        match self.replicas.get(&key) {
            Some(replica) => replica.addr(side).clone(),
            None => String::new(),
        }
    }
}

} // verus!
