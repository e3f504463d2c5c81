//! The change records of the four kinds of entity.
//!
//! A record is kept flat, with the fields of its first side and of its
//! second side; the contracts speak of it as the two sides.

use vstd::prelude::*;
use crate::change::Side;
use crate::change::Sides;
use crate::model::Keyspaces;
use crate::model::KeyspacesView;
use crate::model::Replicas;
use crate::model::ReplicasView;
use crate::model::Tables;
use crate::model::TablesView;
use crate::model::Tablets;
use crate::model::TabletsView;

verus! {

/// What one observation says of a keyspace.
pub struct KeyspaceSide {
    pub name: Seq<char>,
    pub kind: Seq<char>,
}

/// What one observation says of a table.
pub struct TableSide {
    pub keyspace_id: Seq<char>,
    pub name: Seq<char>,
    pub state: Seq<char>,
}

/// What one observation says of a tablet.
pub struct TabletSide {
    pub table_id: Seq<char>,
    pub state: Seq<char>,
    pub leader: Seq<char>,
}

/// What one observation says of a replica.
pub struct ReplicaSide {
    pub addr: Seq<char>,
    pub replica_type: Seq<char>,
}

impl KeyspaceSide {
    /// What a side holds that saw nothing of the keyspace.
    pub open spec fn zero() -> KeyspaceSide {
        KeyspaceSide { name: Seq::empty(), kind: Seq::empty() }
    }
}

impl TableSide {
    /// What a side holds that saw nothing of the table.
    pub open spec fn zero() -> TableSide {
        TableSide { keyspace_id: Seq::empty(), name: Seq::empty(), state: Seq::empty() }
    }
}

impl TabletSide {
    /// What a side holds that saw nothing of the tablet.
    pub open spec fn zero() -> TabletSide {
        TabletSide { table_id: Seq::empty(), state: Seq::empty(), leader: Seq::empty() }
    }
}

impl ReplicaSide {
    /// What a side holds that saw nothing of the replica.
    pub open spec fn zero() -> ReplicaSide {
        ReplicaSide { addr: Seq::empty(), replica_type: Seq::empty() }
    }
}

/// The change record of a keyspace.
#[derive(Clone, Debug)]
pub struct KeyspaceDiff {
    pub first_keyspace_name: String,
    pub first_keyspace_type: String,
    pub second_keyspace_name: String,
    pub second_keyspace_type: String,
}

impl View for KeyspaceDiff {
    type V = Sides<KeyspaceSide>;

    open spec fn view(&self) -> Sides<KeyspaceSide> {
        Sides {
            first: KeyspaceSide { name: self.first_keyspace_name@, kind: self.first_keyspace_type@ },
            second: KeyspaceSide {
                name: self.second_keyspace_name@,
                kind: self.second_keyspace_type@,
            },
        }
    }
}

/// The change record of a table.
#[derive(Clone, Debug)]
pub struct TablesDiff {
    pub first_keyspace_id: String,
    pub first_table_name: String,
    pub first_state: String,
    pub second_keyspace_id: String,
    pub second_table_name: String,
    pub second_state: String,
}

impl View for TablesDiff {
    type V = Sides<TableSide>;

    open spec fn view(&self) -> Sides<TableSide> {
        Sides {
            first: TableSide {
                keyspace_id: self.first_keyspace_id@,
                name: self.first_table_name@,
                state: self.first_state@,
            },
            second: TableSide {
                keyspace_id: self.second_keyspace_id@,
                name: self.second_table_name@,
                state: self.second_state@,
            },
        }
    }
}

/// The change record of a tablet.
#[derive(Clone, Debug)]
pub struct TabletsDiff {
    pub first_table_id: String,
    pub first_state: String,
    pub first_leader: String,
    pub second_table_id: String,
    pub second_state: String,
    pub second_leader: String,
}

impl View for TabletsDiff {
    type V = Sides<TabletSide>;

    open spec fn view(&self) -> Sides<TabletSide> {
        Sides {
            first: TabletSide {
                table_id: self.first_table_id@,
                state: self.first_state@,
                leader: self.first_leader@,
            },
            second: TabletSide {
                table_id: self.second_table_id@,
                state: self.second_state@,
                leader: self.second_leader@,
            },
        }
    }
}

/// The change record of a replica.
#[derive(Clone, Debug)]
pub struct ReplicasDiff {
    pub first_addr: String,
    pub first_replica_type: String,
    pub second_addr: String,
    pub second_replica_type: String,
}

impl View for ReplicasDiff {
    type V = Sides<ReplicaSide>;

    open spec fn view(&self) -> Sides<ReplicaSide> {
        Sides {
            first: ReplicaSide { addr: self.first_addr@, replica_type: self.first_replica_type@ },
            second: ReplicaSide { addr: self.second_addr@, replica_type: self.second_replica_type@ },
        }
    }
}

/// What a keyspace row says, as one side of a change record.
pub open spec fn keyspace_side(k: KeyspacesView) -> KeyspaceSide {
    KeyspaceSide { name: k.keyspace_name, kind: k.keyspace_type }
}

/// What a table row says, as one side of a change record.
pub open spec fn table_side(t: TablesView) -> TableSide {
    TableSide { keyspace_id: t.keyspace_id, name: t.table_name, state: t.state }
}

/// What a tablet row says, as one side of a change record.
pub open spec fn tablet_side(t: TabletsView) -> TabletSide {
    TabletSide { table_id: t.table_id, state: t.state, leader: t.leader_id() }
}

/// What a replica row says, as one side of a change record.
pub open spec fn replica_side(r: ReplicasView) -> ReplicaSide {
    ReplicaSide { addr: r.addr, replica_type: r.replica_type }
}

/// Whether a string is empty.
pub fn is_blank(s: &String) -> (r: bool)
    ensures
        r == (s@ == Seq::<char>::empty()),
{
    let r = s.as_str().is_empty();
    assert(r == (s@ =~= Seq::<char>::empty()));
    r
}

/// The node of the replica that leads a tablet, empty where the tablet
/// reports none.
pub fn leader_of(tablet: &Tablets) -> (r: String)
    ensures
        r@ == tablet@.leader_id(),
{
    match &tablet.leader {
        Some(l) => l.clone(),
        None => String::new(),
    }
}

impl KeyspaceDiff {
    /// A record of which neither side has seen anything.
    pub fn new() -> (r: Self)
        ensures
            r@ == Sides::blank(KeyspaceSide::zero()),
    {
        KeyspaceDiff {
            first_keyspace_name: String::new(),
            first_keyspace_type: String::new(),
            second_keyspace_name: String::new(),
            second_keyspace_type: String::new(),
        }
    }

    /// Whether one side has seen nothing of the keyspace.
    pub fn is_zero(&self, side: Side) -> (r: bool)
        ensures
            r == (self@.get(side) == KeyspaceSide::zero()),
    {
        match side {
            Side::First => is_blank(&self.first_keyspace_name) && is_blank(
                &self.first_keyspace_type,
            ),
            Side::Second => is_blank(&self.second_keyspace_name) && is_blank(
                &self.second_keyspace_type,
            ),
        }
    }

    /// The record with one side filled from a row.
    pub fn with_side(&self, side: Side, row: &Keyspaces) -> (r: Self)
        ensures
            r@ == self@.set(side, keyspace_side(row@)),
    {
        match side {
            Side::First => KeyspaceDiff {
                first_keyspace_name: row.keyspace_name.clone(),
                first_keyspace_type: row.keyspace_type.clone(),
                second_keyspace_name: self.second_keyspace_name.clone(),
                second_keyspace_type: self.second_keyspace_type.clone(),
            },
            Side::Second => KeyspaceDiff {
                first_keyspace_name: self.first_keyspace_name.clone(),
                first_keyspace_type: self.first_keyspace_type.clone(),
                second_keyspace_name: row.keyspace_name.clone(),
                second_keyspace_type: row.keyspace_type.clone(),
            },
        }
    }

    /// The name on one side.
    pub fn name(&self, side: Side) -> (r: &String)
        ensures
            r@ == self@.get(side).name,
    {
        match side {
            Side::First => &self.first_keyspace_name,
            Side::Second => &self.second_keyspace_name,
        }
    }

    /// The type on one side.
    pub fn kind(&self, side: Side) -> (r: &String)
        ensures
            r@ == self@.get(side).kind,
    {
        match side {
            Side::First => &self.first_keyspace_type,
            Side::Second => &self.second_keyspace_type,
        }
    }

    /// Whether both sides say the same.
    pub fn is_same(&self) -> (r: bool)
        ensures
            r == (self@.first == self@.second),
    {
        self.first_keyspace_name == self.second_keyspace_name && self.first_keyspace_type
            == self.second_keyspace_type
    }
}

impl TablesDiff {
    /// A record of which neither side has seen anything.
    pub fn new() -> (r: Self)
        ensures
            r@ == Sides::blank(TableSide::zero()),
    {
        TablesDiff {
            first_keyspace_id: String::new(),
            first_table_name: String::new(),
            first_state: String::new(),
            second_keyspace_id: String::new(),
            second_table_name: String::new(),
            second_state: String::new(),
        }
    }

    /// Whether one side has seen nothing of the table.
    pub fn is_zero(&self, side: Side) -> (r: bool)
        ensures
            r == (self@.get(side) == TableSide::zero()),
    {
        match side {
            Side::First => is_blank(&self.first_keyspace_id) && is_blank(&self.first_table_name)
                && is_blank(&self.first_state),
            Side::Second => is_blank(&self.second_keyspace_id) && is_blank(
                &self.second_table_name,
            ) && is_blank(&self.second_state),
        }
    }

    /// The record with one side filled from a row.
    pub fn with_side(&self, side: Side, row: &Tables) -> (r: Self)
        ensures
            r@ == self@.set(side, table_side(row@)),
    {
        match side {
            Side::First => TablesDiff {
                first_keyspace_id: row.keyspace_id.clone(),
                first_table_name: row.table_name.clone(),
                first_state: row.state.clone(),
                second_keyspace_id: self.second_keyspace_id.clone(),
                second_table_name: self.second_table_name.clone(),
                second_state: self.second_state.clone(),
            },
            Side::Second => TablesDiff {
                first_keyspace_id: self.first_keyspace_id.clone(),
                first_table_name: self.first_table_name.clone(),
                first_state: self.first_state.clone(),
                second_keyspace_id: row.keyspace_id.clone(),
                second_table_name: row.table_name.clone(),
                second_state: row.state.clone(),
            },
        }
    }

    /// The keyspace on one side.
    pub fn keyspace_id(&self, side: Side) -> (r: &String)
        ensures
            r@ == self@.get(side).keyspace_id,
    {
        match side {
            Side::First => &self.first_keyspace_id,
            Side::Second => &self.second_keyspace_id,
        }
    }

    /// The name on one side.
    pub fn name(&self, side: Side) -> (r: &String)
        ensures
            r@ == self@.get(side).name,
    {
        match side {
            Side::First => &self.first_table_name,
            Side::Second => &self.second_table_name,
        }
    }

    /// The state on one side.
    pub fn state(&self, side: Side) -> (r: &String)
        ensures
            r@ == self@.get(side).state,
    {
        match side {
            Side::First => &self.first_state,
            Side::Second => &self.second_state,
        }
    }

    /// Whether both sides say the same.
    pub fn is_same(&self) -> (r: bool)
        ensures
            r == (self@.first == self@.second),
    {
        self.first_keyspace_id == self.second_keyspace_id && self.first_table_name
            == self.second_table_name && self.first_state == self.second_state
    }
}

impl TabletsDiff {
    /// A record of which neither side has seen anything.
    pub fn new() -> (r: Self)
        ensures
            r@ == Sides::blank(TabletSide::zero()),
    {
        TabletsDiff {
            first_table_id: String::new(),
            first_state: String::new(),
            first_leader: String::new(),
            second_table_id: String::new(),
            second_state: String::new(),
            second_leader: String::new(),
        }
    }

    /// Whether one side has seen nothing of the tablet.
    pub fn is_zero(&self, side: Side) -> (r: bool)
        ensures
            r == (self@.get(side) == TabletSide::zero()),
    {
        match side {
            Side::First => is_blank(&self.first_table_id) && is_blank(&self.first_state)
                && is_blank(&self.first_leader),
            Side::Second => is_blank(&self.second_table_id) && is_blank(&self.second_state)
                && is_blank(&self.second_leader),
        }
    }

    /// The record with one side filled from a row.
    pub fn with_side(&self, side: Side, row: &Tablets) -> (r: Self)
        ensures
            r@ == self@.set(side, tablet_side(row@)),
    {
        match side {
            Side::First => TabletsDiff {
                first_table_id: row.table_id.clone(),
                first_state: row.state.clone(),
                first_leader: leader_of(row),
                second_table_id: self.second_table_id.clone(),
                second_state: self.second_state.clone(),
                second_leader: self.second_leader.clone(),
            },
            Side::Second => TabletsDiff {
                first_table_id: self.first_table_id.clone(),
                first_state: self.first_state.clone(),
                first_leader: self.first_leader.clone(),
                second_table_id: row.table_id.clone(),
                second_state: row.state.clone(),
                second_leader: leader_of(row),
            },
        }
    }

    /// The table on one side.
    pub fn table_id(&self, side: Side) -> (r: &String)
        ensures
            r@ == self@.get(side).table_id,
    {
        match side {
            Side::First => &self.first_table_id,
            Side::Second => &self.second_table_id,
        }
    }

    /// The state on one side.
    pub fn state(&self, side: Side) -> (r: &String)
        ensures
            r@ == self@.get(side).state,
    {
        match side {
            Side::First => &self.first_state,
            Side::Second => &self.second_state,
        }
    }

    /// The leading node on one side.
    pub fn leader(&self, side: Side) -> (r: &String)
        ensures
            r@ == self@.get(side).leader,
    {
        match side {
            Side::First => &self.first_leader,
            Side::Second => &self.second_leader,
        }
    }

    /// Whether both sides say the same.
    pub fn is_same(&self) -> (r: bool)
        ensures
            r == (self@.first == self@.second),
    {
        self.first_table_id == self.second_table_id && self.first_state == self.second_state
            && self.first_leader == self.second_leader
    }
}

impl ReplicasDiff {
    /// A record of which neither side has seen anything.
    pub fn new() -> (r: Self)
        ensures
            r@ == Sides::blank(ReplicaSide::zero()),
    {
        ReplicasDiff {
            first_addr: String::new(),
            first_replica_type: String::new(),
            second_addr: String::new(),
            second_replica_type: String::new(),
        }
    }

    /// Whether one side has seen nothing of the replica.
    pub fn is_zero(&self, side: Side) -> (r: bool)
        ensures
            r == (self@.get(side) == ReplicaSide::zero()),
    {
        match side {
            Side::First => is_blank(&self.first_addr) && is_blank(&self.first_replica_type),
            Side::Second => is_blank(&self.second_addr) && is_blank(&self.second_replica_type),
        }
    }

    /// The record with one side filled from a row.
    pub fn with_side(&self, side: Side, row: &Replicas) -> (r: Self)
        ensures
            r@ == self@.set(side, replica_side(row@)),
    {
        match side {
            Side::First => ReplicasDiff {
                first_addr: row.addr.clone(),
                first_replica_type: row.replica_type.clone(),
                second_addr: self.second_addr.clone(),
                second_replica_type: self.second_replica_type.clone(),
            },
            Side::Second => ReplicasDiff {
                first_addr: self.first_addr.clone(),
                first_replica_type: self.first_replica_type.clone(),
                second_addr: row.addr.clone(),
                second_replica_type: row.replica_type.clone(),
            },
        }
    }

    /// The address on one side.
    pub fn addr(&self, side: Side) -> (r: &String)
        ensures
            r@ == self@.get(side).addr,
    {
        match side {
            Side::First => &self.first_addr,
            Side::Second => &self.second_addr,
        }
    }

    /// The role on one side.
    pub fn replica_type(&self, side: Side) -> (r: &String)
        ensures
            r@ == self@.get(side).replica_type,
    {
        match side {
            Side::First => &self.first_replica_type,
            Side::Second => &self.second_replica_type,
        }
    }

    /// Whether both sides say the same.
    pub fn is_same(&self) -> (r: bool)
        ensures
            r == (self@.first == self@.second),
    {
        self.first_replica_type == self.second_replica_type && self.first_addr == self.second_addr
    }
}

} // verus!
