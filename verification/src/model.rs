//! One observation of a cluster's topology: its databases, tables, shards
//! and shard replicas as one node reported them, and what follows from them.
//!
//! A database is called a keyspace here and a shard a tablet, as on the
//! wire. A keyspace of type `ysql` stays listed after it was dropped and is
//! then known by having no tables; a keyspace of any other type leaves the
//! list when it is dropped.

use vstd::prelude::*;
use crate::identifier::colocation_root;
use crate::identifier::is_colocation_root_shard_id;
use crate::text::same_text;
use crate::views::lemma_views_push;
use crate::views::views;

verus! {

/// The type of the keyspaces that stay listed after a drop.
pub open spec fn relational() -> Seq<char> {
    "ysql"@
}

/// Whether a keyspace type is the relational one.
pub fn is_relational(keyspace_type: &str) -> (r: bool)
    ensures
        r == (keyspace_type@ == relational()),
{
    same_text(keyspace_type, "ysql")
}

/// A database.
#[derive(Clone, Debug)]
pub struct Keyspaces {
    pub keyspace_id: String,
    pub keyspace_name: String,
    pub keyspace_type: String,
}

/// A database as the contracts speak of it.
pub struct KeyspacesView {
    pub keyspace_id: Seq<char>,
    pub keyspace_name: Seq<char>,
    pub keyspace_type: Seq<char>,
}

impl View for Keyspaces {
    type V = KeyspacesView;

    open spec fn view(&self) -> KeyspacesView {
        KeyspacesView {
            keyspace_id: self.keyspace_id@,
            keyspace_name: self.keyspace_name@,
            keyspace_type: self.keyspace_type@,
        }
    }
}

/// A table, with the database it belongs to.
#[derive(Clone, Debug)]
pub struct Tables {
    pub table_id: String,
    pub keyspace_id: String,
    pub table_name: String,
    pub state: String,
}

/// A table as the contracts speak of it.
pub struct TablesView {
    pub table_id: Seq<char>,
    pub keyspace_id: Seq<char>,
    pub table_name: Seq<char>,
    pub state: Seq<char>,
}

impl View for Tables {
    type V = TablesView;

    open spec fn view(&self) -> TablesView {
        TablesView {
            table_id: self.table_id@,
            keyspace_id: self.keyspace_id@,
            table_name: self.table_name@,
            state: self.state@,
        }
    }
}

/// One copy of a shard on one node.
#[derive(Clone, Debug)]
pub struct Replicas {
    pub replica_type: String,
    pub server_uuid: String,
    pub addr: String,
}

/// A replica as the contracts speak of it.
pub struct ReplicasView {
    pub replica_type: Seq<char>,
    pub server_uuid: Seq<char>,
    pub addr: Seq<char>,
}

impl View for Replicas {
    type V = ReplicasView;

    open spec fn view(&self) -> ReplicasView {
        ReplicasView {
            replica_type: self.replica_type@,
            server_uuid: self.server_uuid@,
            addr: self.addr@,
        }
    }
}

/// A shard, with the table it belongs to, its replicas and the node of the
/// replica that leads it.
#[derive(Clone, Debug)]
pub struct Tablets {
    pub table_id: String,
    pub tablet_id: String,
    pub state: String,
    pub replicas: Option<Vec<Replicas>>,
    pub leader: Option<String>,
}

/// A shard as the contracts speak of it.
pub struct TabletsView {
    pub table_id: Seq<char>,
    pub tablet_id: Seq<char>,
    pub state: Seq<char>,
    pub replicas: Option<Seq<ReplicasView>>,
    pub leader: Option<Seq<char>>,
}

impl TabletsView {
    /// The replicas, none where the shard reports no list of them.
    pub open spec fn replica_list(self) -> Seq<ReplicasView> {
        match self.replicas {
            Some(l) => l,
            None => Seq::empty(),
        }
    }

    /// The leading node's identifier, empty where the shard reports none.
    pub open spec fn leader_id(self) -> Seq<char> {
        match self.leader {
            Some(l) => l,
            None => Seq::empty(),
        }
    }
}

impl View for Tablets {
    type V = TabletsView;

    open spec fn view(&self) -> TabletsView {
        TabletsView {
            table_id: self.table_id@,
            tablet_id: self.tablet_id@,
            state: self.state@,
            replicas: match self.replicas {
                Some(l) => Some(views(l@)),
                None => None,
            },
            leader: match self.leader {
                Some(l) => Some(l@),
                None => None,
            },
        }
    }
}

/// What one node reported at one instant.
#[derive(Clone, Debug)]
pub struct Entities {
    /// The node that reported, as `host:port`.
    pub hostname_port: Option<String>,
    /// When it reported, in milliseconds since the Unix epoch.
    pub timestamp: Option<i64>,
    pub keyspaces: Vec<Keyspaces>,
    pub tables: Vec<Tables>,
    pub tablets: Vec<Tablets>,
}

/// An observation as the contracts speak of it.
pub struct EntitiesView {
    pub hostname_port: Option<Seq<char>>,
    pub timestamp: Option<i64>,
    pub keyspaces: Seq<KeyspacesView>,
    pub tables: Seq<TablesView>,
    pub tablets: Seq<TabletsView>,
}

impl View for Entities {
    type V = EntitiesView;

    open spec fn view(&self) -> EntitiesView {
        EntitiesView {
            hostname_port: match self.hostname_port {
                Some(h) => Some(h@),
                None => None,
            },
            timestamp: self.timestamp,
            keyspaces: views(self.keyspaces@),
            tables: views(self.tables@),
            tablets: views(self.tablets@),
        }
    }
}

impl EntitiesView {
    /// An observation that holds nothing and names no node.
    pub open spec fn empty() -> EntitiesView {
        EntitiesView {
            hostname_port: None,
            timestamp: None,
            keyspaces: Seq::empty(),
            tables: Seq::empty(),
            tablets: Seq::empty(),
        }
    }

    /// Whether the node answered in full: it reported at least one
    /// keyspace, one table and one tablet.
    pub open spec fn complete(self) -> bool {
        self.keyspaces.len() > 0 && self.tables.len() > 0 && self.tablets.len() > 0
    }

    /// Whether the observation comes from the node `node`.
    pub open spec fn reported_by(self, node: Seq<char>) -> bool {
        self.hostname_port == Some(node)
    }

    /// The node that reported, empty where the observation names none.
    pub open spec fn source(self) -> Seq<char> {
        match self.hostname_port {
            Some(h) => h,
            None => Seq::empty(),
        }
    }

    /// Whether some table belongs to the keyspace.
    pub open spec fn has_tables(self, keyspace_id: Seq<char>) -> bool {
        exists|i: int| 0 <= i < self.tables.len() && (#[trigger] self.tables[i]).keyspace_id == keyspace_id
    }

    /// Whether some tablet belongs to the table.
    pub open spec fn has_tablets(self, table_id: Seq<char>) -> bool {
        exists|i: int| 0 <= i < self.tablets.len() && (#[trigger] self.tablets[i]).table_id == table_id
    }

    /// Whether some tablet is the colocation root of the keyspace.
    pub open spec fn has_colocation_root(self, keyspace_id: Seq<char>) -> bool {
        exists|i: int|
            0 <= i < self.tablets.len() && colocation_root(
                keyspace_id,
                (#[trigger] self.tablets[i]).table_id,
            )
    }

    /// Whether a keyspace is relational and still has tables.
    pub open spec fn live_relational(self, keyspace: KeyspacesView) -> bool {
        keyspace.keyspace_type == relational() && self.has_tables(keyspace.keyspace_id)
    }

    /// Whether a keyspace is a dropped one that is still listed: it is
    /// relational and no table belongs to it.
    pub open spec fn dropped(self, keyspace: KeyspacesView) -> bool {
        keyspace.keyspace_type == relational() && !self.has_tables(keyspace.keyspace_id)
    }

    /// Whether a keyspace is colocated: it is relational, has a table, and
    /// some tablet is its colocation root.
    pub open spec fn colocated(self, keyspace: KeyspacesView) -> bool {
        self.live_relational(keyspace) && self.has_colocation_root(keyspace.keyspace_id)
    }

    /// The place of the first keyspace with an identifier among the first
    /// `n`, if there is one.
    pub open spec fn keyspace_place(self, keyspace_id: Seq<char>, n: int) -> Option<int>
        decreases n,
    {
        if n <= 0 {
            None
        } else {
            match self.keyspace_place(keyspace_id, n - 1) {
                Some(i) => Some(i),
                None => if self.keyspaces[n - 1].keyspace_id == keyspace_id {
                    Some(n - 1)
                } else {
                    None
                },
            }
        }
    }

    /// The type of the first keyspace with an identifier, empty where there
    /// is none.
    pub open spec fn keyspace_type_of(self, keyspace_id: Seq<char>) -> Seq<char> {
        match self.keyspace_place(keyspace_id, self.keyspaces.len() as int) {
            Some(i) => self.keyspaces[i].keyspace_type,
            None => Seq::empty(),
        }
    }

    /// The name of the first keyspace with an identifier, empty where there
    /// is none.
    pub open spec fn keyspace_name_of(self, keyspace_id: Seq<char>) -> Seq<char> {
        match self.keyspace_place(keyspace_id, self.keyspaces.len() as int) {
            Some(i) => self.keyspaces[i].keyspace_name,
            None => Seq::empty(),
        }
    }
}

impl Entities {
    /// An observation that holds nothing and names no node.
    pub fn new() -> (r: Self)
        ensures
            r@ == EntitiesView::empty(),
    {
        let r = Entities {
            hostname_port: None,
            timestamp: None,
            keyspaces: Vec::new(),
            tables: Vec::new(),
            tablets: Vec::new(),
        };
        proof {
            assert(r@.keyspaces =~= Seq::empty());
            assert(r@.tables =~= Seq::empty());
            assert(r@.tablets =~= Seq::empty());
        }
        r
    }

    /// Whether the node answered in full.
    pub fn is_complete(&self) -> (r: bool)
        ensures
            r == self@.complete(),
    {
        self.keyspaces.len() > 0 && self.tables.len() > 0 && self.tablets.len() > 0
    }

    /// Whether the observation comes from the node `node`.
    pub fn is_reported_by(&self, node: &str) -> (r: bool)
        ensures
            r == self@.reported_by(node@),
    {
        match &self.hostname_port {
            Some(h) => same_text(h.as_str(), node),
            None => false,
        }
    }

    /// The node that reported, empty where the observation names none.
    pub fn source(&self) -> (r: &str)
        ensures
            r@ == self@.source(),
    {
        proof {
            reveal_strlit("");
        }
        match &self.hostname_port {
            Some(h) => h.as_str(),
            None => {
                assert(""@ =~= Seq::<char>::empty());
                ""
            },
        }
    }

    /// Whether some table belongs to the keyspace.
    pub fn has_tables(&self, keyspace_id: &str) -> (r: bool)
        ensures
            r == self@.has_tables(keyspace_id@),
    {
        let mut i: usize = 0;
        while i < self.tables.len()
            invariant
                i <= self.tables.len(),
                forall|j: int| 0 <= j < i ==> (#[trigger] self@.tables[j]).keyspace_id != keyspace_id@,
            decreases self.tables.len() - i,
        {
            if same_text(self.tables[i].keyspace_id.as_str(), keyspace_id) {
                assert(self@.tables[i as int].keyspace_id == keyspace_id@);
                return true;
            }
            i += 1;
        }
        false
    }

    /// Whether some tablet belongs to the table.
    pub fn has_tablets(&self, table_id: &str) -> (r: bool)
        ensures
            r == self@.has_tablets(table_id@),
    {
        let mut i: usize = 0;
        while i < self.tablets.len()
            invariant
                i <= self.tablets.len(),
                forall|j: int| 0 <= j < i ==> (#[trigger] self@.tablets[j]).table_id != table_id@,
            decreases self.tablets.len() - i,
        {
            if same_text(self.tablets[i].table_id.as_str(), table_id) {
                assert(self@.tablets[i as int].table_id == table_id@);
                return true;
            }
            i += 1;
        }
        false
    }

    /// Whether some tablet is the colocation root of the keyspace.
    pub fn has_colocation_root(&self, keyspace_id: &str) -> (r: bool)
        ensures
            r == self@.has_colocation_root(keyspace_id@),
    {
        let mut i: usize = 0;
        while i < self.tablets.len()
            invariant
                i <= self.tablets.len(),
                forall|j: int|
                    0 <= j < i ==> !colocation_root(
                        keyspace_id@,
                        (#[trigger] self@.tablets[j]).table_id,
                    ),
            decreases self.tablets.len() - i,
        {
            if is_colocation_root_shard_id(keyspace_id, self.tablets[i].table_id.as_str()) {
                assert(colocation_root(keyspace_id@, self@.tablets[i as int].table_id));
                return true;
            }
            i += 1;
        }
        false
    }

    /// Whether a keyspace is a dropped one that is still listed.
    pub fn is_dropped_database(&self, database: &Keyspaces) -> (r: bool)
        ensures
            r == self@.dropped(database@),
    {
        is_relational(database.keyspace_type.as_str()) && !self.has_tables(
            database.keyspace_id.as_str(),
        )
    }

    /// Whether a keyspace is colocated: its tables without tablets of their
    /// own share the tablets of the keyspace's colocation root.
    pub fn is_colocated_database(&self, database: &Keyspaces) -> (r: bool)
        ensures
            r == self@.colocated(database@),
    {
        is_relational(database.keyspace_type.as_str()) && self.has_tables(
            database.keyspace_id.as_str(),
        ) && self.has_colocation_root(database.keyspace_id.as_str())
    }

    /// The first keyspace with an identifier, if there is one.
    pub fn find_keyspace(&self, keyspace_id: &str) -> (r: Option<&Keyspaces>)
        ensures
            match self@.keyspace_place(keyspace_id@, self@.keyspaces.len() as int) {
                Some(i) => r is Some && r->0@ == self@.keyspaces[i],
                None => r is None,
            },
    {
        let mut i: usize = 0;
        while i < self.keyspaces.len()
            invariant
                i <= self.keyspaces.len(),
                self@.keyspace_place(keyspace_id@, i as int) is None,
            decreases self.keyspaces.len() - i,
        {
            if same_text(self.keyspaces[i].keyspace_id.as_str(), keyspace_id) {
                proof {
                    assert(self@.keyspaces[i as int].keyspace_id == keyspace_id@);
                    lemma_keyspace_place_found(self@, keyspace_id@, i as int, self@.keyspaces.len() as int);
                }
                return Some(&self.keyspaces[i]);
            }
            assert(self@.keyspaces[i as int].keyspace_id != keyspace_id@);
            i += 1;
        }
        None
    }
}

impl Entities {
    /// The type of the first keyspace with an identifier, empty where
    /// there is none.
    pub fn keyspace_type_of(&self, keyspace_id: &str) -> (r: String)
        ensures
            r@ == self@.keyspace_type_of(keyspace_id@),
    {
        match self.find_keyspace(keyspace_id) {
            Some(k) => k.keyspace_type.clone(),
            None => String::new(),
        }
    }

    /// The name of the first keyspace with an identifier, empty where
    /// there is none.
    pub fn keyspace_name_of(&self, keyspace_id: &str) -> (r: String)
        ensures
            r@ == self@.keyspace_name_of(keyspace_id@),
    {
        match self.find_keyspace(keyspace_id) {
            Some(k) => k.keyspace_name.clone(),
            None => String::new(),
        }
    }
}

/// Once the first keyspace with an identifier is found at `i`, looking
/// further finds the same one.
proof fn lemma_keyspace_place_found(e: EntitiesView, keyspace_id: Seq<char>, i: int, n: int)
    requires
        0 <= i < n <= e.keyspaces.len(),
        e.keyspace_place(keyspace_id, i) is None,
        e.keyspaces[i].keyspace_id == keyspace_id,
    ensures
        e.keyspace_place(keyspace_id, n) == Some(i),
    decreases n,
{
    if n > i + 1 {
        lemma_keyspace_place_found(e, keyspace_id, i, n - 1);
    }
}

impl Default for Entities {
    /// An observation that holds nothing and names no node.
    fn default() -> (r: Self)
        ensures
            r@ == EntitiesView::empty(),
    {
        Entities::new()
    }
}

/// The tables among the first `n` of an observation that belong to a
/// keyspace, in their order.
pub open spec fn tables_of_upto(e: EntitiesView, keyspace_id: Seq<char>, n: int) -> Seq<TablesView>
    decreases n,
{
    if n <= 0 {
        Seq::empty()
    } else if e.tables[n - 1].keyspace_id == keyspace_id {
        tables_of_upto(e, keyspace_id, n - 1).push(e.tables[n - 1])
    } else {
        tables_of_upto(e, keyspace_id, n - 1)
    }
}

/// The tablets among the first `n` of an observation that belong to a
/// table, in their order.
pub open spec fn tablets_of_upto(e: EntitiesView, table_id: Seq<char>, n: int) -> Seq<TabletsView>
    decreases n,
{
    if n <= 0 {
        Seq::empty()
    } else if e.tablets[n - 1].table_id == table_id {
        tablets_of_upto(e, table_id, n - 1).push(e.tablets[n - 1])
    } else {
        tablets_of_upto(e, table_id, n - 1)
    }
}

/// The replicas of those among the first `n` tablets of an observation
/// that have an identifier, in their order.
pub open spec fn replicas_of_upto(e: EntitiesView, tablet_id: Seq<char>, n: int) -> Seq<ReplicasView>
    decreases n,
{
    if n <= 0 {
        Seq::empty()
    } else if e.tablets[n - 1].tablet_id == tablet_id {
        replicas_of_upto(e, tablet_id, n - 1) + e.tablets[n - 1].replica_list()
    } else {
        replicas_of_upto(e, tablet_id, n - 1)
    }
}

impl Entities {
    /// The tables of a keyspace, in the order of the observation.
    pub fn tables_of(&self, keyspace_id: &str) -> (r: Vec<&Tables>)
        ensures
            views(r@) == tables_of_upto(self@, keyspace_id@, self@.tables.len() as int),
    {
        let mut out: Vec<&Tables> = Vec::new();
        let mut i: usize = 0;
        assert(views(out@) =~= Seq::<TablesView>::empty());
        while i < self.tables.len()
            invariant
                i <= self.tables.len(),
                views(out@) == tables_of_upto(self@, keyspace_id@, i as int),
            decreases self.tables.len() - i,
        {
            assert(self@.tables[i as int] == self.tables[i as int]@);
            if same_text(self.tables[i].keyspace_id.as_str(), keyspace_id) {
                proof {
                    lemma_views_push(out@, &self.tables[i as int]);
                }
                out.push(&self.tables[i]);
            }
            i += 1;
        }
        out
    }

    /// The tablets of a table, in the order of the observation.
    pub fn tablets_of(&self, table_id: &str) -> (r: Vec<&Tablets>)
        ensures
            views(r@) == tablets_of_upto(self@, table_id@, self@.tablets.len() as int),
    {
        let mut out: Vec<&Tablets> = Vec::new();
        let mut i: usize = 0;
        assert(views(out@) =~= Seq::<TabletsView>::empty());
        while i < self.tablets.len()
            invariant
                i <= self.tablets.len(),
                views(out@) == tablets_of_upto(self@, table_id@, i as int),
            decreases self.tablets.len() - i,
        {
            assert(self@.tablets[i as int] == self.tablets[i as int]@);
            if same_text(self.tablets[i].table_id.as_str(), table_id) {
                proof {
                    lemma_views_push(out@, &self.tablets[i as int]);
                }
                out.push(&self.tablets[i]);
            }
            i += 1;
        }
        out
    }

    /// The replicas of a tablet, in the order of the observation.
    pub fn replicas_of(&self, tablet_id: &str) -> (r: Vec<&Replicas>)
        ensures
            views(r@) == replicas_of_upto(self@, tablet_id@, self@.tablets.len() as int),
    {
        let mut out: Vec<&Replicas> = Vec::new();
        let mut i: usize = 0;
        assert(views(out@) =~= Seq::<ReplicasView>::empty());
        while i < self.tablets.len()
            invariant
                i <= self.tablets.len(),
                views(out@) == replicas_of_upto(self@, tablet_id@, i as int),
            decreases self.tablets.len() - i,
        {
            let tablet = &self.tablets[i];
            assert(self@.tablets[i as int] == tablet@);
            if same_text(tablet.tablet_id.as_str(), tablet_id) {
                let ghost before = views(out@);
                match &tablet.replicas {
                    None => {
                        assert(before + tablet@.replica_list() =~= before);
                    },
                    Some(replicas) => {
                        let mut j: usize = 0;
                        assert(before + tablet@.replica_list().take(0) =~= before);
                        while j < replicas.len()
                            invariant
                                j <= replicas.len(),
                                tablet.replicas == Some(*replicas),
                                views(out@) == before + tablet@.replica_list().take(j as int),
                            decreases replicas.len() - j,
                        {
                            proof {
                                lemma_views_push(out@, &replicas[j as int]);
                                assert(tablet@.replica_list()[j as int] == replicas[j as int]@);
                                assert(tablet@.replica_list().take(j + 1)
                                    =~= tablet@.replica_list().take(j as int).push(
                                    replicas[j as int]@,
                                ));
                            }
                            out.push(&replicas[j]);
                            assert(views(out@) =~= before + tablet@.replica_list().take(j + 1));
                            j += 1;
                        }
                        assert(tablet@.replica_list().take(j as int) =~= tablet@.replica_list());
                    },
                }
            }
            i += 1;
        }
        out
    }
}

/// The observations of one pass over the cluster's nodes.
#[derive(Clone, Debug)]
pub struct AllEntities {
    pub entities: Vec<Entities>,
}

impl View for AllEntities {
    type V = Seq<EntitiesView>;

    open spec fn view(&self) -> Seq<EntitiesView> {
        views(self.entities@)
    }
}

impl Default for AllEntities {
    /// A pass without observations.
    fn default() -> (r: Self)
        ensures
            r@ == Seq::<EntitiesView>::empty(),
    {
        AllEntities::new()
    }
}

/// The complete ones among the first `n` observations, in their order.
pub open spec fn complete_upto(all: Seq<EntitiesView>, n: int) -> Seq<EntitiesView>
    decreases n,
{
    if n <= 0 {
        Seq::empty()
    } else if all[n - 1].complete() {
        complete_upto(all, n - 1).push(all[n - 1])
    } else {
        complete_upto(all, n - 1)
    }
}

/// The observations that answered in full, in their order.
pub open spec fn complete_ones(all: Seq<EntitiesView>) -> Seq<EntitiesView> {
    complete_upto(all, all.len() as int)
}

impl AllEntities {
    /// A pass without observations.
    pub fn new() -> (r: Self)
        ensures
            r@ == Seq::<EntitiesView>::empty(),
    {
        let r = AllEntities { entities: Vec::new() };
        assert(r@ =~= Seq::<EntitiesView>::empty());
        r
    }

    /// Gathers what the nodes answered into one pass: an answer that lacks
    /// keyspaces, tables or tablets is taken for a node that did not answer
    /// and is left out; the others are kept in the order they came in.
    pub fn read_entities(answers: Vec<Entities>) -> (r: AllEntities)
        ensures
            r@ == complete_ones(views(answers@)),
    {
        let mut answers = answers;
        let ghost all = views(answers@);
        let mut kept: Vec<Entities> = Vec::new();
        let mut rest: Vec<Entities> = Vec::new();
        let mut n: usize = answers.len();
        // Take the answers from the back, then put the kept ones in order.
        while n > 0
            invariant
                n == answers@.len(),
                n <= all.len(),
                views(answers@) == all.take(n as int),
                complete_ones(all) == complete_upto(all, n as int) + views(rest@).reverse(),
            decreases n,
        {
            let ghost before_answers = answers@;
            let answer = answers.pop().unwrap();
            proof {
                assert forall|i: int| 0 <= i < n implies (#[trigger] before_answers[i])@
                    == all[i] by {
                    assert(views(before_answers)[i] == all.take(n as int)[i]);
                }
                assert(views(answers@) =~= all.take(n - 1));
                assert(answer@ == all[n - 1]);
            }
            if answer.is_complete() {
                let ghost before = views(rest@);
                let ghost rest_before = rest@;
                rest.push(answer);
                proof {
                    assert forall|i: int| 0 <= i < rest_before.len() implies (
                    #[trigger] rest@[i])@ == before[i] by {
                        assert(views(rest_before)[i] == before[i]);
                    }
                    assert(views(rest@) =~= before.push(all[n - 1]));
                    assert(views(rest@).reverse() =~= seq![all[n - 1]] + before.reverse());
                    assert(complete_upto(all, n as int) + before.reverse() =~= complete_upto(
                        all,
                        n - 1,
                    ) + views(rest@).reverse());
                }
            }
            n -= 1;
        }
        let mut m: usize = rest.len();
        while m > 0
            invariant
                m == rest@.len(),
                complete_ones(all) == views(kept@) + views(rest@).reverse(),
            decreases m,
        {
            let ghost before_rest = views(rest@);
            let ghost before_kept = views(kept@);
            let answer = rest.pop().unwrap();
            kept.push(answer);
            proof {
                assert(views(rest@) =~= before_rest.drop_last());
                assert(views(kept@) =~= before_kept.push(before_rest.last()));
                assert(before_rest.reverse() =~= seq![before_rest.last()]
                    + before_rest.drop_last().reverse());
                assert(views(kept@) + views(rest@).reverse() =~= before_kept
                    + before_rest.reverse());
            }
            m -= 1;
        }
        let r = AllEntities { entities: kept };
        proof {
            assert(views(rest@).reverse() =~= Seq::<EntitiesView>::empty());
            assert(r@ =~= views(kept@) + views(rest@).reverse());
        }
        r
    }
}

} // verus!
