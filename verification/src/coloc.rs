//! Finding the host that leads a colocated database.
//!
//! The tables of a colocated database share the tablets of the database's
//! colocation root, so the host of the replica that leads the root's tablet
//! is the host to talk to for the whole database.

use vstd::prelude::*;
use crate::identifier::colocation_root;
use crate::identifier::is_colocation_root_shard_id;
use crate::model::AllEntities;
use crate::model::Entities;
use crate::model::EntitiesView;
use crate::model::Keyspaces;
use crate::model::KeyspacesView;
use crate::model::Tablets;
use crate::model::TabletsView;
use crate::model::is_relational;
use crate::model::relational;
use crate::text::same_text;

verus! {

/// Why no leading host was found for a database.
#[derive(Clone, Debug, PartialEq, Eq)]
pub enum ColocationError {
    /// The leading node reported no live database of that name.
    NotFound,
    /// The database, named here, has no colocation root.
    NotColocated(String),
    /// No replica of the colocation root's tablet is its leader.
    NoLeaderHost,
    /// A database of that name has tables but is not relational.
    NotSuitable,
}

/// A failure as the contracts speak of it.
pub enum ColocationErrorView {
    NotFound,
    NotColocated(Seq<char>),
    NoLeaderHost,
    NotSuitable,
}

impl View for ColocationError {
    type V = ColocationErrorView;

    open spec fn view(&self) -> ColocationErrorView {
        match self {
            ColocationError::NotFound => ColocationErrorView::NotFound,
            ColocationError::NotColocated(name) => ColocationErrorView::NotColocated(name@),
            ColocationError::NoLeaderHost => ColocationErrorView::NoLeaderHost,
            ColocationError::NotSuitable => ColocationErrorView::NotSuitable,
        }
    }
}

/// What the failure says to the user.
pub open spec fn error_message(e: ColocationErrorView) -> Seq<char> {
    match e {
        ColocationErrorView::NotFound => "Database name not found."@,
        ColocationErrorView::NotColocated(name) => "Database "@ + name + " is not colocated!"@,
        ColocationErrorView::NoLeaderHost => "No tablet leader host found."@,
        ColocationErrorView::NotSuitable =>
            "Database found, but not suitable for unknown reason. This should not happen."@,
    }
}

impl ColocationError {
    /// What the failure says to the user.
    pub fn message(&self) -> (r: String)
        ensures
            r@ == error_message(self@),
    {
        match self {
            ColocationError::NotFound => String::from_str("Database name not found."),
            ColocationError::NotColocated(name) => {
                let mut r = String::from_str("Database ");
                r.append(name.as_str());
                r.append(" is not colocated!");
                r
            },
            ColocationError::NoLeaderHost => String::from_str("No tablet leader host found."),
            ColocationError::NotSuitable => String::from_str(
                "Database found, but not suitable for unknown reason. This should not happen.",
            ),
        }
    }
}

/// The number of characters of an address before its first colon.
pub open spec fn host_len(addr: Seq<char>) -> nat
    decreases addr.len(),
{
    if addr.len() == 0 || addr[0] == ':' {
        0
    } else {
        1 + host_len(addr.drop_first())
    }
}

/// The host of an address: what stands before its first colon, all of it
/// where it has none.
pub open spec fn host_part(addr: Seq<char>) -> Seq<char> {
    addr.take(host_len(addr) as int)
}

/// An address without a colon among its first `n` characters has a host of
/// these and the host of the rest.
pub proof fn lemma_host_len(addr: Seq<char>, n: int)
    requires
        0 <= n <= addr.len(),
        forall|j: int| 0 <= j < n ==> addr[j] != ':',
    ensures
        host_len(addr) == n + host_len(addr.skip(n)),
    decreases n,
{
    if n == 0 {
        assert(addr.skip(0) =~= addr);
    } else {
        assert forall|j: int| 0 <= j < n - 1 implies addr.drop_first()[j] != ':' by {
            assert(addr.drop_first()[j] == addr[j + 1]);
        }
        lemma_host_len(addr.drop_first(), n - 1);
        assert(addr.drop_first().skip(n - 1) =~= addr.skip(n));
    }
}

/// The host of an address.
pub fn host_of(addr: &str) -> (r: String)
    ensures
        r@ == host_part(addr@),
{
    let n = addr.unicode_len();
    let mut i: usize = 0;
    let mut found = false;
    while i < n && !found
        invariant
            i <= n,
            n == addr@.len(),
            forall|j: int| 0 <= j < i ==> addr@[j] != ':',
            found ==> i < n && addr@[i as int] == ':',
        decreases n - i + (if found { 0int } else { 1int }),
    {
        if addr.get_char(i) == ':' {
            found = true;
        } else {
            i += 1;
        }
    }
    proof {
        lemma_host_len(addr@, i as int);
        if i < n {
            assert(addr@.skip(i as int)[0] == addr@[i as int]);
        }
        assert(addr@.take(i as int) =~= addr@.subrange(0, i as int));
    }
    String::from_str(addr.substring_char(0, i))
}

/// The hosts of those of the first `n` replicas of a tablet that are on the
/// node `leader`, one after the other.
pub open spec fn leader_hosts_upto(tablet: TabletsView, leader: Seq<char>, n: int) -> Seq<char>
    decreases n,
{
    if n <= 0 {
        Seq::empty()
    } else {
        let replica = tablet.replica_list()[n - 1];
        leader_hosts_upto(tablet, leader, n - 1) + (if replica.server_uuid == leader {
            host_part(replica.addr)
        } else {
            Seq::empty()
        })
    }
}

/// The host that leads a tablet: the host of the replica on the node that
/// the tablet names as its leader. It is empty where the tablet names no
/// leader and where no replica is on the node it names.
pub open spec fn leader_host(tablet: TabletsView) -> Seq<char> {
    match tablet.leader {
        Some(leader) => leader_hosts_upto(tablet, leader, tablet.replica_list().len() as int),
        None => Seq::empty(),
    }
}

/// The host that leads a tablet.
pub fn leader_host_of(tablet: &Tablets) -> (r: String)
    ensures
        r@ == leader_host(tablet@),
{
    let mut r = String::new();
    match (&tablet.leader, &tablet.replicas) {
        (Some(leader), Some(replicas)) => {
            let mut i: usize = 0;
            while i < replicas.len()
                invariant
                    i <= replicas.len(),
                    tablet.replicas == Some(*replicas),
                    r@ == leader_hosts_upto(tablet@, leader@, i as int),
                decreases replicas.len() - i,
            {
                let replica = &replicas[i];
                assert(tablet@.replica_list()[i as int] == replica@);
                if same_text(replica.server_uuid.as_str(), leader.as_str()) {
                    let host = host_of(replica.addr.as_str());
                    r.append(host.as_str());
                } else {
                    assert(r@ + Seq::<char>::empty() =~= r@);
                }
                i += 1;
            }
        },
        _ => {},
    }
    r
}

/// The place of the first tablet among the first `n` of an observation
/// that is the colocation root of a keyspace, if there is one.
pub open spec fn root_place(e: EntitiesView, keyspace_id: Seq<char>, n: int) -> Option<int>
    decreases n,
{
    if n <= 0 {
        None
    } else {
        match root_place(e, keyspace_id, n - 1) {
            Some(i) => Some(i),
            None => if colocation_root(keyspace_id, e.tablets[n - 1].table_id) {
                Some(n - 1)
            } else {
                None
            },
        }
    }
}

/// What a failure or a host is, or that the search goes on.
pub type Verdict = Option<Result<Seq<char>, ColocationErrorView>>;

/// What one keyspace decides for a database name. A keyspace of another
/// name decides nothing, nor does one without tables: a dropped database
/// may share its name with a live one. A relational keyspace with tables
/// gives the host that leads its colocation root's first tablet, or fails
/// where it has no root or the root no leading replica. Any other keyspace
/// with tables fails.
pub open spec fn keyspace_verdict(e: EntitiesView, k: KeyspacesView, database: Seq<char>) -> Verdict {
    if k.keyspace_name != database {
        None
    } else if !e.has_tables(k.keyspace_id) {
        None
    } else if k.keyspace_type != relational() {
        Some(Err(ColocationErrorView::NotSuitable))
    } else {
        match root_place(e, k.keyspace_id, e.tablets.len() as int) {
            None => Some(Err(ColocationErrorView::NotColocated(database))),
            Some(i) => if leader_host(e.tablets[i]).len() > 0 {
                Some(Ok(leader_host(e.tablets[i])))
            } else {
                Some(Err(ColocationErrorView::NoLeaderHost))
            },
        }
    }
}

/// What the first `n` keyspaces of an observation decide: the verdict of
/// the first that decides.
pub open spec fn entity_verdict_upto(e: EntitiesView, database: Seq<char>, n: int) -> Verdict
    decreases n,
{
    if n <= 0 {
        None
    } else {
        match entity_verdict_upto(e, database, n - 1) {
            Some(v) => Some(v),
            None => keyspace_verdict(e, e.keyspaces[n - 1], database),
        }
    }
}

/// What an observation decides.
pub open spec fn entity_verdict(e: EntitiesView, database: Seq<char>) -> Verdict {
    entity_verdict_upto(e, database, e.keyspaces.len() as int)
}

/// What the first `n` observations of a pass decide: the verdict of the
/// first that the leading node reported and that decides.
pub open spec fn pass_verdict_upto(
    all: Seq<EntitiesView>,
    leader: Seq<char>,
    database: Seq<char>,
    n: int,
) -> Verdict
    decreases n,
{
    if n <= 0 {
        None
    } else {
        match pass_verdict_upto(all, leader, database, n - 1) {
            Some(v) => Some(v),
            None => if all[n - 1].reported_by(leader) {
                entity_verdict(all[n - 1], database)
            } else {
                None
            },
        }
    }
}

/// The host that leads a colocated database, or why there is none.
pub open spec fn coloc_leader_host(all: Seq<EntitiesView>, leader: Seq<char>, database: Seq<char>) -> Result<
    Seq<char>,
    ColocationErrorView,
> {
    match pass_verdict_upto(all, leader, database, all.len() as int) {
        Some(v) => v,
        None => Err(ColocationErrorView::NotFound),
    }
}

/// A result as the contracts speak of it.
pub open spec fn outcome(r: Result<String, ColocationError>) -> Result<Seq<char>, ColocationErrorView> {
    match r {
        Ok(host) => Ok(host@),
        Err(e) => Err(e@),
    }
}

/// A verdict as the contracts speak of it.
pub open spec fn outcome_of(r: Option<Result<String, ColocationError>>) -> Verdict {
    match r {
        Some(v) => Some(outcome(v)),
        None => None,
    }
}

impl Entities {
    /// The first tablet that is the colocation root of a keyspace, if
    /// there is one.
    pub fn find_colocation_root(&self, keyspace_id: &str) -> (r: Option<&Tablets>)
        ensures
            match root_place(self@, keyspace_id@, self@.tablets.len() as int) {
                Some(i) => r is Some && r->0@ == self@.tablets[i],
                None => r is None,
            },
    {
        let mut i: usize = 0;
        while i < self.tablets.len()
            invariant
                i <= self.tablets.len(),
                root_place(self@, keyspace_id@, i as int) is None,
            decreases self.tablets.len() - i,
        {
            assert(self@.tablets[i as int] == self.tablets[i as int]@);
            if is_colocation_root_shard_id(keyspace_id, self.tablets[i].table_id.as_str()) {
                proof {
                    lemma_root_place_found(self@, keyspace_id@, i as int, self@.tablets.len() as int);
                }
                return Some(&self.tablets[i]);
            }
            i += 1;
        }
        None
    }

    /// What one keyspace decides for a database name.
    fn keyspace_verdict(&self, keyspace: &Keyspaces, database: &str) -> (r: Option<
        Result<String, ColocationError>,
    >)
        ensures
            outcome_of(r) == keyspace_verdict(self@, keyspace@, database@),
    {
        if !same_text(keyspace.keyspace_name.as_str(), database) {
            return None;
        }
        if !self.has_tables(keyspace.keyspace_id.as_str()) {
            return None;
        }
        if !is_relational(keyspace.keyspace_type.as_str()) {
            return Some(Err(ColocationError::NotSuitable));
        }
        match self.find_colocation_root(keyspace.keyspace_id.as_str()) {
            None => Some(Err(ColocationError::NotColocated(String::from_str(database)))),
            Some(tablet) => {
                let host = leader_host_of(tablet);
                if host.as_str().is_empty() {
                    Some(Err(ColocationError::NoLeaderHost))
                } else {
                    Some(Ok(host))
                }
            },
        }
    }

    /// What the observation decides for a database name.
    fn database_verdict(&self, database: &str) -> (r: Option<Result<String, ColocationError>>)
        ensures
            outcome_of(r) == entity_verdict(self@, database@),
    {
        let mut i: usize = 0;
        while i < self.keyspaces.len()
            invariant
                i <= self.keyspaces.len(),
                entity_verdict_upto(self@, database@, i as int) is None,
            decreases self.keyspaces.len() - i,
        {
            assert(self@.keyspaces[i as int] == self.keyspaces[i as int]@);
            let verdict = self.keyspace_verdict(&self.keyspaces[i], database);
            if verdict.is_some() {
                proof {
                    lemma_entity_verdict_found(
                        self@,
                        database@,
                        i as int,
                        self@.keyspaces.len() as int,
                    );
                }
                return verdict;
            }
            i += 1;
        }
        None
    }
}

/// Once the first colocation root is found at `i`, looking further finds
/// the same one.
proof fn lemma_root_place_found(e: EntitiesView, keyspace_id: Seq<char>, i: int, n: int)
    requires
        0 <= i < n <= e.tablets.len(),
        root_place(e, keyspace_id, i) is None,
        colocation_root(keyspace_id, e.tablets[i].table_id),
    ensures
        root_place(e, keyspace_id, n) == Some(i),
    decreases n,
{
    if n > i + 1 {
        lemma_root_place_found(e, keyspace_id, i, n - 1);
    }
}

/// Once a keyspace decides, the keyspaces after it are not asked.
proof fn lemma_entity_verdict_found(e: EntitiesView, database: Seq<char>, i: int, n: int)
    requires
        0 <= i < n <= e.keyspaces.len(),
        entity_verdict_upto(e, database, i) is None,
        keyspace_verdict(e, e.keyspaces[i], database) is Some,
    ensures
        entity_verdict_upto(e, database, n) == keyspace_verdict(e, e.keyspaces[i], database),
    decreases n,
{
    if n > i + 1 {
        lemma_entity_verdict_found(e, database, i, n - 1);
    }
}

/// Once an observation decides, the observations after it are not asked.
proof fn lemma_pass_verdict_found(
    all: Seq<EntitiesView>,
    leader: Seq<char>,
    database: Seq<char>,
    i: int,
    n: int,
)
    requires
        0 <= i < n <= all.len(),
        pass_verdict_upto(all, leader, database, i) is None,
        all[i].reported_by(leader),
        entity_verdict(all[i], database) is Some,
    ensures
        pass_verdict_upto(all, leader, database, n) == entity_verdict(all[i], database),
    decreases n,
{
    if n > i + 1 {
        lemma_pass_verdict_found(all, leader, database, i, n - 1);
    }
}

impl AllEntities {
    /// The host that leads the colocated database `colocated_database`, as
    /// the node `leader_hostname` reported it: the host of the replica that
    /// leads the first tablet of the database's colocation root. Keyspaces
    /// of that name without tables are passed over as dropped. Fails where
    /// no keyspace of that name has tables, where the first that has is not
    /// relational or has no colocation root, and where no replica of the
    /// root's tablet leads it.
    pub fn print_coloc_leader_host(&self, leader_hostname: String, colocated_database: &str) -> (r:
        Result<String, ColocationError>)
        ensures
            outcome(r) == coloc_leader_host(self@, leader_hostname@, colocated_database@),
    {
        let mut i: usize = 0;
        while i < self.entities.len()
            invariant
                i <= self.entities.len(),
                pass_verdict_upto(self@, leader_hostname@, colocated_database@, i as int) is None,
            decreases self.entities.len() - i,
        {
            let entity = &self.entities[i];
            assert(self@[i as int] == entity@);
            if entity.is_reported_by(leader_hostname.as_str()) {
                match entity.database_verdict(colocated_database) {
                    Some(verdict) => {
                        proof {
                            lemma_pass_verdict_found(
                                self@,
                                leader_hostname@,
                                colocated_database@,
                                i as int,
                                self@.len() as int,
                            );
                        }
                        return verdict;
                    },
                    None => {},
                }
            }
            i += 1;
        }
        Err(ColocationError::NotFound)
    }
}

} // verus!
