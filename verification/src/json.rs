//! Reading an observation from the JSON document that a node answers with.
//!
//! The document is an object with three arrays: `keyspaces`, `tables` and
//! `tablets`. Every keyspace, table and tablet is an object of strings; a
//! tablet may name its `leader` and may hold an array of `replicas`. A
//! document of any other shape gives an empty observation.
//!
//! The text is parsed by `serde_json`. What a parsed value holds is
//! modelled by [`Json`]; the shape of an observation is stated over that
//! model, and the reading is proved against it.
//!
//! Reading the parsed value is not reading through a derived
//! `Deserialize` of the observation: where an object holds a member name
//! twice, the last member counts here and the document is read, while a
//! derived reader refuses the whole document; and a keyspace, table, tablet
//! or replica written as an array of its values is refused here, while a
//! derived reader accepts it.

use vstd::prelude::*;
use serde_json::Value;
use crate::model::AllEntities;
use crate::model::Entities;
use crate::model::EntitiesView;
use crate::model::Keyspaces;
use crate::model::KeyspacesView;
use crate::model::Replicas;
use crate::model::ReplicasView;
use crate::model::Tables;
use crate::model::TablesView;
use crate::model::Tablets;
use crate::model::TabletsView;
use crate::views::lemma_views_push;
use crate::views::views;

verus! {

/// A JSON value of the `serde_json` crate.
#[verifier::external_type_specification]
#[verifier::external_body]
pub struct ExValue(Value);

/// What a JSON value holds.
pub enum Json {
    /// `null`.
    Null,
    /// `true` or `false`.
    Bool(bool),
    /// A number. No number is read from a document, so its value is left
    /// out.
    Number,
    /// A string, by its characters.
    Text(Seq<char>),
    /// An array, by its elements in order.
    Array(Seq<Json>),
    /// An object, by its members under their names.
    Object(Map<Seq<char>, Json>),
}

impl Json {
    /// The member of an object under a name, `None` where the value is no
    /// object or has no such member.
    pub open spec fn member(self, name: Seq<char>) -> Option<Json> {
        match self {
            Json::Object(members) => if members.contains_key(name) {
                Some(members[name])
            } else {
                None
            },
            _ => None,
        }
    }

    /// The elements of an array, `None` where the value is no array.
    pub open spec fn items(self) -> Option<Seq<Json>> {
        match self {
            Json::Array(items) => Some(items),
            _ => None,
        }
    }

    /// The characters of a string, `None` where the value is no string.
    pub open spec fn text(self) -> Option<Seq<char>> {
        match self {
            Json::Text(text) => Some(text),
            _ => None,
        }
    }
}

/// What a `Value` holds.
pub uninterp spec fn json_view(v: Value) -> Json;

/// What the JSON document in a text holds, `None` where the text is no
/// JSON document.
pub uninterp spec fn json_document(text: Seq<char>) -> Option<Json>;

/// What the values of a list hold, one for one.
pub open spec fn json_views(list: Seq<Value>) -> Seq<Json> {
    Seq::new(list.len(), |i: int| json_view(list[i]))
}

/// `serde_json::from_str` for a `Value`: the value that the text is parsed
/// to, `None` where parsing fails. What a text is parsed to is known by the
/// name `json_document` alone.
#[verifier::external_body]
pub(crate) fn parse_value(text: &str) -> (r: Option<Value>)
    ensures
        match r {
            Some(v) => json_document(text@) == Some(json_view(v)),
            None => json_document(text@) is None,
        },
{
    serde_json::from_str::<Value>(text).ok()
}

/// `Value::get` with a name: the member of an object under that name,
/// `None` for a value that is no object and for a name it has not.
#[verifier::external_body]
pub(crate) fn member<'a>(v: &'a Value, name: &str) -> (r: Option<&'a Value>)
    ensures
        match r {
            Some(m) => json_view(*v).member(name@) == Some(json_view(*m)),
            None => json_view(*v).member(name@) is None,
        },
{
    v.get(name)
}

/// `Value::as_array`: the elements of an array, `None` for any other value.
#[verifier::external_body]
pub(crate) fn items(v: &Value) -> (r: Option<&Vec<Value>>)
    ensures
        match r {
            Some(a) => json_view(*v).items() == Some(json_views(a@)),
            None => json_view(*v).items() is None,
        },
{
    v.as_array()
}

/// `Value::as_str`: the characters of a string, `None` for any other value.
#[verifier::external_body]
pub(crate) fn text(v: &Value) -> (r: Option<&str>)
    ensures
        match r {
            Some(s) => json_view(*v).text() == Some(s@),
            None => json_view(*v).text() is None,
        },
{
    v.as_str()
}

/// `Value::is_null`: whether the value is `null`.
#[verifier::external_body]
pub(crate) fn is_null(v: &Value) -> (r: bool)
    ensures
        r == (json_view(*v) == Json::Null),
{
    v.is_null()
}

/// The string under a name in an object, `None` where there is none.
pub open spec fn text_member(v: Json, name: Seq<char>) -> Option<Seq<char>> {
    match v.member(name) {
        Some(m) => m.text(),
        None => None,
    }
}

/// The keyspace that an object writes down, `None` where one of its
/// strings is missing.
pub open spec fn keyspace_of(v: Json) -> Option<KeyspacesView> {
    match (
        text_member(v, "keyspace_id"@),
        text_member(v, "keyspace_name"@),
        text_member(v, "keyspace_type"@),
    ) {
        (Some(keyspace_id), Some(keyspace_name), Some(keyspace_type)) => Some(
            KeyspacesView { keyspace_id, keyspace_name, keyspace_type },
        ),
        _ => None,
    }
}

/// The table that an object writes down, `None` where one of its strings
/// is missing.
pub open spec fn table_of(v: Json) -> Option<TablesView> {
    match (
        text_member(v, "table_id"@),
        text_member(v, "keyspace_id"@),
        text_member(v, "table_name"@),
        text_member(v, "state"@),
    ) {
        (Some(table_id), Some(keyspace_id), Some(table_name), Some(state)) => Some(
            TablesView { table_id, keyspace_id, table_name, state },
        ),
        _ => None,
    }
}

/// The replica that an object writes down, `None` where one of its strings
/// is missing.
pub open spec fn replica_of(v: Json) -> Option<ReplicasView> {
    match (text_member(v, "type"@), text_member(v, "server_uuid"@), text_member(v, "addr"@)) {
        (Some(replica_type), Some(server_uuid), Some(addr)) => Some(
            ReplicasView { replica_type, server_uuid, addr },
        ),
        _ => None,
    }
}

/// The first `n` of a list of replicas, `None` where one of them is
/// malformed.
pub open spec fn replicas_upto(list: Seq<Json>, n: int) -> Option<Seq<ReplicasView>>
    decreases n,
{
    if n <= 0 {
        Some(Seq::empty())
    } else {
        match (replicas_upto(list, n - 1), replica_of(list[n - 1])) {
            (Some(before), Some(replica)) => Some(before.push(replica)),
            _ => None,
        }
    }
}

/// The leader that a tablet names: none where the member is missing or
/// `null`; the outer `None` where it is there and no string.
pub open spec fn leader_of(v: Json) -> Option<Option<Seq<char>>> {
    match v.member("leader"@) {
        None => Some(None),
        Some(m) => if m == Json::Null {
            Some(None)
        } else {
            match m.text() {
                Some(t) => Some(Some(t)),
                None => None,
            }
        },
    }
}

/// The replicas that a tablet holds: none where the member is missing or
/// `null`; the outer `None` where it is there and no array of replicas.
pub open spec fn replicas_of(v: Json) -> Option<Option<Seq<ReplicasView>>> {
    match v.member("replicas"@) {
        None => Some(None),
        Some(m) => if m == Json::Null {
            Some(None)
        } else {
            match m.items() {
                Some(list) => match replicas_upto(list, list.len() as int) {
                    Some(replicas) => Some(Some(replicas)),
                    None => None,
                },
                None => None,
            }
        },
    }
}

/// The tablet that an object writes down, `None` where it is malformed.
pub open spec fn tablet_of(v: Json) -> Option<TabletsView> {
    match (
        text_member(v, "table_id"@),
        text_member(v, "tablet_id"@),
        text_member(v, "state"@),
        replicas_of(v),
        leader_of(v),
    ) {
        (Some(table_id), Some(tablet_id), Some(state), Some(replicas), Some(leader)) => Some(
            TabletsView { table_id, tablet_id, state, replicas, leader },
        ),
        _ => None,
    }
}

/// The first `n` of a list of keyspaces, `None` where one is malformed.
pub open spec fn keyspaces_upto(list: Seq<Json>, n: int) -> Option<Seq<KeyspacesView>>
    decreases n,
{
    if n <= 0 {
        Some(Seq::empty())
    } else {
        match (keyspaces_upto(list, n - 1), keyspace_of(list[n - 1])) {
            (Some(before), Some(keyspace)) => Some(before.push(keyspace)),
            _ => None,
        }
    }
}

/// The first `n` of a list of tables, `None` where one is malformed.
pub open spec fn tables_upto(list: Seq<Json>, n: int) -> Option<Seq<TablesView>>
    decreases n,
{
    if n <= 0 {
        Some(Seq::empty())
    } else {
        match (tables_upto(list, n - 1), table_of(list[n - 1])) {
            (Some(before), Some(table)) => Some(before.push(table)),
            _ => None,
        }
    }
}

/// The first `n` of a list of tablets, `None` where one is malformed.
pub open spec fn tablets_upto(list: Seq<Json>, n: int) -> Option<Seq<TabletsView>>
    decreases n,
{
    if n <= 0 {
        Some(Seq::empty())
    } else {
        match (tablets_upto(list, n - 1), tablet_of(list[n - 1])) {
            (Some(before), Some(tablet)) => Some(before.push(tablet)),
            _ => None,
        }
    }
}

/// The array under a name in an object.
pub open spec fn items_member(v: Json, name: Seq<char>) -> Option<Seq<Json>> {
    match v.member(name) {
        Some(m) => m.items(),
        None => None,
    }
}

/// The observation that a JSON document writes down, naming no node;
/// `None` where the document is malformed.
pub open spec fn topology_of(v: Json) -> Option<EntitiesView> {
    match (
        items_member(v, "keyspaces"@),
        items_member(v, "tables"@),
        items_member(v, "tablets"@),
    ) {
        (Some(k), Some(t), Some(s)) => match (
            keyspaces_upto(k, k.len() as int),
            tables_upto(t, t.len() as int),
            tablets_upto(s, s.len() as int),
        ) {
            (Some(keyspaces), Some(tables), Some(tablets)) => Some(
                EntitiesView { hostname_port: None, timestamp: None, keyspaces, tables, tablets },
            ),
            _ => None,
        },
        _ => None,
    }
}

/// A node's name: its host and its port with a colon between them.
pub open spec fn node_name(host: Seq<char>, port: Seq<char>) -> Seq<char> {
    host + ":"@ + port
}

/// What is taken for a node's answer: what was read from it, or nothing
/// where nothing was, as reported by the node at `host` and `port` at no
/// known time.
pub open spec fn node_report(read: Option<EntitiesView>, host: Seq<char>, port: Seq<char>) -> EntitiesView {
    let e = match read {
        Some(e) => e,
        None => EntitiesView::empty(),
    };
    EntitiesView {
        hostname_port: Some(node_name(host, port)),
        timestamp: None,
        keyspaces: e.keyspaces,
        tables: e.tables,
        tablets: e.tablets,
    }
}

/// The observation that a node's answer gives: what the answer writes
/// down, or nothing where it is no JSON or malformed. It names no node and
/// no time.
pub open spec fn parsed_topology(data: Seq<char>) -> EntitiesView {
    match json_document(data) {
        Some(v) => match topology_of(v) {
            Some(e) => e,
            None => EntitiesView::empty(),
        },
        None => EntitiesView::empty(),
    }
}

/// The string under a name in an object.
fn read_text(v: &Value, name: &str) -> (r: Option<String>)
    ensures
        match r {
            Some(s) => text_member(json_view(*v), name@) == Some(s@),
            None => text_member(json_view(*v), name@) is None,
        },
{
    match member(v, name) {
        Some(m) => match text(m) {
            Some(s) => Some(String::from_str(s)),
            None => None,
        },
        None => None,
    }
}

/// The view of a value that may be missing.
pub open spec fn view_of<T: View>(o: Option<T>) -> Option<T::V> {
    match o {
        Some(t) => Some(t@),
        None => None,
    }
}

/// The keyspace that an object writes down.
fn read_keyspace(v: &Value) -> (r: Option<Keyspaces>)
    ensures
        view_of(r) == keyspace_of(json_view(*v)),
{
    let keyspace_id = read_text(v, "keyspace_id")?;
    let keyspace_name = read_text(v, "keyspace_name")?;
    let keyspace_type = read_text(v, "keyspace_type")?;
    Some(Keyspaces { keyspace_id, keyspace_name, keyspace_type })
}

/// The table that an object writes down.
fn read_table(v: &Value) -> (r: Option<Tables>)
    ensures
        view_of(r) == table_of(json_view(*v)),
{
    let table_id = read_text(v, "table_id")?;
    let keyspace_id = read_text(v, "keyspace_id")?;
    let table_name = read_text(v, "table_name")?;
    let state = read_text(v, "state")?;
    Some(Tables { table_id, keyspace_id, table_name, state })
}

/// The replica that an object writes down.
fn read_replica(v: &Value) -> (r: Option<Replicas>)
    ensures
        view_of(r) == replica_of(json_view(*v)),
{
    let replica_type = read_text(v, "type")?;
    let server_uuid = read_text(v, "server_uuid")?;
    let addr = read_text(v, "addr")?;
    Some(Replicas { replica_type, server_uuid, addr })
}

/// The replicas that a list writes down.
fn read_replica_list(list: &Vec<Value>) -> (r: Option<Vec<Replicas>>)
    ensures
        match r {
            Some(l) => replicas_upto(json_views(list@), list@.len() as int) == Some(views(l@)),
            None => replicas_upto(json_views(list@), list@.len() as int) is None,
        },
{
    let mut out: Vec<Replicas> = Vec::new();
    let mut i: usize = 0;
    assert(views(out@) =~= Seq::<ReplicasView>::empty());
    while i < list.len()
        invariant
            i <= list.len(),
            replicas_upto(json_views(list@), i as int) == Some(views(out@)),
        decreases list.len() - i,
    {
        match read_replica(&list[i]) {
            Some(replica) => {
                proof {
                    lemma_views_push(out@, replica);
                }
                out.push(replica);
            },
            None => {
                proof {
                    lemma_replicas_fail(json_views(list@), i + 1, list@.len() as int);
                }
                return None;
            },
        }
        i += 1;
    }
    Some(out)
}

/// A list with a malformed replica among its first `n` is malformed.
proof fn lemma_replicas_fail(list: Seq<Json>, n: int, m: int)
    requires
        0 <= n <= m <= list.len(),
        replicas_upto(list, n) is None,
    ensures
        replicas_upto(list, m) is None,
    decreases m,
{
    if m > n {
        lemma_replicas_fail(list, n, m - 1);
    }
}

/// A list with a malformed keyspace among its first `n` is malformed.
proof fn lemma_keyspaces_fail(list: Seq<Json>, n: int, m: int)
    requires
        0 <= n <= m <= list.len(),
        keyspaces_upto(list, n) is None,
    ensures
        keyspaces_upto(list, m) is None,
    decreases m,
{
    if m > n {
        lemma_keyspaces_fail(list, n, m - 1);
    }
}

/// A list with a malformed table among its first `n` is malformed.
proof fn lemma_tables_fail(list: Seq<Json>, n: int, m: int)
    requires
        0 <= n <= m <= list.len(),
        tables_upto(list, n) is None,
    ensures
        tables_upto(list, m) is None,
    decreases m,
{
    if m > n {
        lemma_tables_fail(list, n, m - 1);
    }
}

/// A list with a malformed tablet among its first `n` is malformed.
proof fn lemma_tablets_fail(list: Seq<Json>, n: int, m: int)
    requires
        0 <= n <= m <= list.len(),
        tablets_upto(list, n) is None,
    ensures
        tablets_upto(list, m) is None,
    decreases m,
{
    if m > n {
        lemma_tablets_fail(list, n, m - 1);
    }
}

/// The leader that a tablet names.
fn read_leader(v: &Value) -> (r: Option<Option<String>>)
    ensures
        match r {
            Some(l) => leader_of(json_view(*v)) == Some(view_of(l)),
            None => leader_of(json_view(*v)) is None,
        },
{
    match member(v, "leader") {
        None => Some(None),
        Some(m) => if is_null(m) {
            Some(None)
        } else {
            match text(m) {
                Some(t) => Some(Some(String::from_str(t))),
                None => None,
            }
        },
    }
}

/// The views of a list that may be missing.
pub open spec fn views_of<T: View>(o: Option<Vec<T>>) -> Option<Seq<T::V>> {
    match o {
        Some(l) => Some(views(l@)),
        None => None,
    }
}

/// The replicas that a tablet holds.
fn read_replicas(v: &Value) -> (r: Option<Option<Vec<Replicas>>>)
    ensures
        match r {
            Some(l) => replicas_of(json_view(*v)) == Some(views_of(l)),
            None => replicas_of(json_view(*v)) is None,
        },
{
    match member(v, "replicas") {
        None => Some(None),
        Some(m) => if is_null(m) {
            Some(None)
        } else {
            match items(m) {
                Some(list) => match read_replica_list(list) {
                    Some(replicas) => Some(Some(replicas)),
                    None => None,
                },
                None => None,
            }
        },
    }
}

/// The tablet that an object writes down.
fn read_tablet(v: &Value) -> (r: Option<Tablets>)
    ensures
        view_of(r) == tablet_of(json_view(*v)),
{
    let table_id = read_text(v, "table_id")?;
    let tablet_id = read_text(v, "tablet_id")?;
    let state = read_text(v, "state")?;
    let replicas = read_replicas(v)?;
    let leader = read_leader(v)?;
    Some(Tablets { table_id, tablet_id, state, replicas, leader })
}

/// The keyspaces that the array under `keyspaces` writes down.
fn read_keyspaces(v: &Value) -> (r: Option<Vec<Keyspaces>>)
    ensures
        views_of(r) == match items_member(json_view(*v), "keyspaces"@) {
            Some(k) => keyspaces_upto(k, k.len() as int),
            None => None,
        },
{
    let list = items(member(v, "keyspaces")?)?;
    let mut out: Vec<Keyspaces> = Vec::new();
    let mut i: usize = 0;
    assert(views(out@) =~= Seq::<KeyspacesView>::empty());
    while i < list.len()
        invariant
            i <= list.len(),
            items_member(json_view(*v), "keyspaces"@) == Some(json_views(list@)),
            keyspaces_upto(json_views(list@), i as int) == Some(views(out@)),
        decreases list.len() - i,
    {
        match read_keyspace(&list[i]) {
            Some(keyspace) => {
                proof {
                    lemma_views_push(out@, keyspace);
                }
                out.push(keyspace);
            },
            None => {
                proof {
                    lemma_keyspaces_fail(json_views(list@), i + 1, list@.len() as int);
                }
                return None;
            },
        }
        i += 1;
    }
    Some(out)
}

/// The tables that the array under `tables` writes down.
fn read_tables(v: &Value) -> (r: Option<Vec<Tables>>)
    ensures
        views_of(r) == match items_member(json_view(*v), "tables"@) {
            Some(t) => tables_upto(t, t.len() as int),
            None => None,
        },
{
    let list = items(member(v, "tables")?)?;
    let mut out: Vec<Tables> = Vec::new();
    let mut i: usize = 0;
    assert(views(out@) =~= Seq::<TablesView>::empty());
    while i < list.len()
        invariant
            i <= list.len(),
            items_member(json_view(*v), "tables"@) == Some(json_views(list@)),
            tables_upto(json_views(list@), i as int) == Some(views(out@)),
        decreases list.len() - i,
    {
        match read_table(&list[i]) {
            Some(table) => {
                proof {
                    lemma_views_push(out@, table);
                }
                out.push(table);
            },
            None => {
                proof {
                    lemma_tables_fail(json_views(list@), i + 1, list@.len() as int);
                }
                return None;
            },
        }
        i += 1;
    }
    Some(out)
}

/// The tablets that the array under `tablets` writes down.
fn read_tablets(v: &Value) -> (r: Option<Vec<Tablets>>)
    ensures
        views_of(r) == match items_member(json_view(*v), "tablets"@) {
            Some(s) => tablets_upto(s, s.len() as int),
            None => None,
        },
{
    let list = items(member(v, "tablets")?)?;
    let mut out: Vec<Tablets> = Vec::new();
    let mut i: usize = 0;
    assert(views(out@) =~= Seq::<TabletsView>::empty());
    while i < list.len()
        invariant
            i <= list.len(),
            items_member(json_view(*v), "tablets"@) == Some(json_views(list@)),
            tablets_upto(json_views(list@), i as int) == Some(views(out@)),
        decreases list.len() - i,
    {
        match read_tablet(&list[i]) {
            Some(tablet) => {
                proof {
                    lemma_views_push(out@, tablet);
                }
                out.push(tablet);
            },
            None => {
                proof {
                    lemma_tablets_fail(json_views(list@), i + 1, list@.len() as int);
                }
                return None;
            },
        }
        i += 1;
    }
    Some(out)
}

impl Entities {
    /// The observation that a JSON document writes down, naming no node;
    /// `None` where the document lacks one of the three arrays or one of
    /// their entries is malformed.
    pub fn from_json(v: &Value) -> (r: Option<Entities>)
        ensures
            view_of(r) == topology_of(json_view(*v)),
    {
        let keyspaces = read_keyspaces(v);
        let tables = read_tables(v);
        let tablets = read_tablets(v);
        match (keyspaces, tables, tablets) {
            (Some(keyspaces), Some(tables), Some(tablets)) => Some(
                Entities { hostname_port: None, timestamp: None, keyspaces, tables, tablets },
            ),
            _ => None,
        }
    }

    /// The observation that was read from a node's answer, or an empty one
    /// where nothing was, as reported by the node at `host` and `port`.
    pub fn of_node(read: Option<Entities>, host: &str, port: &str) -> (r: Entities)
        ensures
            r@ == node_report(view_of(read), host@, port@),
    {
        let mut name = String::from_str(host);
        name.append(":");
        name.append(port);
        assert(name@ =~= node_name(host@, port@));
        let e = match read {
            Some(e) => e,
            None => Entities::new(),
        };
        Entities {
            hostname_port: Some(name),
            timestamp: None,
            keyspaces: e.keyspaces,
            tables: e.tables,
            tablets: e.tablets,
        }
    }
}

impl AllEntities {
    /// The observation that a node's answer gives. The answer is parsed as
    /// JSON; an answer that is no JSON, or not of the shape of an
    /// observation, gives an observation that holds nothing. The result
    /// names no node and no time, whatever `host` and `port` are: they say
    /// whose answer it is to the caller alone, who names the node with
    /// [`Entities::of_node`].
    #[allow(unused_variables)]
    pub fn parse_entities(entities_data: String, host: &str, port: &str) -> (r: Entities)
        ensures
            r@ == parsed_topology(entities_data@),
    {
        let read = match parse_value(entities_data.as_str()) {
            Some(v) => Entities::from_json(&v),
            None => None,
        };
        match read {
            Some(e) => e,
            None => Entities::new(),
        }
    }
}

} // verus!
