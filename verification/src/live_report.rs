//! The listing of one pass: its keyspaces, tables, tablets and replicas as
//! the nodes reported them.
//!
//! Without details the listing shows what the leading node reported and
//! leaves out the system keyspaces, their tables and the catalog tables of
//! relational keyspaces. With details it shows what every node reported
//! whose name passes the host filter, with that name before every line.

use vstd::prelude::*;
use vstd::utf8::encode_utf8;
use regex::Regex;
use crate::filter::is_match;
use crate::filter::regex_found;
use crate::identifier::catalog_object;
use crate::identifier::colocation_root;
use crate::identifier::is_catalog_object;
use crate::identifier::is_colocation_root_shard_id;
use crate::identifier::is_system_keyspace;
use crate::identifier::system_keyspace;
use crate::model::AllEntities;
use crate::model::Entities;
use crate::model::EntitiesView;
use crate::model::Keyspaces;
use crate::model::KeyspacesView;
use crate::model::Tables;
use crate::model::TablesView;
use crate::model::Tablets;
use crate::model::TabletsView;
use crate::model::is_relational;
use crate::model::relational;
use crate::report::Color;
use crate::report::Line;
use crate::report::SpanView;
use crate::report::colocation_mark;
use crate::report::plain;
use crate::report::put_colocation_mark;
use crate::report::red;
use crate::report::yellow;
use crate::text::same_text;
use crate::views::lemma_views_push;
use crate::views::views;

verus! {

/// What a listing shows besides the pass itself.
pub struct Showing {
    /// Whether every node's report is shown, and in full.
    pub details: bool,
    /// The node that leads the cluster.
    pub leader: Seq<char>,
    /// The nodes that are known to be dead.
    pub dead_nodes: Seq<Seq<char>>,
    /// The tablets that are known to have too few replicas.
    pub under_replicated: Seq<Seq<char>>,
}

/// What stands before every line of a node's report: with details the name
/// of the node and a space, else nothing.
pub open spec fn line_start(details: bool, source: Seq<char>) -> Seq<SpanView> {
    if details {
        seq![plain(source), plain(" "@)]
    } else {
        Seq::empty()
    }
}

/// The warning beside a tablet with too few replicas, empty for any other.
pub open spec fn replication_mark(under_replicated: bool) -> SpanView {
    if under_replicated {
        yellow("[UNDER REPLICATED]"@)
    } else {
        yellow(""@)
    }
}

/// The mark beside a replica on a dead node, empty for any other.
pub open spec fn liveness_mark(dead: bool) -> SpanView {
    if dead {
        red("[DEAD]"@)
    } else {
        red(""@)
    }
}

/// The mark after the role of the replica that leads its tablet.
pub open spec fn leader_mark(leads: bool) -> Seq<char> {
    if leads {
        ":LEADER"@
    } else {
        ""@
    }
}

/// Whether a character is white space.
pub open spec fn white_space(c: char) -> bool {
    let u = c as u32;
    ||| 0x09 <= u <= 0x0d
    ||| u == 0x20
    ||| u == 0x85
    ||| u == 0xa0
    ||| u == 0x1680
    ||| 0x2000 <= u <= 0x200a
    ||| u == 0x2028
    ||| u == 0x2029
    ||| u == 0x202f
    ||| u == 0x205f
    ||| u == 0x3000
}

/// The number of white-space characters that a text begins with.
pub open spec fn white_len(s: Seq<char>) -> nat
    decreases s.len(),
{
    if s.len() == 0 || !white_space(s[0]) {
        0
    } else {
        1 + white_len(s.drop_first())
    }
}

/// A text without the white space it begins with.
pub open spec fn trim_start(s: Seq<char>) -> Seq<char> {
    s.skip(white_len(s) as int)
}

/// A text whose first `n` characters are white space begins with these and
/// the white space that the rest begins with.
pub proof fn lemma_white_len(s: Seq<char>, n: int)
    requires
        0 <= n <= s.len(),
        forall|j: int| 0 <= j < n ==> white_space(s[j]),
    ensures
        white_len(s) == n + white_len(s.skip(n)),
    decreases n,
{
    if n == 0 {
        assert(s.skip(0) =~= s);
    } else {
        assert forall|j: int| 0 <= j < n - 1 implies white_space(s.drop_first()[j]) by {
            assert(s.drop_first()[j] == s[j + 1]);
        }
        lemma_white_len(s.drop_first(), n - 1);
        assert(s.drop_first().skip(n - 1) =~= s.skip(n));
    }
}

/// Whether a character is white space.
pub fn is_white_space(c: char) -> (r: bool)
    ensures
        r == white_space(c),
{
    let u = c as u32;
    (0x09 <= u && u <= 0x0d) || u == 0x20 || u == 0x85 || u == 0xa0 || u == 0x1680 || (0x2000 <= u
        && u <= 0x200a) || u == 0x2028 || u == 0x2029 || u == 0x202f || u == 0x205f || u == 0x3000
}

/// A text without the white space it begins with.
pub fn without_leading_space(s: &str) -> (r: &str)
    ensures
        r@ == trim_start(s@),
{
    let n = s.unicode_len();
    let mut i: usize = 0;
    let mut found = false;
    while i < n && !found
        invariant
            i <= n,
            n == s@.len(),
            forall|j: int| 0 <= j < i ==> white_space(s@[j]),
            found ==> i < n && !white_space(s@[i as int]),
        decreases n - i + (if found { 0int } else { 1int }),
    {
        if is_white_space(s.get_char(i)) {
            i += 1;
        } else {
            found = true;
        }
    }
    proof {
        lemma_white_len(s@, i as int);
        if i < n {
            assert(s@.skip(i as int)[0] == s@[i as int]);
        }
        assert(s@.skip(i as int) =~= s@.subrange(i as int, n as int));
    }
    s.substring_char(i, n)
}

/// The first `n` replicas of a tablet as they stand between the brackets:
/// each as `address(role),`, with `:LEADER` after the role of the one that
/// leads and `[DEAD]` for one on a dead node, a space between two. The
/// first address stands without the white space it begins with.
pub open spec fn replica_spans_upto(tablet: TabletsView, dead_nodes: Seq<Seq<char>>, n: int) -> Seq<
    SpanView,
>
    decreases n,
{
    if n <= 0 {
        Seq::empty()
    } else {
        let replica = tablet.replica_list()[n - 1];
        replica_spans_upto(tablet, dead_nodes, n - 1) + seq![
            plain(
                if n == 1 {
                    ""@
                } else {
                    " "@
                },
            ),
            plain(
                if n == 1 {
                    trim_start(replica.addr)
                } else {
                    replica.addr
                },
            ),
            plain("("@),
            plain(replica.replica_type),
            plain(leader_mark(replica.server_uuid == tablet.leader_id())),
            liveness_mark(dead_nodes.contains(replica.server_uuid)),
            plain("),"@),
        ]
    }
}

/// The two lines about a tablet: the tablet under the path of what it
/// belongs to, and its replicas.
pub open spec fn tablet_lines(
    start: Seq<SpanView>,
    path: Seq<char>,
    tablet: TabletsView,
    showing: Showing,
) -> Seq<Seq<SpanView>> {
    seq![
        start + seq![
            plain("  Tablet:     "@),
            plain(path),
            plain("."@),
            plain(tablet.tablet_id),
            plain(" state: "@),
            plain(tablet.state),
            plain(" "@),
            replication_mark(showing.under_replicated.contains(tablet.tablet_id)),
        ],
        start + seq![plain("    Replicas: ("@)] + replica_spans_upto(
            tablet,
            showing.dead_nodes,
            tablet.replica_list().len() as int,
        ) + seq![plain(")"@)],
    ]
}

/// The lines about those of the first `n` tablets of an observation that
/// belong to `table_id`, or, with `root`, that are the colocation root of
/// the keyspace `table_id`.
pub open spec fn tablets_lines_upto(
    e: EntitiesView,
    table_id: Seq<char>,
    root: bool,
    path: Seq<char>,
    showing: Showing,
    n: int,
) -> Seq<Seq<SpanView>>
    decreases n,
{
    if n <= 0 {
        Seq::empty()
    } else {
        let tablet = e.tablets[n - 1];
        let belongs = if root {
            colocation_root(table_id, tablet.table_id)
        } else {
            tablet.table_id == table_id
        };
        tablets_lines_upto(e, table_id, root, path, showing, n - 1) + (if belongs {
            tablet_lines(line_start(showing.details, e.source()), path, tablet, showing)
        } else {
            Seq::empty()
        })
    }
}

/// A keyspace's type and name with a dot between them.
pub open spec fn keyspace_path(kind: Seq<char>, name: Seq<char>) -> Seq<char> {
    kind + "."@ + name
}

/// The lines about a keyspace. A system keyspace is shown with details
/// only; a relational keyspace without tables was dropped and is not shown;
/// a colocated keyspace is followed by the tablets of its colocation root.
pub open spec fn keyspace_lines(e: EntitiesView, k: KeyspacesView, showing: Showing) -> Seq<
    Seq<SpanView>,
> {
    let start = line_start(showing.details, e.source());
    if !showing.details && system_keyspace(k.keyspace_id) {
        Seq::empty()
    } else if e.live_relational(k) {
        let colocated = e.has_colocation_root(k.keyspace_id);
        seq![
            start + seq![
                plain("Keyspace:     "@),
                plain(keyspace_path(k.keyspace_type, k.keyspace_name)),
                plain(" id: "@),
                plain(k.keyspace_id),
                plain(" "@),
                plain(colocation_mark(colocated)),
            ],
        ] + (if colocated {
            tablets_lines_upto(
                e,
                k.keyspace_id,
                true,
                keyspace_path(k.keyspace_type, k.keyspace_name),
                showing,
                e.tablets.len() as int,
            )
        } else {
            Seq::empty()
        })
    } else if k.keyspace_type != relational() {
        seq![
            start + seq![
                plain("Keyspace:     "@),
                plain(keyspace_path(k.keyspace_type, k.keyspace_name)),
                plain(" id: "@),
                plain(k.keyspace_id),
            ],
        ]
    } else {
        Seq::empty()
    }
}

/// The lines about the first `n` keyspaces of an observation.
pub open spec fn keyspaces_lines_upto(e: EntitiesView, showing: Showing, n: int) -> Seq<
    Seq<SpanView>,
>
    decreases n,
{
    if n <= 0 {
        Seq::empty()
    } else {
        keyspaces_lines_upto(e, showing, n - 1) + keyspace_lines(e, e.keyspaces[n - 1], showing)
    }
}

/// Whether a table is shown: without details the tables of system keyspaces
/// and the catalog tables of relational keyspaces are not; a table whose
/// name does not pass the filter never is.
pub open spec fn table_shown(e: EntitiesView, t: TablesView, showing: Showing, filter: &Regex) -> bool {
    &&& showing.details || !system_keyspace(t.keyspace_id)
    &&& regex_found(filter, t.table_name)
    &&& showing.details || !(catalog_object(encode_utf8(t.table_id)) && e.keyspace_type_of(
        t.keyspace_id,
    ) == relational())
}

/// Whether a table is colocated: it is a user table of a relational
/// keyspace and no tablet is its own.
pub open spec fn table_colocated(e: EntitiesView, t: TablesView) -> bool {
    e.keyspace_type_of(t.keyspace_id) == relational() && !catalog_object(encode_utf8(t.table_id))
        && !e.has_tablets(t.table_id)
}

/// A table's path: the type and the name of its keyspace and its own name,
/// with dots between them.
pub open spec fn table_path(e: EntitiesView, t: TablesView) -> Seq<char> {
    keyspace_path(e.keyspace_type_of(t.keyspace_id), e.keyspace_name_of(t.keyspace_id)) + "."@
        + t.table_name
}

/// The lines about a table: the table, then its tablets.
pub open spec fn table_lines(e: EntitiesView, t: TablesView, showing: Showing, filter: &Regex) -> Seq<
    Seq<SpanView>,
> {
    if !table_shown(e, t, showing, filter) {
        Seq::empty()
    } else {
        seq![
            line_start(showing.details, e.source()) + seq![
                plain("Object:       "@),
                plain(table_path(e, t)),
                plain(", state: "@),
                plain(t.state),
                plain(", id: "@),
                plain(t.table_id),
                plain(" "@),
                plain(colocation_mark(table_colocated(e, t))),
            ],
        ] + tablets_lines_upto(
            e,
            t.table_id,
            false,
            table_path(e, t),
            showing,
            e.tablets.len() as int,
        )
    }
}

/// The lines about the first `n` tables of an observation.
pub open spec fn tables_lines_upto(e: EntitiesView, showing: Showing, filter: &Regex, n: int) -> Seq<
    Seq<SpanView>,
>
    decreases n,
{
    if n <= 0 {
        Seq::empty()
    } else {
        tables_lines_upto(e, showing, filter, n - 1) + table_lines(
            e,
            e.tables[n - 1],
            showing,
            filter,
        )
    }
}

/// Whether an observation is shown: without details the one that the
/// leading node reported; with details each whose node passes the host
/// filter.
pub open spec fn entity_shown(e: EntitiesView, showing: Showing, host_filter: &Regex) -> bool {
    if showing.details {
        regex_found(host_filter, e.source())
    } else {
        e.reported_by(showing.leader)
    }
}

/// The lines about an observation: its keyspaces, then its tables.
pub open spec fn entity_lines(
    e: EntitiesView,
    showing: Showing,
    table_filter: &Regex,
    host_filter: &Regex,
) -> Seq<Seq<SpanView>> {
    if entity_shown(e, showing, host_filter) {
        keyspaces_lines_upto(e, showing, e.keyspaces.len() as int) + tables_lines_upto(
            e,
            showing,
            table_filter,
            e.tables.len() as int,
        )
    } else {
        Seq::empty()
    }
}

/// The lines about the first `n` observations of a pass.
pub open spec fn listing_upto(
    all: Seq<EntitiesView>,
    showing: Showing,
    table_filter: &Regex,
    host_filter: &Regex,
    n: int,
) -> Seq<Seq<SpanView>>
    decreases n,
{
    if n <= 0 {
        Seq::empty()
    } else {
        listing_upto(all, showing, table_filter, host_filter, n - 1) + entity_lines(
            all[n - 1],
            showing,
            table_filter,
            host_filter,
        )
    }
}

/// Whether a list of identifiers holds one.
pub fn holds(list: &Vec<String>, id: &str) -> (r: bool)
    ensures
        r == views(list@).contains(id@),
{
    let mut i: usize = 0;
    while i < list.len()
        invariant
            i <= list.len(),
            forall|j: int| 0 <= j < i ==> (#[trigger] views(list@)[j]) != id@,
        decreases list.len() - i,
    {
        if same_text(list[i].as_str(), id) {
            assert(views(list@)[i as int] == id@);
            return true;
        }
        i += 1;
    }
    false
}

/// What a listing shows besides the pass itself.
#[derive(Clone, Debug)]
pub struct ListingOptions {
    /// Whether every node's report is shown, and in full.
    pub details_enable: bool,
    /// The node that leads the cluster.
    pub leader_hostname: String,
    /// The nodes that are known to be dead.
    pub dead_nodes: Vec<String>,
    /// The tablets that are known to have too few replicas.
    pub under_replicated_tablets: Vec<String>,
}

impl View for ListingOptions {
    type V = Showing;

    open spec fn view(&self) -> Showing {
        Showing {
            details: self.details_enable,
            leader: self.leader_hostname@,
            dead_nodes: views(self.dead_nodes@),
            under_replicated: views(self.under_replicated_tablets@),
        }
    }
}

/// Joins a keyspace's type and name with a dot.
pub fn join_path(first: &str, second: &str) -> (r: String)
    ensures
        r@ == first@ + "."@ + second@,
{
    let mut r = String::new();
    r.append(first);
    r.append(".");
    r.append(second);
    assert(r@ =~= first@ + "."@ + second@);
    r
}

/// Opens a line of a node's report.
fn put_start(line: &mut Line, details: bool, source: &str)
    ensures
        final(line)@ == old(line)@ + line_start(details, source@),
{
    let ghost before = line@;
    if details {
        line.say(source);
        line.say(" ");
    }
    assert(line@ =~= before + line_start(details, source@));
}

/// Adds the replicas of a tablet to a line.
fn put_replicas(line: &mut Line, tablet: &Tablets, dead_nodes: &Vec<String>)
    ensures
        final(line)@ == old(line)@ + replica_spans_upto(
            tablet@,
            views(dead_nodes@),
            tablet@.replica_list().len() as int,
        ),
{
    let ghost before = line@;
    let ghost dead = views(dead_nodes@);
    assert(before + Seq::<SpanView>::empty() =~= before);
    match &tablet.replicas {
        None => {},
        Some(replicas) => {
            let leader = match &tablet.leader {
                Some(l) => l.as_str(),
                None => {
                    proof {
                        reveal_strlit("");
                    }
                    assert(""@ =~= Seq::<char>::empty());
                    ""
                },
            };
            let mut i: usize = 0;
            while i < replicas.len()
                invariant
                    i <= replicas.len(),
                    tablet.replicas == Some(*replicas),
                    leader@ == tablet@.leader_id(),
                    dead == views(dead_nodes@),
                    line@ == before + replica_spans_upto(tablet@, dead, i as int),
                decreases replicas.len() - i,
            {
                let replica = &replicas[i];
                assert(tablet@.replica_list()[i as int] == replica@);
                let ghost sofar = line@;
                if i == 0 {
                    line.say("");
                    line.say(without_leading_space(replica.addr.as_str()));
                } else {
                    line.say(" ");
                    line.say(replica.addr.as_str());
                }
                line.say("(");
                line.say(replica.replica_type.as_str());
                if same_text(replica.server_uuid.as_str(), leader) {
                    line.say(":LEADER");
                } else {
                    line.say("");
                }
                if holds(dead_nodes, replica.server_uuid.as_str()) {
                    line.put("[DEAD]", Color::Red);
                } else {
                    line.put("", Color::Red);
                }
                line.say("),");
                assert(line@ =~= before + replica_spans_upto(tablet@, dead, i + 1));
                i += 1;
            }
        },
    }
}

/// Adds the two lines about a tablet to a report.
fn push_tablet_lines(
    out: &mut Vec<Line>,
    entity: &Entities,
    path: &str,
    tablet: &Tablets,
    options: &ListingOptions,
)
    ensures
        views(final(out)@) == views(old(out)@) + tablet_lines(
            line_start(options@.details, entity@.source()),
            path@,
            tablet@,
            options@,
        ),
{
    let ghost before = views(out@);
    let ghost start = line_start(options@.details, entity@.source());
    let mut line = Line::new();
    put_start(&mut line, options.details_enable, entity.source());
    line.say("  Tablet:     ");
    line.say(path);
    line.say(".");
    line.say(tablet.tablet_id.as_str());
    line.say(" state: ");
    line.say(tablet.state.as_str());
    line.say(" ");
    if holds(&options.under_replicated_tablets, tablet.tablet_id.as_str()) {
        line.put("[UNDER REPLICATED]", Color::Yellow);
    } else {
        line.put("", Color::Yellow);
    }
    let mut replicas = Line::new();
    put_start(&mut replicas, options.details_enable, entity.source());
    replicas.say("    Replicas: (");
    put_replicas(&mut replicas, tablet, &options.dead_nodes);
    replicas.say(")");
    proof {
        let stated = tablet_lines(start, path@, tablet@, options@);
        assert(line@ =~= stated[0]);
        assert(replicas@ =~= stated[1]);
        lemma_views_push(out@, line);
        lemma_views_push(out@.push(line), replicas);
        assert(before.push(line@).push(replicas@) =~= before + stated);
    }
    out.push(line);
    out.push(replicas);
}

/// Adds the lines about the tablets of a table, or of a keyspace's
/// colocation root, to a report.
fn push_tablets_lines(
    out: &mut Vec<Line>,
    entity: &Entities,
    table_id: &str,
    root: bool,
    path: &str,
    options: &ListingOptions,
)
    ensures
        views(final(out)@) == views(old(out)@) + tablets_lines_upto(
            entity@,
            table_id@,
            root,
            path@,
            options@,
            entity@.tablets.len() as int,
        ),
{
    let ghost before = views(out@);
    assert(before + Seq::<Seq<SpanView>>::empty() =~= before);
    let mut i: usize = 0;
    while i < entity.tablets.len()
        invariant
            i <= entity.tablets.len(),
            views(out@) == before + tablets_lines_upto(
                entity@,
                table_id@,
                root,
                path@,
                options@,
                i as int,
            ),
        decreases entity.tablets.len() - i,
    {
        let tablet = &entity.tablets[i];
        assert(entity@.tablets[i as int] == tablet@);
        let belongs = if root {
            is_colocation_root_shard_id(table_id, tablet.table_id.as_str())
        } else {
            same_text(tablet.table_id.as_str(), table_id)
        };
        if belongs {
            push_tablet_lines(out, entity, path, tablet, options);
        }
        assert(views(out@) =~= before + tablets_lines_upto(
            entity@,
            table_id@,
            root,
            path@,
            options@,
            i + 1,
        ));
        i += 1;
    }
}

/// Adds the lines about a keyspace to a report.
fn push_keyspace_lines(
    out: &mut Vec<Line>,
    entity: &Entities,
    keyspace: &Keyspaces,
    options: &ListingOptions,
)
    ensures
        views(final(out)@) == views(old(out)@) + keyspace_lines(entity@, keyspace@, options@),
{
    let ghost before = views(out@);
    let ghost stated = keyspace_lines(entity@, keyspace@, options@);
    let id = keyspace.keyspace_id.as_str();
    if !options.details_enable && is_system_keyspace(id) {
        assert(views(out@) =~= before + stated);
        return ;
    }
    let relational = is_relational(keyspace.keyspace_type.as_str());
    if relational && !entity.has_tables(id) {
        assert(views(out@) =~= before + stated);
        return ;
    }
    let path = join_path(keyspace.keyspace_type.as_str(), keyspace.keyspace_name.as_str());
    let mut line = Line::new();
    put_start(&mut line, options.details_enable, entity.source());
    line.say("Keyspace:     ");
    line.say(path.as_str());
    line.say(" id: ");
    line.say(id);
    if relational {
        let colocated = entity.has_colocation_root(id);
        line.say(" ");
        put_colocation_mark(&mut line, colocated);
        proof {
            assert(line@ =~= stated[0]);
            lemma_views_push(out@, line);
        }
        out.push(line);
        if colocated {
            push_tablets_lines(out, entity, id, true, path.as_str(), options);
        }
        assert(views(out@) =~= before + stated);
    } else {
        proof {
            assert(line@ =~= stated[0]);
            lemma_views_push(out@, line);
        }
        out.push(line);
        assert(views(out@) =~= before + stated);
    }
}

/// Adds the lines about a table to a report.
fn push_table_lines(
    out: &mut Vec<Line>,
    entity: &Entities,
    table: &Tables,
    options: &ListingOptions,
    filter: &Regex,
)
    ensures
        views(final(out)@) == views(old(out)@) + table_lines(entity@, table@, options@, filter),
{
    let ghost before = views(out@);
    let ghost stated = table_lines(entity@, table@, options@, filter);
    if !options.details_enable && is_system_keyspace(table.keyspace_id.as_str()) {
        assert(views(out@) =~= before + stated);
        return ;
    }
    if !is_match(filter, table.table_name.as_str()) {
        assert(views(out@) =~= before + stated);
        return ;
    }
    let kind = entity.keyspace_type_of(table.keyspace_id.as_str());
    let name = entity.keyspace_name_of(table.keyspace_id.as_str());
    let relational = is_relational(kind.as_str());
    let catalog = is_catalog_object(table.table_id.as_str());
    if catalog && !options.details_enable && relational {
        assert(views(out@) =~= before + stated);
        return ;
    }
    let colocated = relational && !catalog && !entity.has_tablets(table.table_id.as_str());
    let mut path = join_path(kind.as_str(), name.as_str());
    path.append(".");
    path.append(table.table_name.as_str());
    assert(path@ =~= table_path(entity@, table@));
    let mut line = Line::new();
    put_start(&mut line, options.details_enable, entity.source());
    line.say("Object:       ");
    line.say(path.as_str());
    line.say(", state: ");
    line.say(table.state.as_str());
    line.say(", id: ");
    line.say(table.table_id.as_str());
    line.say(" ");
    put_colocation_mark(&mut line, colocated);
    proof {
        assert(line@ =~= stated[0]);
        lemma_views_push(out@, line);
    }
    out.push(line);
    push_tablets_lines(out, entity, table.table_id.as_str(), false, path.as_str(), options);
    assert(views(out@) =~= before + stated);
}

/// Adds the lines about an observation to a report.
fn push_entity_lines(
    out: &mut Vec<Line>,
    entity: &Entities,
    options: &ListingOptions,
    table_filter: &Regex,
    host_filter: &Regex,
)
    ensures
        views(final(out)@) == views(old(out)@) + entity_lines(
            entity@,
            options@,
            table_filter,
            host_filter,
        ),
{
    let ghost before = views(out@);
    let ghost stated = entity_lines(entity@, options@, table_filter, host_filter);
    let shown = if options.details_enable {
        is_match(host_filter, entity.source())
    } else {
        entity.is_reported_by(options.leader_hostname.as_str())
    };
    if !shown {
        assert(views(out@) =~= before + stated);
        return ;
    }
    let mut i: usize = 0;
    assert(before + Seq::<Seq<SpanView>>::empty() =~= before);
    while i < entity.keyspaces.len()
        invariant
            i <= entity.keyspaces.len(),
            views(out@) == before + keyspaces_lines_upto(entity@, options@, i as int),
        decreases entity.keyspaces.len() - i,
    {
        assert(entity@.keyspaces[i as int] == entity.keyspaces[i as int]@);
        push_keyspace_lines(out, entity, &entity.keyspaces[i], options);
        assert(views(out@) =~= before + keyspaces_lines_upto(entity@, options@, i + 1));
        i += 1;
    }
    let ghost listed = views(out@);
    let mut j: usize = 0;
    assert(listed + Seq::<Seq<SpanView>>::empty() =~= listed);
    while j < entity.tables.len()
        invariant
            j <= entity.tables.len(),
            views(out@) == listed + tables_lines_upto(entity@, options@, table_filter, j as int),
        decreases entity.tables.len() - j,
    {
        assert(entity@.tables[j as int] == entity.tables[j as int]@);
        push_table_lines(out, entity, &entity.tables[j], options, table_filter);
        assert(views(out@) =~= listed + tables_lines_upto(
            entity@,
            options@,
            table_filter,
            j + 1,
        ));
        j += 1;
    }
    assert(views(out@) =~= before + stated);
}

impl AllEntities {
    /// The listing of the pass, line by line: the observations in their
    /// order, of each its keyspaces and then its tables, a colocated
    /// keyspace and a table each followed by their tablets, a tablet by its
    /// replicas.
    ///
    /// Without details only the observation that `leader_hostname` reported
    /// is listed, without system keyspaces, their tables and the catalog
    /// tables of relational keyspaces; with details every observation whose
    /// node matches `hostname_filter`, each line after the node's name.
    /// Tables whose name does not match `table_name_filter` are left out.
    /// Replicas on `dead_nodes` and tablets among
    /// `under_replicated_tablets` are marked.
    pub fn print(
        &self,
        table_name_filter: &Regex,
        details_enable: &bool,
        leader_hostname: String,
        hostname_filter: &Regex,
        dead_nodes: Vec<String>,
        under_replicated_tablets: Vec<String>,
    ) -> (r: Vec<Line>)
        ensures
            views(r@) == listing_upto(
                self@,
                Showing {
                    details: *details_enable,
                    leader: leader_hostname@,
                    dead_nodes: views(dead_nodes@),
                    under_replicated: views(under_replicated_tablets@),
                },
                table_name_filter,
                hostname_filter,
                self@.len() as int,
            ),
    {
        let options = ListingOptions {
            details_enable: *details_enable,
            leader_hostname,
            dead_nodes,
            under_replicated_tablets,
        };
        let mut out: Vec<Line> = Vec::new();
        let mut i: usize = 0;
        assert(views(out@) =~= Seq::<Seq<SpanView>>::empty());
        while i < self.entities.len()
            invariant
                i <= self.entities.len(),
                views(out@) == listing_upto(
                    self@,
                    options@,
                    table_name_filter,
                    hostname_filter,
                    i as int,
                ),
            decreases self.entities.len() - i,
        {
            assert(self@[i as int] == self.entities[i as int]@);
            push_entity_lines(
                &mut out,
                &self.entities[i],
                &options,
                table_name_filter,
                hostname_filter,
            );
            i += 1;
        }
        out
    }
}

} // verus!
