//! The report of a difference: one line for every entity that was added,
//! removed or modified, keyspaces first, then tables, tablets and replicas,
//! each kind in ascending order of its identifiers.
//!
//! Left out are the system keyspaces and their tables, and the catalog
//! tables of relational keyspaces that were added or removed.

use vstd::prelude::*;
use crate::change::Side;
use crate::change::Sides;
use crate::classify::Change;
use crate::classify::change_of;
use crate::classify::telling_side;
use crate::diff::EntitiesDiff;
use crate::diff::Records;
use crate::identifier::is_system_keyspace;
use crate::identifier::system_keyspace;
use crate::records::KeyspaceDiff;
use crate::records::KeyspaceSide;
use crate::records::ReplicaSide;
use crate::records::ReplicasDiff;
use crate::records::TableSide;
use crate::records::TablesDiff;
use crate::records::TabletSide;
use crate::records::TabletsDiff;
use crate::report::Color;
use crate::report::Line;
use crate::report::SpanView;
use crate::report::colocation_mark;
use crate::report::green;
use crate::report::plain;
use crate::report::put_colocation_mark;
use crate::report::red;
use crate::report::yellow;
use crate::text::same_text;
use crate::views::lemma_views_push;
use crate::views::views;

verus! {

/// The sign that opens the line about a change.
pub open spec fn sign(change: Change) -> SpanView {
    match change {
        Change::Added => green("+"@),
        Change::Removed => red("-"@),
        _ => yellow("="@),
    }
}

/// What is shown of something that may have changed: where it has, the
/// old and the new text in yellow with an arrow between them; where it has
/// not, one text.
pub open spec fn delta_when(changed: bool, old: Seq<char>, new: Seq<char>, same: Seq<char>) -> Seq<
    SpanView,
> {
    if changed {
        seq![yellow(old), plain("->"@), yellow(new)]
    } else {
        seq![plain(same)]
    }
}

/// A value that may have changed: where it has, the old and the new value
/// in yellow with an arrow between them; where it has not, the value once.
pub open spec fn delta(old: Seq<char>, new: Seq<char>, same: Seq<char>) -> Seq<SpanView> {
    delta_when(old != new, old, new, same)
}

/// The line that stands for the whole report where the node that led the
/// cluster was not found.
pub open spec fn leader_missing_line() -> Seq<SpanView> {
    seq![plain("Master leader was not found in hosts specified, skipping entity diff."@)]
}

/// Opens a line with the sign of a change.
pub fn put_sign(line: &mut Line, change: Change)
    ensures
        final(line)@ == old(line)@.push(sign(change)),
{
    match change {
        Change::Added => line.put("+", Color::Green),
        Change::Removed => line.put("-", Color::Red),
        _ => line.put("=", Color::Yellow),
    }
}

/// Adds to a line what is shown of something that may have changed.
pub fn put_delta_when(line: &mut Line, changed: bool, old_text: &str, new_text: &str, same: &str)
    ensures
        final(line)@ == old(line)@ + delta_when(changed, old_text@, new_text@, same@),
{
    let ghost before = line@;
    if changed {
        line.put(old_text, Color::Yellow);
        line.say("->");
        line.put(new_text, Color::Yellow);
        assert(line@ =~= before + delta_when(changed, old_text@, new_text@, same@));
    } else {
        line.say(same);
        assert(line@ =~= before + delta_when(changed, old_text@, new_text@, same@));
    }
}

/// Adds a value that may have changed to a line.
pub fn put_delta(line: &mut Line, old_value: &str, new_value: &str, same: &str)
    ensures
        final(line)@ == old(line)@ + delta(old_value@, new_value@, same@),
{
    put_delta_when(line, !same_text(old_value, new_value), old_value, new_value, same);
}

/// The line about a keyspace, if its change is reported.
pub open spec fn keyspace_line(records: Records, id: Seq<char>, record: Sides<KeyspaceSide>) -> Option<
    Seq<SpanView>,
> {
    let change = records.keyspace_change(id, record);
    let side = telling_side(change);
    if system_keyspace(id) || change == Change::Unchanged || change == Change::Reappeared {
        None
    } else if change == Change::Modified {
        Some(
            seq![
                sign(change),
                plain(" Database: "@),
                plain(record.first.kind),
                plain("."@),
                yellow(record.first.name),
                plain("->"@),
                yellow(record.second.name),
                plain(", id: "@),
                plain(id),
                plain(" "@),
                plain(colocation_mark(records.keyspace_colocated(id, record, Side::First))),
            ],
        )
    } else {
        Some(
            seq![
                sign(change),
                plain(" Database: "@),
                plain(record.get(side).kind),
                plain("."@),
                plain(record.get(side).name),
                plain(", id: "@),
                plain(id),
                plain(" "@),
                plain(colocation_mark(records.keyspace_colocated(id, record, side))),
            ],
        )
    }
}

/// A line, or none, as the lines it adds to a report.
pub open spec fn as_lines(line: Option<Seq<SpanView>>) -> Seq<Seq<SpanView>> {
    match line {
        Some(l) => seq![l],
        None => Seq::empty(),
    }
}

/// The lines about the first `n` keyspaces of a listing.
pub open spec fn keyspace_lines_upto(
    records: Records,
    listing: Seq<(Seq<char>, Sides<KeyspaceSide>)>,
    n: int,
) -> Seq<Seq<SpanView>>
    decreases n,
{
    if n <= 0 {
        Seq::empty()
    } else {
        keyspace_lines_upto(records, listing, n - 1) + as_lines(
            keyspace_line(records, listing[n - 1].0, listing[n - 1].1),
        )
    }
}

impl EntitiesDiff {
    /// The line about a keyspace, if its change is reported.
    pub fn keyspace_line(&self, id: &String, record: &KeyspaceDiff) -> (r: Option<Line>)
        ensures
            r is Some == keyspace_line(self@, id@, record@) is Some,
            r is Some ==> r->0@ == keyspace_line(self@, id@, record@)->0,
    {
        if is_system_keyspace(id.as_str()) {
            return None;
        }
        let change = self.keyspace_change(id.as_str(), record);
        let mut line = Line::new();
        match change {
            Change::Unchanged | Change::Reappeared => None,
            Change::Added | Change::Removed => {
                let side = match change {
                    Change::Added => Side::Second,
                    _ => Side::First,
                };
                let colocated = self.keyspace_colocated(id.as_str(), record, side);
                put_sign(&mut line, change);
                line.say(" Database: ");
                line.say(record.kind(side).as_str());
                line.say(".");
                line.say(record.name(side).as_str());
                line.say(", id: ");
                line.say(id.as_str());
                line.say(" ");
                put_colocation_mark(&mut line, colocated);
                assert(line@ =~= keyspace_line(self@, id@, record@)->0);
                Some(line)
            },
            Change::Modified => {
                let colocated = self.keyspace_colocated(id.as_str(), record, Side::First);
                put_sign(&mut line, change);
                line.say(" Database: ");
                line.say(record.first_keyspace_type.as_str());
                line.say(".");
                line.put(record.first_keyspace_name.as_str(), Color::Yellow);
                line.say("->");
                line.put(record.second_keyspace_name.as_str(), Color::Yellow);
                line.say(", id: ");
                line.say(id.as_str());
                line.say(" ");
                put_colocation_mark(&mut line, colocated);
                assert(line@ =~= keyspace_line(self@, id@, record@)->0);
                Some(line)
            },
        }
    }
}

/// Whether a table belongs to a system keyspace on either side.
pub open spec fn system_table(record: Sides<TableSide>) -> bool {
    system_keyspace(record.first.keyspace_id) || system_keyspace(record.second.keyspace_id)
}

/// The line about a table, if its change is reported.
pub open spec fn table_line(records: Records, id: Seq<char>, record: Sides<TableSide>) -> Option<
    Seq<SpanView>,
> {
    let change = change_of(record, TableSide::zero());
    let side = telling_side(change);
    let keyspace = records.keyspace(record.get(side).keyspace_id, side);
    if change == Change::Unchanged || records.table_suppressed(id, record) || system_table(record) {
        None
    } else if change == Change::Modified {
        Some(
            seq![
                sign(change),
                plain(" Object:   "@),
                plain(keyspace.kind),
                plain("."@),
                plain(keyspace.name),
                plain("."@),
            ] + delta(record.first.name, record.second.name, record.first.name)
                + seq![plain(", "@), plain("state: "@)] + delta(
                record.first.state,
                record.second.state,
                record.first.state,
            ) + seq![
                plain(", "@),
                plain("id: "@),
                plain(id),
                plain(" "@),
                plain(colocation_mark(records.table_colocated(id, record, side))),
            ],
        )
    } else {
        Some(
            seq![
                sign(change),
                plain(" Object:   "@),
                plain(keyspace.kind),
                plain("."@),
                plain(keyspace.name),
                plain("."@),
                plain(record.get(side).name),
                plain(", state: "@),
                plain(record.get(side).state),
                plain(", id: "@),
                plain(id),
                plain(" "@),
                plain(colocation_mark(records.table_colocated(id, record, side))),
            ],
        )
    }
}

/// The lines about the first `n` tables of a listing.
pub open spec fn table_lines_upto(
    records: Records,
    listing: Seq<(Seq<char>, Sides<TableSide>)>,
    n: int,
) -> Seq<Seq<SpanView>>
    decreases n,
{
    if n <= 0 {
        Seq::empty()
    } else {
        table_lines_upto(records, listing, n - 1) + as_lines(
            table_line(records, listing[n - 1].0, listing[n - 1].1),
        )
    }
}

/// The line about a tablet, if its change is reported.
pub open spec fn tablet_line(records: Records, id: Seq<char>, record: Sides<TabletSide>) -> Option<
    Seq<SpanView>,
> {
    let change = change_of(record, TabletSide::zero());
    if change == Change::Unchanged {
        None
    } else if change == Change::Modified {
        let keyspace = records.keyspace_of_table(record.second.table_id, Side::Second);
        Some(
            seq![
                sign(change),
                plain(" Tablet:   "@),
                plain(keyspace.kind),
                plain("."@),
                plain(keyspace.name),
                plain("."@),
                plain(records.table_name(record.second.table_id, Side::Second)),
                plain("."@),
                plain(id),
                plain(", "@),
            ] + tablet_state(record) + seq![plain(" leader: "@)] + delta_when(
                record.first.leader != record.second.leader,
                records.replica_addr(id, record.first.leader, Side::First),
                records.replica_addr(id, record.second.leader, Side::Second),
                records.replica_addr(id, record.second.leader, Side::Second),
            ),
        )
    } else {
        let side = telling_side(change);
        let keyspace = records.keyspace_of_table(record.get(side).table_id, side);
        Some(
            seq![
                sign(change),
                plain(" Tablet:   "@),
                plain(keyspace.kind),
                plain("."@),
                plain(keyspace.name),
                plain("."@),
                plain(records.table_name(record.get(side).table_id, side)),
                plain("."@),
                plain(id),
                plain(", state: "@),
                plain(record.get(side).state),
                plain(", leader: "@),
                plain(records.replica_addr(id, record.get(side).leader, side)),
            ],
        )
    }
}

/// The state of a modified tablet: where it changed, the old and the new
/// state and a comma; where it did not, the state alone.
pub open spec fn tablet_state(record: Sides<TabletSide>) -> Seq<SpanView> {
    if record.first.state != record.second.state {
        seq![
            plain("state: "@),
            yellow(record.first.state),
            plain("->"@),
            yellow(record.second.state),
            plain(", "@),
        ]
    } else {
        seq![plain("state: "@), plain(record.second.state)]
    }
}

/// The lines about the first `n` tablets of a listing.
pub open spec fn tablet_lines_upto(
    records: Records,
    listing: Seq<(Seq<char>, Sides<TabletSide>)>,
    n: int,
) -> Seq<Seq<SpanView>>
    decreases n,
{
    if n <= 0 {
        Seq::empty()
    } else {
        tablet_lines_upto(records, listing, n - 1) + as_lines(
            tablet_line(records, listing[n - 1].0, listing[n - 1].1),
        )
    }
}

/// The line about a replica, if its change is reported.
pub open spec fn replica_line(
    records: Records,
    id: (Seq<char>, Seq<char>),
    record: Sides<ReplicaSide>,
) -> Option<Seq<SpanView>> {
    let change = change_of(record, ReplicaSide::zero());
    if change == Change::Unchanged {
        None
    } else if change == Change::Modified {
        let keyspace = records.keyspace_of_tablet(id.0, Side::Second);
        Some(
            seq![sign(change), plain(" Replica: "@)] + delta(
                record.first.addr,
                record.second.addr,
                record.second.addr,
            ) + seq![
                plain(":"@),
                plain(keyspace.kind),
                plain("."@),
                plain(keyspace.name),
                plain("."@),
                plain(records.table_name_of_tablet(id.0, Side::Second)),
                plain("."@),
                plain(id.0),
                plain(", "@),
                plain("Type: "@),
            ] + delta(
                record.first.replica_type,
                record.second.replica_type,
                record.second.replica_type,
            ),
        )
    } else {
        let side = telling_side(change);
        let keyspace = records.keyspace_of_tablet(id.0, side);
        Some(
            seq![
                sign(change),
                plain(" Replica:  "@),
                plain(record.get(side).addr),
                plain(":"@),
                plain(keyspace.kind),
                plain("."@),
                plain(keyspace.name),
                plain("."@),
                plain(records.table_name_of_tablet(id.0, side)),
                plain("."@),
                plain(id.0),
                plain(", Type: "@),
                plain(record.get(side).replica_type),
            ],
        )
    }
}

/// The lines about the first `n` replicas of a listing.
pub open spec fn replica_lines_upto(
    records: Records,
    listing: Seq<((Seq<char>, Seq<char>), Sides<ReplicaSide>)>,
    n: int,
) -> Seq<Seq<SpanView>>
    decreases n,
{
    if n <= 0 {
        Seq::empty()
    } else {
        replica_lines_upto(records, listing, n - 1) + as_lines(
            replica_line(records, listing[n - 1].0, listing[n - 1].1),
        )
    }
}

impl EntitiesDiff {
    /// The line about a table, if its change is reported.
    pub fn table_line(&self, id: &String, record: &TablesDiff) -> (r: Option<Line>)
        ensures
            r is Some == table_line(self@, id@, record@) is Some,
            r is Some ==> r->0@ == table_line(self@, id@, record@)->0,
    {
        let change = record.change();
        if change == Change::Unchanged || self.is_table_suppressed(id.as_str(), record) {
            return None;
        }
        if is_system_keyspace(record.first_keyspace_id.as_str()) || is_system_keyspace(
            record.second_keyspace_id.as_str(),
        ) {
            return None;
        }
        let side = match change {
            Change::Added => Side::Second,
            _ => Side::First,
        };
        let kind = self.keyspace_kind(record.keyspace_id(side), side);
        let name = self.keyspace_name(record.keyspace_id(side), side);
        let colocated = self.table_colocated(id.as_str(), record, side);
        let mut line = Line::new();
        put_sign(&mut line, change);
        line.say(" Object:   ");
        line.say(kind.as_str());
        line.say(".");
        line.say(name.as_str());
        line.say(".");
        if change == Change::Modified {
            put_delta(
                &mut line,
                record.first_table_name.as_str(),
                record.second_table_name.as_str(),
                record.first_table_name.as_str(),
            );
            line.say(", ");
            line.say("state: ");
            put_delta(
                &mut line,
                record.first_state.as_str(),
                record.second_state.as_str(),
                record.first_state.as_str(),
            );
            line.say(", ");
            line.say("id: ");
        } else {
            line.say(record.name(side).as_str());
            line.say(", state: ");
            line.say(record.state(side).as_str());
            line.say(", id: ");
        }
        line.say(id.as_str());
        line.say(" ");
        put_colocation_mark(&mut line, colocated);
        assert(line@ =~= table_line(self@, id@, record@)->0);
        Some(line)
    }

    /// The line about a tablet, if its change is reported.
    pub fn tablet_line(&self, id: &String, record: &TabletsDiff) -> (r: Option<Line>)
        ensures
            r is Some == tablet_line(self@, id@, record@) is Some,
            r is Some ==> r->0@ == tablet_line(self@, id@, record@)->0,
    {
        let change = record.change();
        if change == Change::Unchanged {
            return None;
        }
        let side = match change {
            Change::Removed => Side::First,
            _ => Side::Second,
        };
        let (kind, name) = self.table_keyspace(record.table_id(side), side);
        let table_name = self.table_name(record.table_id(side), side);
        let mut line = Line::new();
        put_sign(&mut line, change);
        line.say(" Tablet:   ");
        line.say(kind.as_str());
        line.say(".");
        line.say(name.as_str());
        line.say(".");
        line.say(table_name.as_str());
        line.say(".");
        line.say(id.as_str());
        if change == Change::Modified {
            let first_addr = self.replica_addr(id, &record.first_leader, Side::First);
            let second_addr = self.replica_addr(id, &record.second_leader, Side::Second);
            line.say(", ");
            if record.first_state != record.second_state {
                line.say("state: ");
                line.put(record.first_state.as_str(), Color::Yellow);
                line.say("->");
                line.put(record.second_state.as_str(), Color::Yellow);
                line.say(", ");
            } else {
                line.say("state: ");
                line.say(record.second_state.as_str());
            }
            line.say(" leader: ");
            put_delta_when(
                &mut line,
                record.first_leader != record.second_leader,
                first_addr.as_str(),
                second_addr.as_str(),
                second_addr.as_str(),
            );
        } else {
            let addr = self.replica_addr(id, record.leader(side), side);
            line.say(", state: ");
            line.say(record.state(side).as_str());
            line.say(", leader: ");
            line.say(addr.as_str());
        }
        assert(line@ =~= tablet_line(self@, id@, record@)->0);
        Some(line)
    }

    /// The line about a replica, if its change is reported.
    pub fn replica_line(&self, id: &(String, String), record: &ReplicasDiff) -> (r: Option<Line>)
        ensures
            r is Some == replica_line(self@, id@, record@) is Some,
            r is Some ==> r->0@ == replica_line(self@, id@, record@)->0,
    {
        let change = record.change();
        if change == Change::Unchanged {
            return None;
        }
        let side = match change {
            Change::Removed => Side::First,
            _ => Side::Second,
        };
        let (kind, name) = self.tablet_keyspace(&id.0, side);
        let table_name = self.tablet_table_name(&id.0, side);
        let mut line = Line::new();
        put_sign(&mut line, change);
        if change == Change::Modified {
            line.say(" Replica: ");
            put_delta(
                &mut line,
                record.first_addr.as_str(),
                record.second_addr.as_str(),
                record.second_addr.as_str(),
            );
        } else {
            line.say(" Replica:  ");
            line.say(record.addr(side).as_str());
        }
        line.say(":");
        line.say(kind.as_str());
        line.say(".");
        line.say(name.as_str());
        line.say(".");
        line.say(table_name.as_str());
        line.say(".");
        line.say(id.0.as_str());
        if change == Change::Modified {
            line.say(", ");
            line.say("Type: ");
            put_delta(
                &mut line,
                record.first_replica_type.as_str(),
                record.second_replica_type.as_str(),
                record.second_replica_type.as_str(),
            );
        } else {
            line.say(", Type: ");
            line.say(record.replica_type(side).as_str());
        }
        assert(line@ =~= replica_line(self@, id@, record@)->0);
        Some(line)
    }
}

/// The report of a difference: the keyspaces, tables, tablets and replicas
/// that changed, each kind as its listing orders it; or, without a leader,
/// the one line that says so.
pub open spec fn diff_lines(
    records: Records,
    keyspaces: Seq<(Seq<char>, Sides<KeyspaceSide>)>,
    tables: Seq<(Seq<char>, Sides<TableSide>)>,
    tablets: Seq<(Seq<char>, Sides<TabletSide>)>,
    replicas: Seq<((Seq<char>, Seq<char>), Sides<ReplicaSide>)>,
    master_found: bool,
) -> Seq<Seq<SpanView>> {
    if !master_found {
        seq![leader_missing_line()]
    } else {
        keyspace_lines_upto(records, keyspaces, keyspaces.len() as int) + table_lines_upto(
            records,
            tables,
            tables.len() as int,
        ) + tablet_lines_upto(records, tablets, tablets.len() as int) + replica_lines_upto(
            records,
            replicas,
            replicas.len() as int,
        )
    }
}

/// The identifiers of the keyspaces among the first `n` of a listing that
/// had no tables and have tables again.
pub open spec fn reappeared_upto(
    records: Records,
    listing: Seq<(Seq<char>, Sides<KeyspaceSide>)>,
    n: int,
) -> Seq<Seq<char>>
    decreases n,
{
    if n <= 0 {
        Seq::empty()
    } else if records.keyspace_change(listing[n - 1].0, listing[n - 1].1) == Change::Reappeared {
        reappeared_upto(records, listing, n - 1).push(listing[n - 1].0)
    } else {
        reappeared_upto(records, listing, n - 1)
    }
}

/// Adds a line to a report, if there is one.
fn push_line(out: &mut Vec<Line>, line: Option<Line>)
    ensures
        views(final(out)@) == views(old(out)@) + as_lines(
            match line {
                Some(l) => Some(l@),
                None => None,
            },
        ),
{
    let ghost before = views(out@);
    match line {
        Some(l) => {
            proof {
                lemma_views_push(out@, l);
            }
            out.push(l);
            assert(views(out@) =~= before + seq![l@]);
        },
        None => {
            assert(views(out@) =~= before + Seq::<Seq<SpanView>>::empty());
        },
    }
}

impl EntitiesDiff {
    /// The report of the difference.
    pub open spec fn lines(&self) -> Seq<Seq<SpanView>> {
        diff_lines(
            self@,
            self.keyspaces.listing(),
            self.tables.listing(),
            self.tablets.listing(),
            self.replicas.listing(),
            self.master_found,
        )
    }

    /// The report of the difference, line by line: where no leader was
    /// found for one of the two observations, the one line that says so;
    /// else a line for every keyspace, table, tablet and replica that was
    /// added, removed or modified, in this order of the kinds and within a
    /// kind in ascending order of the identifiers. Changes of catalog
    /// tables are left out.
    pub fn print(&self) -> (r: Vec<Line>)
        ensures
            views(r@) == self.lines(),
    {
        let mut out: Vec<Line> = Vec::new();
        if !self.master_found {
            let mut line = Line::new();
            line.say("Master leader was not found in hosts specified, skipping entity diff.");
            proof {
                lemma_views_push(out@, line);
                assert(line@ =~= leader_missing_line());
            }
            out.push(line);
            assert(views(out@) =~= seq![leader_missing_line()]);
            return out;
        }
        let ghost records = self@;
        let ghost kl = self.keyspaces.listing();
        let ghost tl = self.tables.listing();
        let ghost sl = self.tablets.listing();
        let ghost rl = self.replicas.listing();
        assert(views(out@) =~= Seq::<Seq<SpanView>>::empty());

        let n = self.keyspaces.len();
        let mut i: usize = 0;
        while i < n
            invariant
                i <= n,
                n == kl.len(),
                records == self@,
                kl == self.keyspaces.listing(),
                views(out@) == keyspace_lines_upto(records, kl, i as int),
            decreases n - i,
        {
            let line = self.keyspace_line(self.keyspaces.key_at(i), self.keyspaces.value_at(i));
            push_line(&mut out, line);
            i += 1;
        }
        let ghost done_keyspaces = views(out@);

        let n = self.tables.len();
        let mut i: usize = 0;
        assert(done_keyspaces + Seq::<Seq<SpanView>>::empty() =~= done_keyspaces);
        while i < n
            invariant
                i <= n,
                n == tl.len(),
                records == self@,
                tl == self.tables.listing(),
                views(out@) == done_keyspaces + table_lines_upto(records, tl, i as int),
            decreases n - i,
        {
            let line = self.table_line(self.tables.key_at(i), self.tables.value_at(i));
            let ghost before = table_lines_upto(records, tl, i as int);
            push_line(&mut out, line);
            assert(views(out@) =~= done_keyspaces + table_lines_upto(records, tl, i + 1));
            i += 1;
        }
        let ghost done_tables = views(out@);

        let n = self.tablets.len();
        let mut i: usize = 0;
        assert(done_tables + Seq::<Seq<SpanView>>::empty() =~= done_tables);
        while i < n
            invariant
                i <= n,
                n == sl.len(),
                records == self@,
                sl == self.tablets.listing(),
                views(out@) == done_tables + tablet_lines_upto(records, sl, i as int),
            decreases n - i,
        {
            let line = self.tablet_line(self.tablets.key_at(i), self.tablets.value_at(i));
            push_line(&mut out, line);
            assert(views(out@) =~= done_tables + tablet_lines_upto(records, sl, i + 1));
            i += 1;
        }
        let ghost done_tablets = views(out@);

        let n = self.replicas.len();
        let mut i: usize = 0;
        assert(done_tablets + Seq::<Seq<SpanView>>::empty() =~= done_tablets);
        while i < n
            invariant
                i <= n,
                n == rl.len(),
                records == self@,
                rl == self.replicas.listing(),
                views(out@) == done_tablets + replica_lines_upto(records, rl, i as int),
            decreases n - i,
        {
            let line = self.replica_line(self.replicas.key_at(i), self.replicas.value_at(i));
            push_line(&mut out, line);
            assert(views(out@) =~= done_tablets + replica_lines_upto(records, rl, i + 1));
            i += 1;
        }
        out
    }

    /// The identifiers of the relational keyspaces that had no tables in
    /// the first observation and have tables in the second, in ascending
    /// order. Such a keyspace has no line in the report.
    pub fn reappeared_keyspaces(&self) -> (r: Vec<String>)
        ensures
            views(r@) == reappeared_upto(
                self@,
                self.keyspaces.listing(),
                self.keyspaces.listing().len() as int,
            ),
    {
        let mut out: Vec<String> = Vec::new();
        let n = self.keyspaces.len();
        let mut i: usize = 0;
        assert(views(out@) =~= Seq::<Seq<char>>::empty());
        while i < n
            invariant
                i <= n,
                n == self.keyspaces.listing().len(),
                views(out@) == reappeared_upto(self@, self.keyspaces.listing(), i as int),
            decreases n - i,
        {
            let id = self.keyspaces.key_at(i);
            if self.keyspace_change(id.as_str(), self.keyspaces.value_at(i)) == Change::Reappeared {
                let copy = id.clone();
                proof {
                    lemma_views_push(out@, copy);
                }
                out.push(copy);
            }
            i += 1;
        }
        out
    }
}

} // verus!
