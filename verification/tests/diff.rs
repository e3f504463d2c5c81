use entities::change::Side;
use entities::classify::Change;
use entities::diff::EntitiesDiff;
use entities::model::AllEntities;
use entities::model::Entities;
use entities::model::Keyspaces;
use entities::model::Replicas;
use entities::model::Tables;
use entities::model::Tablets;
use entities::records::KeyspaceDiff;
use entities::records::ReplicasDiff;
use entities::records::TablesDiff;
use entities::records::TabletsDiff;
use entities::records::is_blank;
use entities::records::leader_of;
use entities::report::Color;
use entities::report::Line;

const D1: &str = "000040000000300080000000000000aa";
const LEADER: &str = "yb-1.local:7000";

fn keyspace(id: &str, name: &str, kind: &str) -> Keyspaces {
    Keyspaces {
        keyspace_id: id.to_string(),
        keyspace_name: name.to_string(),
        keyspace_type: kind.to_string(),
    }
}

fn table(id: &str, keyspace_id: &str, name: &str, state: &str) -> Tables {
    Tables {
        table_id: id.to_string(),
        keyspace_id: keyspace_id.to_string(),
        table_name: name.to_string(),
        state: state.to_string(),
    }
}

fn replica(node: &str, addr: &str, role: &str) -> Replicas {
    Replicas { replica_type: role.to_string(), server_uuid: node.to_string(), addr: addr.to_string() }
}

fn tablet(id: &str, table_id: &str, state: &str, leader: Option<&str>, replicas: Vec<Replicas>) -> Tablets {
    Tablets {
        table_id: table_id.to_string(),
        tablet_id: id.to_string(),
        state: state.to_string(),
        replicas: Some(replicas),
        leader: leader.map(|l| l.to_string()),
    }
}

fn pass(node: &str, keyspaces: Vec<Keyspaces>, tables: Vec<Tables>, tablets: Vec<Tablets>) -> AllEntities {
    AllEntities {
        entities: vec![Entities {
            hostname_port: Some(node.to_string()),
            timestamp: None,
            keyspaces,
            tables,
            tablets,
        }],
    }
}

fn user_table(n: u32) -> String {
    format!("000040000000300080000000{:08x}", n)
}

fn texts(lines: &Vec<Line>) -> Vec<String> {
    lines.iter().map(|l| l.text()).collect()
}

fn diff(a: AllEntities, b: AllEntities) -> EntitiesDiff {
    EntitiesDiff::snapshot_diff(a, LEADER.to_string(), b, LEADER.to_string()).0
}

#[test]
fn dropped_relational_database_is_removed() {
    let a = pass(
        LEADER,
        vec![keyspace(D1, "d1", "ysql")],
        vec![
            table(&user_table(20000), D1, "t1", "RUNNING"),
            table(&user_table(20001), D1, "t2", "RUNNING"),
            table(&user_table(20002), D1, "t3", "RUNNING"),
        ],
        vec![tablet("s1", &format!("{}.colocated.parent.uuid", D1), "RUNNING", None, vec![])],
    );
    let b = pass(LEADER, vec![keyspace(D1, "d1", "ysql")], vec![], vec![]);
    let d = diff(a, b);
    let record = d.keyspaces.get(&D1.to_string()).unwrap();
    assert_eq!(record.first_keyspace_name, record.second_keyspace_name);
    assert_eq!(d.keyspace_change(D1, record), Change::Removed);
    assert!(d.keyspace_colocated(D1, record, Side::First));
    assert!(!d.keyspace_colocated(D1, record, Side::Second));
    let lines = texts(&d.print());
    assert_eq!(lines[0], format!("- Database: ysql.d1, id: {} [colocated]", D1));
}

#[test]
fn dropped_relational_database_without_root_has_no_mark() {
    let a = pass(
        LEADER,
        vec![keyspace(D1, "d1", "ysql")],
        vec![table(&user_table(20000), D1, "t1", "RUNNING")],
        vec![tablet("s1", &user_table(20000), "RUNNING", None, vec![])],
    );
    let b = pass(LEADER, vec![keyspace(D1, "d1", "ysql")], vec![], vec![]);
    let d = diff(a, b);
    let lines = texts(&d.print());
    assert_eq!(lines[0], format!("- Database: ysql.d1, id: {} ", D1));
}

#[test]
fn removed_user_table_without_tablets_is_colocated() {
    let t1 = user_table(20000);
    let root = format!("{}.colocated.parent.uuid", D1);
    let a = pass(
        LEADER,
        vec![keyspace(D1, "d1", "ysql")],
        vec![table(&t1, D1, "t1", "RUNNING"), table(&user_table(20001), D1, "t2", "RUNNING")],
        vec![tablet("s1", &root, "RUNNING", None, vec![])],
    );
    let b = pass(
        LEADER,
        vec![keyspace(D1, "d1", "ysql")],
        vec![table(&user_table(20001), D1, "t2", "RUNNING")],
        vec![tablet("s1", &root, "RUNNING", None, vec![])],
    );
    let d = diff(a, b);
    let record = d.tables.get(&t1).unwrap();
    assert_eq!(record.change(), Change::Removed);
    assert!(d.table_colocated(&t1, record, Side::First));
    assert_eq!(
        texts(&d.print()),
        vec![format!("- Object:   ysql.d1.t1, state: RUNNING, id: {} [colocated]", t1)]
    );
}

#[test]
fn removed_user_table_with_a_tablet_is_not_colocated() {
    let t1 = user_table(20000);
    let a = pass(
        LEADER,
        vec![keyspace(D1, "d1", "ysql")],
        vec![table(&t1, D1, "t1", "RUNNING"), table(&user_table(20001), D1, "t2", "RUNNING")],
        vec![tablet("s1", &t1, "RUNNING", None, vec![])],
    );
    let b = pass(
        LEADER,
        vec![keyspace(D1, "d1", "ysql")],
        vec![table(&user_table(20001), D1, "t2", "RUNNING")],
        vec![],
    );
    let d = diff(a, b);
    assert_eq!(
        texts(&d.print()),
        vec![
            format!("- Object:   ysql.d1.t1, state: RUNNING, id: {} ", t1),
            "- Tablet:   ysql.d1.t1.s1, state: RUNNING, leader: ".to_string(),
        ]
    );
}

#[test]
fn added_catalog_table_is_suppressed() {
    let t1 = user_table(5);
    let a = pass(
        LEADER,
        vec![keyspace(D1, "d1", "ysql")],
        vec![table(&user_table(20000), D1, "t0", "RUNNING")],
        vec![],
    );
    let b = pass(
        LEADER,
        vec![keyspace(D1, "d1", "ysql")],
        vec![table(&user_table(20000), D1, "t0", "RUNNING"), table(&t1, D1, "t1", "RUNNING")],
        vec![],
    );
    let d = diff(a, b);
    let record = d.tables.get(&t1).unwrap();
    assert_eq!(record.change(), Change::Added);
    assert!(d.is_table_suppressed(&t1, record));
    assert!(d.print().is_empty());
}

#[test]
fn removed_catalog_table_is_suppressed() {
    let t1 = user_table(5);
    let a = pass(
        LEADER,
        vec![keyspace(D1, "d1", "ysql")],
        vec![table(&user_table(20000), D1, "t0", "RUNNING"), table(&t1, D1, "t1", "RUNNING")],
        vec![],
    );
    let b = pass(
        LEADER,
        vec![keyspace(D1, "d1", "ysql")],
        vec![table(&user_table(20000), D1, "t0", "RUNNING")],
        vec![],
    );
    let d = diff(a, b);
    assert!(d.is_table_suppressed(&t1, d.tables.get(&t1).unwrap()));
    assert!(d.print().is_empty());
}

#[test]
fn added_low_numbered_table_of_another_kind_is_reported() {
    let t1 = user_table(5);
    let a = pass(LEADER, vec![keyspace("c1", "cq", "ycql")], vec![], vec![]);
    let b = pass(
        LEADER,
        vec![keyspace("c1", "cq", "ycql")],
        vec![table(&t1, "c1", "t1", "RUNNING")],
        vec![],
    );
    let d = diff(a, b);
    assert!(!d.is_table_suppressed(&t1, d.tables.get(&t1).unwrap()));
    assert_eq!(
        texts(&d.print()),
        vec![format!("+ Object:   ycql.cq.t1, state: RUNNING, id: {} ", t1)]
    );
}

#[test]
fn modified_catalog_table_is_reported() {
    let t1 = user_table(5);
    let a = pass(LEADER, vec![keyspace(D1, "d1", "ysql")], vec![table(&t1, D1, "t1", "RUNNING")], vec![]);
    let b = pass(LEADER, vec![keyspace(D1, "d1", "ysql")], vec![table(&t1, D1, "t1", "DELETING")], vec![]);
    let d = diff(a, b);
    assert_eq!(
        texts(&d.print()),
        vec![format!("= Object:   ysql.d1.t1, state: RUNNING->DELETING, id: {} ", t1)]
    );
}

#[test]
fn database_only_in_the_second_is_added() {
    let d2 = "000040010000300080000000000000bb";
    let a = pass(LEADER, vec![keyspace(D1, "d1", "ysql")], vec![table(&user_table(20000), D1, "t", "RUNNING")], vec![]);
    let b = pass(
        LEADER,
        vec![keyspace(D1, "d1", "ysql"), keyspace(d2, "d2", "ysql")],
        vec![table(&user_table(20000), D1, "t", "RUNNING"), table(&user_table(5), d2, "c", "RUNNING")],
        vec![],
    );
    let d = diff(a, b);
    let record = d.keyspaces.get(&d2.to_string()).unwrap();
    assert_eq!(d.keyspace_change(d2, record), Change::Added);
    assert_eq!(record.first_keyspace_name, "");
    assert_eq!(record.first_keyspace_type, "");
    assert_eq!(texts(&d.print()), vec![format!("+ Database: ysql.d2, id: {} ", d2)]);
    assert_eq!(d.print()[0].spans[0].color, Color::Green);
    assert_eq!(d.print()[0].spans[0].text, "+");
}

#[test]
fn database_only_in_the_first_is_removed() {
    let a = pass(LEADER, vec![keyspace("c1", "cq", "ycql")], vec![], vec![]);
    let b = pass(LEADER, vec![], vec![], vec![]);
    let d = diff(a, b);
    assert_eq!(d.keyspace_change("c1", d.keyspaces.get(&"c1".to_string()).unwrap()), Change::Removed);
    assert_eq!(texts(&d.print()), vec!["- Database: ycql.cq, id: c1 ".to_string()]);
    assert_eq!(d.print()[0].spans[0].color, Color::Red);
}

#[test]
fn renamed_database_is_modified() {
    let a = pass(LEADER, vec![keyspace("c1", "old", "ycql")], vec![], vec![]);
    let b = pass(LEADER, vec![keyspace("c1", "new", "ycql")], vec![], vec![]);
    let d = diff(a, b);
    assert_eq!(d.keyspace_change("c1", d.keyspaces.get(&"c1".to_string()).unwrap()), Change::Modified);
    let lines = d.print();
    assert_eq!(texts(&lines), vec!["= Database: ycql.old->new, id: c1 ".to_string()]);
    let yellow: Vec<String> = lines[0]
        .spans
        .iter()
        .filter(|s| s.color == Color::Yellow)
        .map(|s| s.text.clone())
        .collect();
    assert_eq!(yellow, vec!["=", "old", "new"]);
}

#[test]
fn relational_database_that_has_tables_again_is_an_anomaly() {
    let a = pass(LEADER, vec![keyspace(D1, "d1", "ysql")], vec![], vec![]);
    let b = pass(
        LEADER,
        vec![keyspace(D1, "d1", "ysql")],
        vec![table(&user_table(3), D1, "c", "RUNNING")],
        vec![],
    );
    let d = diff(a, b);
    assert_eq!(d.keyspace_change(D1, d.keyspaces.get(&D1.to_string()).unwrap()), Change::Reappeared);
    assert!(d.print().is_empty());
    assert_eq!(d.reappeared_keyspaces(), vec![D1.to_string()]);
}

#[test]
fn relational_database_without_tables_on_both_sides_is_unchanged() {
    let a = pass(LEADER, vec![keyspace(D1, "d1", "ysql")], vec![], vec![]);
    let b = pass(LEADER, vec![keyspace(D1, "d1", "ysql")], vec![], vec![]);
    let d = diff(a, b);
    assert_eq!(d.keyspace_change(D1, d.keyspaces.get(&D1.to_string()).unwrap()), Change::Unchanged);
    assert!(d.print().is_empty());
    assert!(d.reappeared_keyspaces().is_empty());
}

#[test]
fn changed_leader_shows_both_addresses() {
    let t1 = user_table(20000);
    let replicas = || vec![replica("replica-1", "yb-1.local:9100", "VOTER"), replica("replica-2", "yb-2.local:9100", "VOTER")];
    let a = pass(
        LEADER,
        vec![keyspace(D1, "d1", "ysql")],
        vec![table(&t1, D1, "t1", "RUNNING")],
        vec![tablet("s1", &t1, "RUNNING", Some("replica-1"), replicas())],
    );
    let b = pass(
        LEADER,
        vec![keyspace(D1, "d1", "ysql")],
        vec![table(&t1, D1, "t1", "RUNNING")],
        vec![tablet("s1", &t1, "RUNNING", Some("replica-2"), replicas())],
    );
    let d = diff(a, b);
    let record = d.tablets.get(&"s1".to_string()).unwrap();
    assert_eq!(record.change(), Change::Modified);
    assert_eq!(record.first_leader, "replica-1");
    assert_eq!(record.second_leader, "replica-2");
    let lines = d.print();
    assert_eq!(
        texts(&lines),
        vec!["= Tablet:   ysql.d1.t1.s1, state: RUNNING leader: yb-1.local:9100->yb-2.local:9100".to_string()]
    );
    let yellow: Vec<String> = lines[0]
        .spans
        .iter()
        .filter(|s| s.color == Color::Yellow)
        .map(|s| s.text.clone())
        .collect();
    assert_eq!(yellow, vec!["=", "yb-1.local:9100", "yb-2.local:9100"]);
}

#[test]
fn changed_tablet_state_is_shown_with_an_arrow() {
    let t1 = user_table(20000);
    let a = pass(
        LEADER,
        vec![keyspace(D1, "d1", "ysql")],
        vec![table(&t1, D1, "t1", "RUNNING")],
        vec![tablet("s1", &t1, "CREATING", Some("n1"), vec![replica("n1", "a:9100", "VOTER")])],
    );
    let b = pass(
        LEADER,
        vec![keyspace(D1, "d1", "ysql")],
        vec![table(&t1, D1, "t1", "RUNNING")],
        vec![tablet("s1", &t1, "RUNNING", Some("n1"), vec![replica("n1", "a:9100", "VOTER")])],
    );
    let d = diff(a, b);
    assert_eq!(
        texts(&d.print()),
        vec!["= Tablet:   ysql.d1.t1.s1, state: CREATING->RUNNING,  leader: a:9100".to_string()]
    );
}

#[test]
fn added_tablet_and_replicas_are_reported_after_tables() {
    let t1 = user_table(20000);
    let a = pass(LEADER, vec![keyspace(D1, "d1", "ysql")], vec![table(&user_table(20001), D1, "t0", "RUNNING")], vec![]);
    let b = pass(
        LEADER,
        vec![keyspace(D1, "d1", "ysql")],
        vec![table(&user_table(20001), D1, "t0", "RUNNING"), table(&t1, D1, "t1", "RUNNING")],
        vec![tablet(
            "s1",
            &t1,
            "RUNNING",
            Some("n2"),
            vec![replica("n2", "b:9100", "VOTER"), replica("n1", "a:9100", "OBSERVER")],
        )],
    );
    let d = diff(a, b);
    assert_eq!(
        texts(&d.print()),
        vec![
            format!("+ Object:   ysql.d1.t1, state: RUNNING, id: {} ", t1),
            "+ Tablet:   ysql.d1.t1.s1, state: RUNNING, leader: b:9100".to_string(),
            "+ Replica:  a:9100:ysql.d1.t1.s1, Type: OBSERVER".to_string(),
            "+ Replica:  b:9100:ysql.d1.t1.s1, Type: VOTER".to_string(),
        ]
    );
}

#[test]
fn modified_replica_shows_what_changed() {
    let t1 = user_table(20000);
    let a = pass(
        LEADER,
        vec![keyspace(D1, "d1", "ysql")],
        vec![table(&t1, D1, "t1", "RUNNING")],
        vec![tablet("s1", &t1, "RUNNING", None, vec![replica("n1", "a:9100", "OBSERVER"), replica("n2", "b:9100", "VOTER")])],
    );
    let b = pass(
        LEADER,
        vec![keyspace(D1, "d1", "ysql")],
        vec![table(&t1, D1, "t1", "RUNNING")],
        vec![tablet("s1", &t1, "RUNNING", None, vec![replica("n1", "a:9100", "VOTER"), replica("n2", "c:9100", "VOTER")])],
    );
    let d = diff(a, b);
    assert_eq!(
        texts(&d.print()),
        vec![
            "= Replica: a:9100:ysql.d1.t1.s1, Type: OBSERVER->VOTER".to_string(),
            "= Replica: b:9100->c:9100:ysql.d1.t1.s1, Type: VOTER".to_string(),
        ]
    );
}

#[test]
fn renamed_table_is_modified() {
    let t1 = user_table(20000);
    let a = pass(LEADER, vec![keyspace(D1, "d1", "ysql")], vec![table(&t1, D1, "old", "RUNNING")], vec![tablet("s1", &t1, "RUNNING", None, vec![])]);
    let b = pass(LEADER, vec![keyspace(D1, "d1", "ysql")], vec![table(&t1, D1, "new", "RUNNING")], vec![tablet("s1", &t1, "RUNNING", None, vec![])]);
    let d = diff(a, b);
    assert_eq!(
        texts(&d.print()),
        vec![format!("= Object:   ysql.d1.old->new, state: RUNNING, id: {} ", t1)]
    );
}

#[test]
fn records_are_reported_in_identifier_order() {
    let a = pass(LEADER, vec![], vec![], vec![]);
    let b = pass(
        LEADER,
        vec![keyspace("k3", "c", "ycql"), keyspace("k1", "a", "ycql"), keyspace("k2", "b", "ycql"), keyspace("K9", "z", "ycql")],
        vec![],
        vec![],
    );
    let d = diff(a, b);
    assert_eq!(
        texts(&d.print()),
        vec![
            "+ Database: ycql.z, id: K9 ".to_string(),
            "+ Database: ycql.a, id: k1 ".to_string(),
            "+ Database: ycql.b, id: k2 ".to_string(),
            "+ Database: ycql.c, id: k3 ".to_string(),
        ]
    );
}

#[test]
fn diff_of_a_pass_with_itself_is_empty() {
    let t1 = user_table(20000);
    let make = || {
        pass(
            LEADER,
            vec![keyspace(D1, "d1", "ysql"), keyspace("c1", "cq", "ycql"), keyspace("d0", "gone", "ysql")],
            vec![table(&t1, D1, "t1", "RUNNING"), table(&user_table(7), D1, "cat", "RUNNING")],
            vec![tablet("s1", &t1, "RUNNING", Some("n1"), vec![replica("n1", "a:9100", "VOTER"), replica("n2", "b:9100", "VOTER")])],
        )
    };
    let d = diff(make(), make());
    assert!(d.master_found);
    assert!(d.print().is_empty());
    assert!(d.reappeared_keyspaces().is_empty());
    assert_eq!(d.keyspaces.len(), 3);
    assert_eq!(d.tables.len(), 2);
    assert_eq!(d.tablets.len(), 1);
    assert_eq!(d.replicas.len(), 2);
    for i in 0..d.keyspaces.len() {
        assert_eq!(d.keyspace_change(d.keyspaces.key_at(i), d.keyspaces.value_at(i)), Change::Unchanged);
    }
    for i in 0..d.tables.len() {
        assert_eq!(d.tables.value_at(i).change(), Change::Unchanged);
    }
    for i in 0..d.tablets.len() {
        assert_eq!(d.tablets.value_at(i).change(), Change::Unchanged);
    }
    for i in 0..d.replicas.len() {
        assert_eq!(d.replicas.value_at(i).change(), Change::Unchanged);
    }
}

#[test]
fn exchanging_the_passes_exchanges_the_sides() {
    let t1 = user_table(20000);
    let t2 = user_table(20001);
    let a = || {
        pass(
            LEADER,
            vec![keyspace(D1, "d1", "ysql"), keyspace("c1", "cq", "ycql")],
            vec![table(&t1, D1, "t1", "RUNNING")],
            vec![tablet("s1", &t1, "RUNNING", Some("n1"), vec![replica("n1", "a:9100", "VOTER")])],
        )
    };
    let b = || {
        pass(
            LEADER,
            vec![keyspace(D1, "renamed", "ysql")],
            vec![table(&t1, D1, "t1", "DELETING"), table(&t2, D1, "t2", "RUNNING")],
            vec![tablet("s1", &t1, "RUNNING", Some("n2"), vec![replica("n2", "b:9100", "VOTER")])],
        )
    };
    let ab = diff(a(), b());
    let ba = diff(b(), a());
    assert_eq!(ab.keyspaces.len(), ba.keyspaces.len());
    for i in 0..ab.keyspaces.len() {
        assert_eq!(ab.keyspaces.key_at(i), ba.keyspaces.key_at(i));
        let (x, y) = (ab.keyspaces.value_at(i), ba.keyspaces.value_at(i));
        assert_eq!(x.first_keyspace_name, y.second_keyspace_name);
        assert_eq!(x.first_keyspace_type, y.second_keyspace_type);
        assert_eq!(x.second_keyspace_name, y.first_keyspace_name);
        assert_eq!(x.second_keyspace_type, y.first_keyspace_type);
    }
    assert_eq!(ab.tables.len(), ba.tables.len());
    for i in 0..ab.tables.len() {
        assert_eq!(ab.tables.key_at(i), ba.tables.key_at(i));
        let (x, y) = (ab.tables.value_at(i), ba.tables.value_at(i));
        assert_eq!(x.first_keyspace_id, y.second_keyspace_id);
        assert_eq!(x.first_table_name, y.second_table_name);
        assert_eq!(x.first_state, y.second_state);
        assert_eq!(x.second_keyspace_id, y.first_keyspace_id);
        assert_eq!(x.second_table_name, y.first_table_name);
        assert_eq!(x.second_state, y.first_state);
        let mirrored = match x.change() {
            Change::Added => Change::Removed,
            Change::Removed => Change::Added,
            other => other,
        };
        assert_eq!(y.change(), mirrored);
    }
    assert_eq!(ab.tablets.len(), ba.tablets.len());
    for i in 0..ab.tablets.len() {
        let (x, y) = (ab.tablets.value_at(i), ba.tablets.value_at(i));
        assert_eq!(x.first_leader, y.second_leader);
        assert_eq!(x.second_leader, y.first_leader);
    }
    assert_eq!(ab.replicas.len(), 2);
    assert_eq!(ba.replicas.len(), 2);
    for i in 0..ab.replicas.len() {
        assert_eq!(ab.replicas.key_at(i), ba.replicas.key_at(i));
        let (x, y) = (ab.replicas.value_at(i), ba.replicas.value_at(i));
        assert_eq!(x.first_addr, y.second_addr);
        assert_eq!(x.second_addr, y.first_addr);
        assert_eq!(x.first_replica_type, y.second_replica_type);
        assert_eq!(x.second_replica_type, y.first_replica_type);
    }
}

#[test]
fn the_sides_may_be_merged_in_either_order() {
    let a = || pass(LEADER, vec![keyspace("k1", "a", "ycql"), keyspace("k2", "b", "ycql")], vec![], vec![]);
    let b = || pass(LEADER, vec![keyspace("k2", "bb", "ycql"), keyspace("k3", "c", "ycql")], vec![], vec![]);
    let mut x = EntitiesDiff::new();
    x.first_snapshot(a(), LEADER.to_string());
    x.second_snapshot(b(), LEADER.to_string());
    let mut y = EntitiesDiff::new();
    y.second_snapshot(b(), LEADER.to_string());
    y.first_snapshot(a(), LEADER.to_string());
    assert_eq!(texts(&x.print()), texts(&y.print()));
    assert_eq!(
        texts(&x.print()),
        vec![
            "- Database: ycql.a, id: k1 ".to_string(),
            "= Database: ycql.b->bb, id: k2 ".to_string(),
            "+ Database: ycql.c, id: k3 ".to_string(),
        ]
    );
}

#[test]
fn only_the_leaders_observation_is_merged() {
    let mut a = pass("yb-2.local:7000", vec![keyspace("k1", "other", "ycql")], vec![], vec![]);
    a.entities.push(Entities {
        hostname_port: Some(LEADER.to_string()),
        timestamp: None,
        keyspaces: vec![keyspace("k1", "mine", "ycql")],
        tables: vec![],
        tablets: vec![],
    });
    a.entities.push(Entities {
        hostname_port: None,
        timestamp: None,
        keyspaces: vec![keyspace("k7", "nobody", "ycql")],
        tables: vec![],
        tablets: vec![],
    });
    let mut d = EntitiesDiff::new();
    let dups = d.first_snapshot(a, LEADER.to_string());
    assert!(dups.is_empty());
    assert!(d.master_found);
    assert_eq!(d.keyspaces.len(), 1);
    assert_eq!(d.keyspaces.get(&"k1".to_string()).unwrap().first_keyspace_name, "mine");
}

#[test]
fn without_a_leader_nothing_is_merged() {
    let a = pass(LEADER, vec![keyspace("k1", "a", "ycql")], vec![], vec![]);
    let mut d = EntitiesDiff::new();
    d.first_snapshot(a, String::new());
    assert!(!d.master_found);
    assert!(d.keyspaces.is_empty());
    assert_eq!(
        texts(&d.print()),
        vec!["Master leader was not found in hosts specified, skipping entity diff.".to_string()]
    );
}

#[test]
fn a_new_engine_has_found_no_leader() {
    let d = EntitiesDiff::new();
    assert!(!d.master_found);
    assert!(d.keyspaces.is_empty() && d.tables.is_empty() && d.tablets.is_empty() && d.replicas.is_empty());
    assert_eq!(d.print().len(), 1);
}

#[test]
fn of_a_repeated_identifier_the_first_occurrence_stands() {
    let t1 = user_table(20000);
    let a = pass(
        LEADER,
        vec![keyspace("k1", "first", "ycql"), keyspace("k1", "second", "ycql")],
        vec![table(&t1, "k1", "one", "RUNNING"), table(&t1, "k1", "two", "RUNNING")],
        vec![
            tablet("s1", &t1, "RUNNING", Some("n1"), vec![replica("n1", "a:9100", "VOTER"), replica("n1", "z:9100", "VOTER")]),
            tablet("s1", &t1, "DELETING", Some("n2"), vec![]),
        ],
    );
    let b = pass(
        LEADER,
        vec![keyspace("k1", "third", "ycql"), keyspace("k1", "fourth", "ycql")],
        vec![],
        vec![],
    );
    let mut d = EntitiesDiff::new();
    let first = d.first_snapshot(a, LEADER.to_string());
    assert_eq!(first.keyspaces, vec!["k1".to_string()]);
    assert_eq!(first.tables, vec![t1.clone()]);
    assert_eq!(first.tablets, vec!["s1".to_string()]);
    assert_eq!(first.replicas, vec![("s1".to_string(), "n1".to_string())]);
    assert!(!first.is_empty());
    let second = d.second_snapshot(b, LEADER.to_string());
    assert_eq!(second.keyspaces, vec!["k1".to_string()]);
    assert!(second.tables.is_empty());
    let k = d.keyspaces.get(&"k1".to_string()).unwrap();
    assert_eq!(k.first_keyspace_name, "first");
    assert_eq!(k.second_keyspace_name, "third");
    assert_eq!(d.tables.get(&t1).unwrap().first_table_name, "one");
    assert_eq!(d.tablets.get(&"s1".to_string()).unwrap().first_state, "RUNNING");
    assert_eq!(d.tablets.get(&"s1".to_string()).unwrap().first_leader, "n1");
    assert_eq!(d.replicas.get(&("s1".to_string(), "n1".to_string())).unwrap().first_addr, "a:9100");
}

#[test]
fn a_tablet_without_leader_and_replicas_has_empty_fields() {
    let a = pass(
        LEADER,
        vec![],
        vec![],
        vec![Tablets {
            table_id: "t".to_string(),
            tablet_id: "s".to_string(),
            state: "RUNNING".to_string(),
            replicas: None,
            leader: None,
        }],
    );
    let mut d = EntitiesDiff::new();
    d.first_snapshot(a, LEADER.to_string());
    let record = d.tablets.get(&"s".to_string()).unwrap();
    assert_eq!(record.first_leader, "");
    assert_eq!(record.first_table_id, "t");
    assert!(record.is_zero(Side::Second));
    assert!(!record.is_zero(Side::First));
    assert!(d.replicas.is_empty());
}

#[test]
fn snapshot_diff_reports_the_repeats_of_each_pass() {
    let a = pass(LEADER, vec![keyspace("k1", "a", "ycql"), keyspace("k1", "b", "ycql")], vec![], vec![]);
    let b = pass(LEADER, vec![keyspace("k2", "c", "ycql"), keyspace("k2", "d", "ycql"), keyspace("k2", "e", "ycql")], vec![], vec![]);
    let (d, first, second) = EntitiesDiff::snapshot_diff(a, LEADER.to_string(), b, LEADER.to_string());
    assert!(d.master_found);
    assert_eq!(first.keyspaces, vec!["k1".to_string()]);
    assert_eq!(second.keyspaces, vec!["k2".to_string(), "k2".to_string()]);
    assert_eq!(
        texts(&d.print()),
        vec!["- Database: ycql.a, id: k1 ".to_string(), "+ Database: ycql.c, id: k2 ".to_string()]
    );
}

#[test]
fn snapshot_diff_without_one_leader_has_found_none() {
    let a = || pass(LEADER, vec![keyspace("k1", "a", "ycql")], vec![], vec![]);
    let (d, _, _) = EntitiesDiff::snapshot_diff(a(), String::new(), a(), LEADER.to_string());
    assert!(!d.master_found);
    assert_eq!(d.print().len(), 1);
    assert_eq!(d.keyspaces.get(&"k1".to_string()).unwrap().first_keyspace_name, "");
    assert_eq!(d.keyspaces.get(&"k1".to_string()).unwrap().second_keyspace_name, "a");
    let (d, _, _) = EntitiesDiff::snapshot_diff(a(), LEADER.to_string(), a(), String::new());
    assert!(!d.master_found);
    let (d, _, _) = EntitiesDiff::snapshot_diff(a(), String::new(), a(), String::new());
    assert!(!d.master_found);
    assert!(d.keyspaces.is_empty());
}

#[test]
fn second_pass_after_a_first_without_leader_finds_none() {
    let a = || pass(LEADER, vec![keyspace("k1", "a", "ycql")], vec![], vec![]);
    let mut d = EntitiesDiff::new();
    d.first_snapshot(a(), String::new());
    assert!(!d.master_found);
    d.second_snapshot(a(), LEADER.to_string());
    assert!(!d.master_found);
    assert_eq!(d.keyspaces.get(&"k1".to_string()).unwrap().second_keyspace_name, "a");
    assert_eq!(
        texts(&d.print()),
        vec!["Master leader was not found in hosts specified, skipping entity diff.".to_string()]
    );
}

#[test]
fn second_pass_without_leader_finds_none() {
    let a = || pass(LEADER, vec![keyspace("k1", "a", "ycql")], vec![], vec![]);
    let mut d = EntitiesDiff::new();
    d.first_snapshot(a(), LEADER.to_string());
    assert!(d.master_found);
    d.second_snapshot(a(), String::new());
    assert!(!d.master_found);
    assert_eq!(d.print().len(), 1);
    d.second_snapshot(a(), LEADER.to_string());
    assert!(!d.master_found);
}

#[test]
fn second_pass_on_a_new_engine_finds_none() {
    let a = pass(LEADER, vec![keyspace("k1", "a", "ycql")], vec![], vec![]);
    let mut d = EntitiesDiff::new();
    d.second_snapshot(a, LEADER.to_string());
    assert!(!d.master_found);
    assert_eq!(d.keyspaces.len(), 1);
}

#[test]
fn both_passes_with_a_leader_find_it() {
    let a = || pass(LEADER, vec![keyspace("k1", "a", "ycql")], vec![], vec![]);
    let mut d = EntitiesDiff::new();
    d.first_snapshot(a(), LEADER.to_string());
    d.second_snapshot(a(), "yb-2.local:7000".to_string());
    assert!(d.master_found);
    assert_eq!(texts(&d.print()), vec!["- Database: ycql.a, id: k1 ".to_string()]);
}

#[test]
fn system_keyspaces_and_their_tables_are_left_out() {
    let system = "00000000000000000000000000000001";
    let template = "00000001000030008000000000000000";
    let a = pass(LEADER, vec![], vec![], vec![]);
    let b = pass(
        LEADER,
        vec![keyspace(system, "system", "ycql"), keyspace(template, "template1", "ysql"), keyspace("c1", "cq", "ycql")],
        vec![
            table("t-sys", system, "peers", "RUNNING"),
            table(&user_table(20000), template, "odd", "RUNNING"),
            table("t-cq", "c1", "events", "RUNNING"),
        ],
        vec![],
    );
    let d = diff(a, b);
    assert_eq!(d.keyspaces.len(), 3);
    assert_eq!(d.keyspace_change(system, d.keyspaces.get(&system.to_string()).unwrap()), Change::Added);
    assert_eq!(
        texts(&d.print()),
        vec![
            "+ Database: ycql.cq, id: c1 ".to_string(),
            "+ Object:   ycql.cq.events, state: RUNNING, id: t-cq ".to_string(),
        ]
    );
}

#[test]
fn table_that_moved_out_of_a_system_keyspace_is_left_out() {
    let system = "00000000000000000000000000000002";
    let a = pass(LEADER, vec![keyspace("c1", "cq", "ycql")], vec![table("t1", system, "x", "RUNNING")], vec![]);
    let b = pass(LEADER, vec![keyspace("c1", "cq", "ycql")], vec![table("t1", "c1", "x", "RUNNING")], vec![]);
    let d = diff(a, b);
    assert_eq!(d.tables.get(&"t1".to_string()).unwrap().change(), Change::Modified);
    assert!(d.print().is_empty());
}

#[test]
fn records_start_blank_and_take_a_side_from_a_row() {
    assert!(is_blank(&String::new()));
    assert!(!is_blank(&" ".to_string()));
    let k = KeyspaceDiff::new();
    assert!(k.is_zero(Side::First) && k.is_zero(Side::Second) && k.is_same());
    assert_eq!(k.change(), Change::Unchanged);
    let k = k.with_side(Side::Second, &keyspace("k", "name", "ysql"));
    assert!(k.is_zero(Side::First) && !k.is_zero(Side::Second));
    assert_eq!(k.name(Side::Second), "name");
    assert_eq!(k.kind(Side::Second), "ysql");
    assert_eq!(k.name(Side::First), "");
    assert_eq!(k.change(), Change::Added);
    let k = k.with_side(Side::First, &keyspace("k", "name", "ysql"));
    assert!(k.is_same());
    let t = TablesDiff::new().with_side(Side::First, &table("t", "k", "n", "RUNNING"));
    assert_eq!(t.keyspace_id(Side::First), "k");
    assert_eq!(t.name(Side::First), "n");
    assert_eq!(t.state(Side::First), "RUNNING");
    assert_eq!(t.state(Side::Second), "");
    assert_eq!(t.change(), Change::Removed);
    let row = tablet("s", "t", "RUNNING", Some("n1"), vec![]);
    assert_eq!(leader_of(&row), "n1");
    let s = TabletsDiff::new().with_side(Side::First, &row).with_side(Side::Second, &tablet("s", "t", "RUNNING", None, vec![]));
    assert_eq!(s.table_id(Side::Second), "t");
    assert_eq!(s.leader(Side::First), "n1");
    assert_eq!(s.leader(Side::Second), "");
    assert_eq!(s.change(), Change::Modified);
    let r = ReplicasDiff::new().with_side(Side::Second, &replica("n1", "a:1", "VOTER"));
    assert_eq!(r.addr(Side::Second), "a:1");
    assert_eq!(r.replica_type(Side::Second), "VOTER");
    assert!(r.is_zero(Side::First));
    assert_eq!(r.change(), Change::Added);
}

#[test]
fn lookups_across_the_records() {
    let t1 = user_table(20000);
    let a = pass(
        LEADER,
        vec![keyspace(D1, "d1", "ysql")],
        vec![table(&t1, D1, "t1", "RUNNING")],
        vec![tablet("s1", &t1, "RUNNING", Some("n1"), vec![replica("n1", "a:9100", "VOTER")])],
    );
    let d = diff(a, pass(LEADER, vec![], vec![], vec![]));
    assert!(d.has_tables(D1, Side::First));
    assert!(!d.has_tables(D1, Side::Second));
    assert!(d.has_tablets(&t1, Side::First));
    assert!(!d.has_tablets(&t1, Side::Second));
    assert!(!d.has_colocation_root(D1, Side::First));
    assert_eq!(d.keyspace_kind(&D1.to_string(), Side::First), "ysql");
    assert_eq!(d.keyspace_name(&D1.to_string(), Side::First), "d1");
    assert_eq!(d.keyspace_name(&D1.to_string(), Side::Second), "");
    assert_eq!(d.keyspace_name(&"none".to_string(), Side::First), "");
    assert_eq!(d.table_keyspace(&t1, Side::First), ("ysql".to_string(), "d1".to_string()));
    assert_eq!(d.table_keyspace(&"none".to_string(), Side::First), (String::new(), String::new()));
    assert_eq!(d.table_name(&t1, Side::First), "t1");
    assert_eq!(d.tablet_keyspace(&"s1".to_string(), Side::First), ("ysql".to_string(), "d1".to_string()));
    assert_eq!(d.tablet_table_name(&"s1".to_string(), Side::First), "t1");
    assert_eq!(d.tablet_table_name(&"s1".to_string(), Side::Second), "");
    assert_eq!(d.replica_addr(&"s1".to_string(), &"n1".to_string(), Side::First), "a:9100");
    assert_eq!(d.replica_addr(&"s1".to_string(), &"n2".to_string(), Side::First), "");
    assert!(!d.is_catalog_table(&t1, d.tables.get(&t1).unwrap(), Side::First));
}

#[test]
fn a_first_occurrence_without_values_stands() {
    let a = pass(
        LEADER,
        vec![keyspace("k1", "", ""), keyspace("k1", "later", "ycql"), keyspace("k1", "last", "ycql")],
        vec![table("t1", "", "", ""), table("t1", "k1", "n", "RUNNING")],
        vec![
            tablet("s1", "", "", None, vec![replica("n1", "", ""), replica("n1", "a:1", "VOTER")]),
            tablet("s1", "t1", "RUNNING", Some("n1"), vec![replica("n1", "b:1", "VOTER")]),
        ],
    );
    let mut d = EntitiesDiff::new();
    let dups = d.first_snapshot(a, LEADER.to_string());
    assert_eq!(dups.keyspaces, vec!["k1".to_string(), "k1".to_string()]);
    assert_eq!(dups.tables, vec!["t1".to_string()]);
    assert_eq!(dups.tablets, vec!["s1".to_string()]);
    assert_eq!(
        dups.replicas,
        vec![("s1".to_string(), "n1".to_string()), ("s1".to_string(), "n1".to_string())]
    );
    let k = d.keyspaces.get(&"k1".to_string()).unwrap();
    assert_eq!(k.first_keyspace_name, "");
    assert_eq!(k.first_keyspace_type, "");
    assert!(k.is_zero(Side::First) && k.is_zero(Side::Second));
    assert_eq!(d.keyspace_change("k1", k), Change::Unchanged);
    assert!(d.tables.get(&"t1".to_string()).unwrap().is_zero(Side::First));
    assert!(d.tablets.get(&"s1".to_string()).unwrap().is_zero(Side::First));
    assert!(d.replicas.get(&("s1".to_string(), "n1".to_string())).unwrap().is_zero(Side::First));
}

#[test]
fn a_later_merge_of_the_same_side_decides_anew() {
    let mut d = EntitiesDiff::new();
    let first = d.first_snapshot(pass(LEADER, vec![keyspace("k1", "a", "ycql")], vec![], vec![]), LEADER.to_string());
    assert!(first.is_empty());
    let again = d.first_snapshot(
        pass(LEADER, vec![keyspace("k1", "b", "ycql"), keyspace("k1", "c", "ycql")], vec![], vec![]),
        LEADER.to_string(),
    );
    assert_eq!(again.keyspaces, vec!["k1".to_string()]);
    assert_eq!(d.keyspaces.get(&"k1".to_string()).unwrap().first_keyspace_name, "b");
}

#[test]
fn repeats_are_met_across_the_observations_of_one_pass() {
    let mut a = pass(LEADER, vec![keyspace("k1", "a", "ycql")], vec![], vec![]);
    a.entities.push(Entities {
        hostname_port: Some(LEADER.to_string()),
        timestamp: None,
        keyspaces: vec![keyspace("k2", "b", "ycql"), keyspace("k1", "other", "ycql")],
        tables: vec![],
        tablets: vec![],
    });
    let mut d = EntitiesDiff::new();
    let dups = d.first_snapshot(a, LEADER.to_string());
    assert_eq!(dups.keyspaces, vec!["k1".to_string()]);
    assert_eq!(d.keyspaces.get(&"k1".to_string()).unwrap().first_keyspace_name, "a");
    assert_eq!(d.keyspaces.get(&"k2".to_string()).unwrap().first_keyspace_name, "b");
}

#[test]
fn changed_leader_without_replica_records_shows_an_arrow() {
    let t1 = user_table(20000);
    let a = pass(
        LEADER,
        vec![keyspace(D1, "d1", "ysql")],
        vec![table(&t1, D1, "t1", "RUNNING")],
        vec![tablet("s1", &t1, "RUNNING", Some("u1"), vec![])],
    );
    let b = pass(
        LEADER,
        vec![keyspace(D1, "d1", "ysql")],
        vec![table(&t1, D1, "t1", "RUNNING")],
        vec![tablet("s1", &t1, "RUNNING", Some("u2"), vec![])],
    );
    let d = diff(a, b);
    let lines = d.print();
    assert_eq!(texts(&lines), vec!["= Tablet:   ysql.d1.t1.s1, state: RUNNING leader: ->".to_string()]);
    let n = lines[0].spans.len();
    assert_eq!(lines[0].spans[n - 3].color, Color::Yellow);
    assert_eq!(lines[0].spans[n - 2].text, "->");
    assert_eq!(lines[0].spans[n - 1].color, Color::Yellow);
}

#[test]
fn same_leader_at_a_new_address_shows_the_address_once() {
    let t1 = user_table(20000);
    let a = pass(
        LEADER,
        vec![keyspace(D1, "d1", "ysql")],
        vec![table(&t1, D1, "t1", "RUNNING")],
        vec![tablet("s1", &t1, "CREATING", Some("u1"), vec![replica("u1", "a:1", "VOTER")])],
    );
    let b = pass(
        LEADER,
        vec![keyspace(D1, "d1", "ysql")],
        vec![table(&t1, D1, "t1", "RUNNING")],
        vec![tablet("s1", &t1, "RUNNING", Some("u1"), vec![replica("u1", "b:1", "VOTER")])],
    );
    let d = diff(a, b);
    assert_eq!(
        texts(&d.print()),
        vec![
            "= Tablet:   ysql.d1.t1.s1, state: CREATING->RUNNING,  leader: b:1".to_string(),
            "= Replica: a:1->b:1:ysql.d1.t1.s1, Type: VOTER".to_string(),
        ]
    );
}
