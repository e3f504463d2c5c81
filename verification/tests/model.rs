use entities::model::AllEntities;
use entities::model::Entities;
use entities::model::Keyspaces;
use entities::model::Replicas;
use entities::model::Tables;
use entities::model::Tablets;
use entities::model::is_relational;

fn keyspace(id: &str, name: &str, kind: &str) -> Keyspaces {
    Keyspaces {
        keyspace_id: id.to_string(),
        keyspace_name: name.to_string(),
        keyspace_type: kind.to_string(),
    }
}

fn table(id: &str, keyspace_id: &str, name: &str) -> Tables {
    Tables {
        table_id: id.to_string(),
        keyspace_id: keyspace_id.to_string(),
        table_name: name.to_string(),
        state: "RUNNING".to_string(),
    }
}

fn replica(node: &str, addr: &str) -> Replicas {
    Replicas { replica_type: "VOTER".to_string(), server_uuid: node.to_string(), addr: addr.to_string() }
}

fn tablet(id: &str, table_id: &str, replicas: Option<Vec<Replicas>>) -> Tablets {
    Tablets {
        table_id: table_id.to_string(),
        tablet_id: id.to_string(),
        state: "RUNNING".to_string(),
        replicas,
        leader: None,
    }
}

fn sample() -> Entities {
    Entities {
        hostname_port: Some("yb-1.local:7000".to_string()),
        timestamp: Some(1_700_000_000_000),
        keyspaces: vec![
            keyspace("d1", "colo", "ysql"),
            keyspace("d2", "plain", "ysql"),
            keyspace("d3", "dropped", "ysql"),
            keyspace("c1", "cq", "ycql"),
            keyspace("c2", "cq_empty", "ycql"),
            keyspace("d1", "shadow", "ycql"),
        ],
        tables: vec![table("t1", "d1", "a"), table("t2", "d2", "b"), table("t3", "c1", "c"), table("t4", "d1", "d")],
        tablets: vec![
            tablet("s1", "d1.colocated.parent.uuid", Some(vec![replica("n1", "a:9100")])),
            tablet("s2", "t2", Some(vec![replica("n1", "a:9100"), replica("n2", "b:9100")])),
            tablet("s3", "t2", None),
            tablet("s2", "t3", Some(vec![replica("n3", "c:9100")])),
        ],
    }
}

#[test]
fn new_observation_is_empty() {
    let e = Entities::new();
    assert!(e.hostname_port.is_none());
    assert!(e.timestamp.is_none());
    assert!(e.keyspaces.is_empty() && e.tables.is_empty() && e.tablets.is_empty());
    assert!(!e.is_complete());
    assert_eq!(e.source(), "");
    assert!(AllEntities::new().entities.is_empty());
}

#[test]
fn relational_is_ysql() {
    assert!(is_relational("ysql"));
    assert!(!is_relational("ycql"));
    assert!(!is_relational("YSQL"));
    assert!(!is_relational(""));
}

#[test]
fn colocated_database_has_tables_and_a_root() {
    let e = sample();
    assert!(e.is_colocated_database(&e.keyspaces[0]));
    assert!(!e.is_colocated_database(&e.keyspaces[1]));
    assert!(!e.is_colocated_database(&e.keyspaces[2]));
    assert!(!e.is_colocated_database(&e.keyspaces[3]));
    // Same identifier as the colocated one, but not relational.
    assert!(!e.is_colocated_database(&e.keyspaces[5]));
}

#[test]
fn colocated_database_needs_a_table() {
    let mut e = sample();
    e.tables.retain(|t| t.keyspace_id != "d1");
    assert!(e.has_colocation_root("d1"));
    assert!(!e.is_colocated_database(&e.keyspaces[0]));
    assert!(e.is_dropped_database(&e.keyspaces[0]));
}

#[test]
fn dropped_database_is_relational_without_tables() {
    let e = sample();
    assert!(!e.is_dropped_database(&e.keyspaces[0]));
    assert!(!e.is_dropped_database(&e.keyspaces[1]));
    assert!(e.is_dropped_database(&e.keyspaces[2]));
    assert!(!e.is_dropped_database(&e.keyspaces[3]));
    // Another kind of keyspace is never taken for dropped, tables or none.
    assert!(!e.is_dropped_database(&e.keyspaces[4]));
}

#[test]
fn lookups_by_identifier() {
    let e = sample();
    assert!(e.has_tables("d1"));
    assert!(!e.has_tables("d3"));
    assert!(!e.has_tables(""));
    assert!(e.has_tablets("t2"));
    assert!(!e.has_tablets("t1"));
    assert!(e.has_colocation_root("d1"));
    assert!(!e.has_colocation_root("d2"));
    let names: Vec<&str> = e.tables_of("d1").iter().map(|t| t.table_name.as_str()).collect();
    assert_eq!(names, vec!["a", "d"]);
    assert!(e.tables_of("d3").is_empty());
    let ids: Vec<&str> = e.tablets_of("t2").iter().map(|t| t.tablet_id.as_str()).collect();
    assert_eq!(ids, vec!["s2", "s3"]);
    let nodes: Vec<&str> = e.replicas_of("s2").iter().map(|r| r.server_uuid.as_str()).collect();
    assert_eq!(nodes, vec!["n1", "n2", "n3"]);
    assert!(e.replicas_of("s3").is_empty());
    assert!(e.replicas_of("none").is_empty());
}

#[test]
fn first_keyspace_of_an_identifier_is_found() {
    let e = sample();
    assert_eq!(e.find_keyspace("d1").unwrap().keyspace_name, "colo");
    assert_eq!(e.find_keyspace("c1").unwrap().keyspace_name, "cq");
    assert!(e.find_keyspace("nope").is_none());
    assert_eq!(e.keyspace_type_of("d1"), "ysql");
    assert_eq!(e.keyspace_name_of("d1"), "colo");
    assert_eq!(e.keyspace_type_of("nope"), "");
    assert_eq!(e.keyspace_name_of("nope"), "");
}

#[test]
fn source_of_an_observation() {
    let e = sample();
    assert_eq!(e.source(), "yb-1.local:7000");
    assert!(e.is_reported_by("yb-1.local:7000"));
    assert!(!e.is_reported_by("yb-2.local:7000"));
    assert!(!e.is_reported_by(""));
    assert!(!Entities::new().is_reported_by(""));
}

#[test]
fn incomplete_answers_are_discarded() {
    let full = |node: &str| {
        let mut e = sample();
        e.hostname_port = Some(node.to_string());
        e
    };
    let mut no_tablets = full("yb-2.local:7000");
    no_tablets.tablets.clear();
    let all = AllEntities::read_entities(vec![full("yb-1.local:7000"), no_tablets]);
    assert_eq!(all.entities.len(), 1);
    assert_eq!(all.entities[0].hostname_port, Some("yb-1.local:7000".to_string()));
}

#[test]
fn complete_answers_keep_their_order() {
    let full = |node: &str| {
        let mut e = sample();
        e.hostname_port = Some(node.to_string());
        e
    };
    let mut no_keyspaces = full("b");
    no_keyspaces.keyspaces.clear();
    let mut no_tables = full("d");
    no_tables.tables.clear();
    let all = AllEntities::read_entities(vec![
        full("a"),
        no_keyspaces,
        full("c"),
        no_tables,
        Entities::new(),
        full("e"),
    ]);
    let nodes: Vec<String> = all.entities.iter().map(|e| e.source().to_string()).collect();
    assert_eq!(nodes, vec!["a", "c", "e"]);
    assert!(AllEntities::read_entities(vec![]).entities.is_empty());
    assert!(AllEntities::read_entities(vec![Entities::new()]).entities.is_empty());
}

#[test]
fn default_values_are_empty() {
    let e = Entities::default();
    assert!(e.hostname_port.is_none() && e.keyspaces.is_empty() && e.tables.is_empty() && e.tablets.is_empty());
    assert!(AllEntities::default().entities.is_empty());
    let d = entities::diff::EntitiesDiff::default();
    assert!(!d.master_found);
    assert!(d.keyspaces.is_empty() && d.tables.is_empty() && d.tablets.is_empty() && d.replicas.is_empty());
}
