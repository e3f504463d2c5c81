use entities::model::AllEntities;
use entities::model::Entities;

#[test]
fn unit_parse_simple_entities_dump() {
    let json = r#"
{
  "keyspaces": [
    {
      "keyspace_id": "00000000000000000000000000000001",
      "keyspace_name": "system",
      "keyspace_type": "ycql"
    }
  ],
  "tables": [
    {
      "table_id": "000000010000300080000000000000af",
      "keyspace_id": "00000001000030008000000000000000",
      "table_name": "pg_user_mapping_user_server_index",
      "state": "RUNNING"
    }
  ],
  "tablets": [
    {
      "table_id": "sys.catalog.uuid",
      "tablet_id": "00000000000000000000000000000000",
      "state": "RUNNING"
    },
    {
      "table_id": "a1da3fb4b3be4bd4860253e723d11b97",
      "tablet_id": "235b5b031f094ec3bf6be2a023abebba",
      "state": "RUNNING",
      "replicas": [
        {
          "type": "VOTER",
          "server_uuid": "5b6fd994d7e34504ac48a5e653456704",
          "addr": "yb-3.local:9100"
        },
        {
          "type": "VOTER",
          "server_uuid": "a3f5a16532bb4ed4a061e794831168f8",
          "addr": "yb-1.local:9100"
        },
        {
          "type": "VOTER",
          "server_uuid": "e7a4a66ae7f94eb6a75b0ce3a90ab5ba",
          "addr": "yb-2.local:9100"
        }
      ],
      "leader": "a3f5a16532bb4ed4a061e794831168f8"
    }
  ]
}
        "#.to_string();
    let result = AllEntities::parse_entities(json, "", "");
    assert_eq!(result.keyspaces[0].keyspace_type,"ycql");
    assert_eq!(result.tables[0].table_name,"pg_user_mapping_user_server_index");
    assert_eq!(result.tablets[0].table_id,"sys.catalog.uuid");
    assert_eq!(result.tablets[1].table_id,"a1da3fb4b3be4bd4860253e723d11b97");
    assert_eq!(result.tablets[1].replicas.as_ref().unwrap()[0].server_uuid,"5b6fd994d7e34504ac48a5e653456704");
    assert_eq!(result.tablets[1].leader.as_ref().unwrap(),"a3f5a16532bb4ed4a061e794831168f8");
}

#[test]
fn parse_keeps_every_field_and_the_order() {
    let json = r#"{"keyspaces":[{"keyspace_id":"k1","keyspace_name":"one","keyspace_type":"ysql"},
        {"keyspace_id":"k2","keyspace_name":"two","keyspace_type":"ycql"}],
        "tables":[{"table_id":"t1","keyspace_id":"k1","table_name":"users","state":"RUNNING"}],
        "tablets":[{"table_id":"t1","tablet_id":"s1","state":"RUNNING","leader":"n1",
            "replicas":[{"type":"VOTER","server_uuid":"n1","addr":"a:9100"},
                        {"type":"OBSERVER","server_uuid":"n2","addr":"b:9100"}]}]}"#;
    let e = AllEntities::parse_entities(json.to_string(), "host", "7000");
    assert_eq!(e.hostname_port, None);
    assert_eq!(e.timestamp, None);
    assert_eq!(e.keyspaces.len(), 2);
    assert_eq!(e.keyspaces[0].keyspace_id, "k1");
    assert_eq!(e.keyspaces[0].keyspace_name, "one");
    assert_eq!(e.keyspaces[1].keyspace_id, "k2");
    assert_eq!(e.keyspaces[1].keyspace_type, "ycql");
    assert_eq!(e.tables.len(), 1);
    assert_eq!(e.tables[0].keyspace_id, "k1");
    assert_eq!(e.tables[0].state, "RUNNING");
    assert_eq!(e.tablets.len(), 1);
    assert_eq!(e.tablets[0].tablet_id, "s1");
    assert_eq!(e.tablets[0].leader, Some("n1".to_string()));
    let replicas = e.tablets[0].replicas.as_ref().unwrap();
    assert_eq!(replicas.len(), 2);
    assert_eq!(replicas[0].replica_type, "VOTER");
    assert_eq!(replicas[1].replica_type, "OBSERVER");
    assert_eq!(replicas[1].server_uuid, "n2");
    assert_eq!(replicas[1].addr, "b:9100");
}

#[test]
fn parse_of_text_that_is_no_json_is_empty() {
    let e = AllEntities::parse_entities("<html>not found</html>".to_string(), "h", "1");
    assert!(e.keyspaces.is_empty());
    assert!(e.tables.is_empty());
    assert!(e.tablets.is_empty());
    assert_eq!(e.hostname_port, None);
    assert_eq!(e.timestamp, None);
    assert!(!e.is_complete());
}

#[test]
fn parse_of_empty_text_is_empty() {
    let e = AllEntities::parse_entities(String::new(), "h", "1");
    assert!(e.keyspaces.is_empty() && e.tables.is_empty() && e.tablets.is_empty());
}

#[test]
fn parse_without_one_of_the_arrays_is_empty() {
    let json = r#"{"keyspaces":[{"keyspace_id":"k1","keyspace_name":"one","keyspace_type":"ysql"}],
        "tables":[]}"#;
    let e = AllEntities::parse_entities(json.to_string(), "h", "1");
    assert!(e.keyspaces.is_empty());
    assert!(e.tables.is_empty());
    assert!(e.tablets.is_empty());
}

#[test]
fn parse_with_a_malformed_entry_is_empty() {
    let json = r#"{"keyspaces":[{"keyspace_id":"k1","keyspace_name":"one","keyspace_type":"ysql"},
        {"keyspace_id":"k2","keyspace_name":7,"keyspace_type":"ysql"}],
        "tables":[], "tablets":[]}"#;
    let e = AllEntities::parse_entities(json.to_string(), "h", "1");
    assert!(e.keyspaces.is_empty());
}

#[test]
fn parse_of_an_array_is_empty() {
    let e = AllEntities::parse_entities("[1, 2, 3]".to_string(), "h", "1");
    assert!(e.keyspaces.is_empty() && e.tables.is_empty() && e.tablets.is_empty());
}

#[test]
fn parse_takes_null_for_a_missing_leader_and_missing_replicas() {
    let json = r#"{"keyspaces":[], "tables":[],
        "tablets":[{"table_id":"t1","tablet_id":"s1","state":"RUNNING","leader":null,"replicas":null},
                   {"table_id":"t1","tablet_id":"s2","state":"RUNNING","replicas":[]}]}"#;
    let e = AllEntities::parse_entities(json.to_string(), "h", "1");
    assert_eq!(e.tablets.len(), 2);
    assert_eq!(e.tablets[0].leader, None);
    assert!(e.tablets[0].replicas.is_none());
    assert_eq!(e.tablets[1].leader, None);
    assert_eq!(e.tablets[1].replicas.as_ref().unwrap().len(), 0);
}

#[test]
fn parse_with_a_leader_that_is_no_string_is_empty() {
    let json = r#"{"keyspaces":[], "tables":[],
        "tablets":[{"table_id":"t1","tablet_id":"s1","state":"RUNNING","leader":5}]}"#;
    let e = AllEntities::parse_entities(json.to_string(), "h", "1");
    assert!(e.tablets.is_empty());
}

#[test]
fn parse_ignores_members_it_does_not_know() {
    let json = r#"{"extra": true, "keyspaces":[{"keyspace_id":"k1","keyspace_name":"one",
        "keyspace_type":"ysql","more":[1,2]}], "tables":[], "tablets":[]}"#;
    let e = AllEntities::parse_entities(json.to_string(), "h", "1");
    assert_eq!(e.keyspaces.len(), 1);
    assert_eq!(e.keyspaces[0].keyspace_name, "one");
}

#[test]
fn from_json_names_no_node() {
    let v: serde_json::Value =
        serde_json::from_str(r#"{"keyspaces":[], "tables":[], "tablets":[]}"#).unwrap();
    let e = Entities::from_json(&v).unwrap();
    assert_eq!(e.hostname_port, None);
    assert!(e.keyspaces.is_empty());
    let w: serde_json::Value = serde_json::from_str(r#"{"keyspaces":[]}"#).unwrap();
    assert!(Entities::from_json(&w).is_none());
}

#[test]
fn parse_names_no_node_whatever_host_and_port_are() {
    let json = r#"{"keyspaces":[{"keyspace_id":"k1","keyspace_name":"one","keyspace_type":"ysql"}],
        "tables":[{"table_id":"t1","keyspace_id":"k1","table_name":"users","state":"RUNNING"}],
        "tablets":[{"table_id":"t1","tablet_id":"s1","state":"RUNNING"}]}"#;
    let a = AllEntities::parse_entities(json.to_string(), "yb-1.local", "7000");
    let b = AllEntities::parse_entities(json.to_string(), "yb-2.local", "9000");
    assert_eq!(a.hostname_port, None);
    assert_eq!(b.hostname_port, None);
    assert_eq!(a.timestamp, None);
    assert_eq!(b.timestamp, None);
    assert_eq!(a.keyspaces.len(), b.keyspaces.len());
    assert_eq!(a.keyspaces[0].keyspace_name, b.keyspaces[0].keyspace_name);
    assert_eq!(a.tables[0].table_id, b.tables[0].table_id);
    assert_eq!(a.tablets[0].tablet_id, b.tablets[0].tablet_id);
    let bad = AllEntities::parse_entities("no json".to_string(), "yb-1.local", "7000");
    assert_eq!(bad.hostname_port, None);
}

#[test]
fn of_node_names_the_node() {
    let json = r#"{"keyspaces":[{"keyspace_id":"k1","keyspace_name":"one","keyspace_type":"ysql"}],
        "tables":[], "tablets":[]}"#;
    let read = AllEntities::parse_entities(json.to_string(), "yb-1.local", "7000");
    let named = Entities::of_node(Some(read), "yb-1.local", "7000");
    assert_eq!(named.hostname_port, Some("yb-1.local:7000".to_string()));
    assert_eq!(named.timestamp, None);
    assert_eq!(named.keyspaces.len(), 1);
    assert_eq!(named.keyspaces[0].keyspace_id, "k1");
    let nothing = Entities::of_node(None, "", "");
    assert_eq!(nothing.hostname_port, Some(":".to_string()));
    assert!(nothing.keyspaces.is_empty() && nothing.tables.is_empty() && nothing.tablets.is_empty());
}
