use entities::records::KeyspaceDiff;
use entities::idmap::IdMap;
use entities::idmap::Key;
use entities::text::order_bytes;
use entities::text::order_text;
use entities::text::same_text;
use entities::text::Order;

fn named(name: &str) -> KeyspaceDiff {
    let mut k = KeyspaceDiff::new();
    k.first_keyspace_name = name.to_string();
    k
}

#[test]
fn strings_are_ordered_by_their_bytes() {
    assert_eq!(order_text("a", "b"), Order::Before);
    assert_eq!(order_text("b", "a"), Order::After);
    assert_eq!(order_text("a", "a"), Order::Same);
    assert_eq!(order_text("", ""), Order::Same);
    assert_eq!(order_text("", "a"), Order::Before);
    assert_eq!(order_text("ab", "abc"), Order::Before);
    assert_eq!(order_text("abd", "abc"), Order::After);
    assert_eq!(order_text("Z", "a"), Order::Before);
    assert_eq!(order_text("10", "9"), Order::Before);
    assert_eq!(order_text("z", "\u{e9}"), Order::Before);
    assert_eq!(order_bytes(&[1, 2, 3], &[1, 2]), Order::After);
    assert_eq!(order_bytes(&[0xff], &[0x00, 0xff]), Order::After);
    assert!(same_text("ysql", "ysql"));
    assert!(!same_text("ysql", "ycql"));
    assert!(!same_text("ysql", "ysq"));
}

#[test]
fn order_agrees_with_the_order_of_strings() {
    let words = ["", "a", "A", "ab", "b", "000040000000300080000000000000aa", "\u{e9}", "zz", "z"];
    for x in words {
        for y in words {
            let expected = if x < y {
                Order::Before
            } else if x == y {
                Order::Same
            } else {
                Order::After
            };
            assert_eq!(order_text(x, y), expected);
            assert_eq!(x.to_string().order(&y.to_string()), expected);
        }
    }
}

#[test]
fn pairs_are_ordered_by_the_first_part_then_the_second() {
    let p = |a: &str, b: &str| (a.to_string(), b.to_string());
    assert_eq!(p("a", "z").order(&p("b", "a")), Order::Before);
    assert_eq!(p("a", "a").order(&p("a", "b")), Order::Before);
    assert_eq!(p("a", "b").order(&p("a", "b")), Order::Same);
    assert_eq!(p("b", "").order(&p("a", "zzz")), Order::After);
    assert_eq!(p("a", "c").order(&p("a", "b")), Order::After);
}

#[test]
fn map_is_walked_in_key_order() {
    let mut m: IdMap<String, KeyspaceDiff> = IdMap::new();
    assert!(m.is_empty());
    assert_eq!(m.len(), 0);
    for k in ["m", "c", "x", "a", "q", "b"] {
        assert!(!m.insert(k.to_string(), named(k)));
    }
    assert_eq!(m.len(), 6);
    assert!(!m.is_empty());
    let keys: Vec<&str> = (0..m.len()).map(|i| m.key_at(i).as_str()).collect();
    assert_eq!(keys, vec!["a", "b", "c", "m", "q", "x"]);
    for i in 0..m.len() {
        assert_eq!(&m.value_at(i).first_keyspace_name, m.key_at(i));
    }
}

#[test]
fn insert_replaces_the_record_of_a_key() {
    let mut m: IdMap<String, KeyspaceDiff> = IdMap::new();
    assert!(!m.insert("k".to_string(), named("one")));
    assert!(!m.insert("j".to_string(), named("other")));
    assert!(m.insert("k".to_string(), named("two")));
    assert_eq!(m.len(), 2);
    assert_eq!(m.get(&"k".to_string()).unwrap().first_keyspace_name, "two");
    assert_eq!(m.get(&"j".to_string()).unwrap().first_keyspace_name, "other");
    assert!(m.get(&"l".to_string()).is_none());
    assert!(m.contains_key(&"k".to_string()));
    assert!(!m.contains_key(&"".to_string()));
}

#[test]
fn lookup_finds_every_key_of_a_large_map() {
    let mut m: IdMap<String, KeyspaceDiff> = IdMap::new();
    for i in 0..200u32 {
        let k = format!("{:04}", (i * 37) % 200);
        m.insert(k.clone(), named(&k));
    }
    assert_eq!(m.len(), 200);
    for i in 0..200u32 {
        let k = format!("{:04}", i);
        assert_eq!(m.get(&k).unwrap().first_keyspace_name, k);
        assert_eq!(m.key_at(i as usize), &k);
    }
    assert!(m.get(&"0200".to_string()).is_none());
    assert!(m.get(&"".to_string()).is_none());
}

#[test]
fn map_with_pair_keys_is_walked_pair_by_pair() {
    let mut m: IdMap<(String, String), KeyspaceDiff> = IdMap::new();
    let p = |a: &str, b: &str| (a.to_string(), b.to_string());
    m.insert(p("s2", "n1"), named("c"));
    m.insert(p("s1", "n2"), named("b"));
    m.insert(p("s1", "n1"), named("a"));
    m.insert(p("s10", "n0"), named("bb"));
    let names: Vec<&str> = (0..m.len()).map(|i| m.value_at(i).first_keyspace_name.as_str()).collect();
    assert_eq!(names, vec!["a", "b", "bb", "c"]);
    assert!(m.get(&p("s1", "n3")).is_none());
    assert_eq!(m.get(&p("s1", "n2")).unwrap().first_keyspace_name, "b");
}
