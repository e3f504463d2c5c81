use entities::identifier::decode_object_number;
use entities::identifier::is_catalog_object;
use entities::identifier::is_colocation_root_shard_id;
use entities::identifier::is_system_keyspace;

#[test]
fn object_number_is_the_last_eight_digits() {
    assert_eq!(decode_object_number("000000010000300080000000000000af"), 0xaf);
    assert_eq!(decode_object_number("000033e5000030008000000000004000"), 16384);
    assert_eq!(decode_object_number("000033e5000030008000000000004e20"), 20000);
    assert_eq!(decode_object_number("00000000000000000000000000000000"), 0);
    assert_eq!(decode_object_number("ffffffffffffffffffffffffffffffff"), 0xffff_ffff);
    assert_eq!(decode_object_number("000033e50000300080000000DEADBEEF"), 0xdead_beef);
    assert_eq!(decode_object_number("zzzzzzzzzzzzzzzzzzzzzzzz00000010"), 16);
}

#[test]
fn object_number_of_any_other_string_is_zero() {
    assert_eq!(decode_object_number("sys.catalog.uuid"), 0);
    assert_eq!(decode_object_number(""), 0);
    assert_eq!(decode_object_number("00004000"), 0);
    assert_eq!(decode_object_number("000033e5000030008000000000004e2"), 0);
    assert_eq!(decode_object_number("000033e5000030008000000000004e200"), 0);
    assert_eq!(decode_object_number("000033e50000300080000000.colocated.parent.uuid"), 0);
}

#[test]
fn object_number_with_a_byte_that_is_no_digit_is_zero() {
    assert_eq!(decode_object_number("000033e500003000800000000000g000"), 0);
    assert_eq!(decode_object_number("000033e5000030008000000000 04000"), 0);
    assert_eq!(decode_object_number("000033e50000300080000000+0004000"), 0);
    assert_eq!(decode_object_number("000033e500003000800000000000400\u{e9}"), 0);
}

#[test]
fn catalog_objects_are_those_below_16384() {
    assert!(is_catalog_object("000033e5000030008000000000003fff"));
    assert!(!is_catalog_object("000033e5000030008000000000004000"));
    assert!(is_catalog_object("000033e5000030008000000000000005"));
    assert!(!is_catalog_object("000033e5000030008000000000004e20"));
    assert!(is_catalog_object("sys.catalog.uuid"));
    assert!(is_catalog_object(""));
}

#[test]
fn catalog_object_agrees_with_the_object_number() {
    let ids = [
        "000033e5000030008000000000003fff",
        "000033e5000030008000000000004000",
        "a1da3fb4b3be4bd4860253e723d11b97",
        "sys.catalog.uuid",
        "short",
        "000033e500003000800000000000g000",
    ];
    for id in ids {
        assert_eq!(is_catalog_object(id), decode_object_number(id) < 16384);
    }
}

#[test]
fn colocation_root_is_the_database_and_the_suffix() {
    let db = "0000400f000030008000000000000000";
    assert!(is_colocation_root_shard_id(db, "0000400f000030008000000000000000.colocated.parent.uuid"));
    assert!(!is_colocation_root_shard_id(db, "0000400f000030008000000000000000"));
    assert!(!is_colocation_root_shard_id(db, "0000400f000030008000000000000001.colocated.parent.uuid"));
    assert!(!is_colocation_root_shard_id(db, "0000400f000030008000000000000000.colocated.parent.uuidx"));
    assert!(!is_colocation_root_shard_id(db, ".colocated.parent.uuid"));
    assert!(is_colocation_root_shard_id("", ".colocated.parent.uuid"));
}

#[test]
fn system_keyspaces_are_the_five_known() {
    assert!(is_system_keyspace("00000000000000000000000000000001"));
    assert!(is_system_keyspace("00000000000000000000000000000002"));
    assert!(is_system_keyspace("00000000000000000000000000000003"));
    assert!(is_system_keyspace("00000001000030008000000000000000"));
    assert!(is_system_keyspace("000033e5000030008000000000000000"));
    assert!(!is_system_keyspace("00000000000000000000000000000004"));
    assert!(!is_system_keyspace("000033e6000030008000000000000000"));
    assert!(!is_system_keyspace(""));
}
