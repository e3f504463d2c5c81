//! Reading the structure that object identifiers carry.
//!
//! An identifier of the relational kind of database is 32 hexadecimal digits;
//! its last eight digits are the object number. Numbers below
//! [`FIRST_USER_OBJECT`] belong to the catalog. Any other string carries no
//! number and decodes to 0.
//!
//! The decoder reads the bytes of an identifier, `id.spec_bytes()`: the
//! length that counts is the length in bytes. Only the digits `0` to `9`,
//! `a` to `f` and `A` to `F` count: a 32-byte identifier whose last eight
//! bytes begin with a sign, as in `+0004000`, carries no number and decodes
//! to 0, though `u32::from_str_radix` would read the sign.

use vstd::prelude::*;
use vstd::string::StringSliceAdditionalSpecFns;
use crate::text::same_text;

verus! {

/// The length in bytes of an identifier that carries an object number.
pub const IDENTIFIER_LEN: usize = 32;

/// Where the object number starts in such an identifier.
pub const OBJECT_NUMBER_START: usize = 24;

/// The smallest object number of a user object.
pub const FIRST_USER_OBJECT: u32 = 16384;

/// What follows a database's identifier in the table identifier of that
/// database's colocation root.
pub open spec fn colocation_suffix() -> Seq<char> {
    ".colocated.parent.uuid"@
}

/// The value of one hexadecimal digit, in either case.
pub open spec fn hex_digit(b: u8) -> Option<nat> {
    if 0x30 <= b <= 0x39 {
        Some((b - 0x30) as nat)
    } else if 0x61 <= b <= 0x66 {
        Some((b - 0x61 + 10) as nat)
    } else if 0x41 <= b <= 0x46 {
        Some((b - 0x41 + 10) as nat)
    } else {
        None
    }
}

/// The number that a run of hexadecimal digits writes, most significant
/// digit first; `None` if a byte is no digit.
pub open spec fn hex_value(digits: Seq<u8>) -> Option<nat>
    decreases digits.len(),
{
    if digits.len() == 0 {
        Some(0)
    } else {
        match (hex_value(digits.drop_last()), hex_digit(digits.last())) {
            (Some(high), Some(low)) => Some(16 * high + low),
            _ => None,
        }
    }
}

/// The object number of an identifier given by its bytes: the value of its
/// last eight bytes where it is 32 bytes long and they are hexadecimal
/// digits, and 0 for every other string.
pub open spec fn object_number(id: Seq<u8>) -> nat {
    if id.len() == IDENTIFIER_LEN {
        match hex_value(id.subrange(OBJECT_NUMBER_START as int, IDENTIFIER_LEN as int)) {
            Some(v) => v,
            None => 0,
        }
    } else {
        0
    }
}

/// Whether an identifier names a catalog object.
pub open spec fn catalog_object(id: Seq<u8>) -> bool {
    object_number(id) < FIRST_USER_OBJECT
}

/// Whether `table_id` is the table identifier of the colocation root of the
/// database `database_id`.
pub open spec fn colocation_root(database_id: Seq<char>, table_id: Seq<char>) -> bool {
    table_id == database_id + colocation_suffix()
}

/// Whether an identifier is one of the well-known system databases.
pub open spec fn system_keyspace(id: Seq<char>) -> bool {
    ||| id == "00000000000000000000000000000001"@
    ||| id == "00000000000000000000000000000002"@
    ||| id == "00000000000000000000000000000003"@
    ||| id == "00000001000030008000000000000000"@
    ||| id == "000033e5000030008000000000000000"@
}

/// 16 to the power `n`.
pub open spec fn pow16(n: nat) -> nat
    decreases n,
{
    if n == 0 {
        1
    } else {
        16 * pow16((n - 1) as nat)
    }
}

/// The value of one hexadecimal digit.
fn decode_hex_digit(b: u8) -> (r: Option<u32>)
    ensures
        r is Some == hex_digit(b) is Some,
        r is Some ==> r->0 == hex_digit(b)->0 && r->0 < 16,
{
    if 0x30 <= b && b <= 0x39 {
        Some((b - 0x30) as u32)
    } else if 0x61 <= b && b <= 0x66 {
        Some((b - 0x61 + 10) as u32)
    } else if 0x41 <= b && b <= 0x46 {
        Some((b - 0x41 + 10) as u32)
    } else {
        None
    }
}

/// The object number that an identifier carries, 0 where it carries none.
pub fn decode_object_number(id: &str) -> (r: u32)
    ensures
        r == object_number(id.spec_bytes()),
        id.spec_bytes().len() != IDENTIFIER_LEN ==> r == 0,
{
    let bytes = id.as_bytes();
    if bytes.len() != IDENTIFIER_LEN {
        return 0;
    }
    let mut value: u64 = 0;
    let mut i: usize = OBJECT_NUMBER_START;
    while i < IDENTIFIER_LEN
        invariant
            bytes@ == id.spec_bytes(),
            bytes@.len() == 32,
            24 <= i <= 32,
            hex_value(bytes@.subrange(24, i as int)) == Some(value as nat),
            value < pow16((i - 24) as nat),
            pow16((i - 24) as nat) <= 0x1_0000_0000,
        decreases 32 - i,
    {
        let ghost before = bytes@.subrange(24, i as int);
        let ghost after = bytes@.subrange(24, i + 1);
        proof {
            assert(after.drop_last() =~= before);
            assert(after.last() == bytes@[i as int]);
            reveal_with_fuel(pow16, 9);
        }
        match decode_hex_digit(bytes[i]) {
            Some(d) => {
                value = 16 * value + d as u64;
            },
            None => {
                proof {
                    lemma_hex_value_none(bytes@, i + 1);
                }
                return 0;
            },
        }
        i += 1;
    }
    proof {
        reveal_with_fuel(pow16, 9);
    }
    value as u32
}

/// Once a prefix of the digits fails to decode, so does the whole run.
proof fn lemma_hex_value_none(bytes: Seq<u8>, i: int)
    requires
        bytes.len() == 32,
        24 <= i <= 32,
        hex_value(bytes.subrange(24, i)) is None,
    ensures
        hex_value(bytes.subrange(24, 32)) is None,
    decreases 32 - i,
{
    if i < 32 {
        assert(bytes.subrange(24, i + 1).drop_last() =~= bytes.subrange(24, i));
        lemma_hex_value_none(bytes, i + 1);
    }
}

/// Whether an identifier names a catalog object: its object number is below
/// the first user object's.
pub fn is_catalog_object(id: &str) -> (r: bool)
    ensures
        r == catalog_object(id.spec_bytes()),
        r == (object_number(id.spec_bytes()) < FIRST_USER_OBJECT),
{
    decode_object_number(id) < FIRST_USER_OBJECT
}

/// Whether `table_id` is `database_id` followed by `.colocated.parent.uuid`.
pub fn is_colocation_root_shard_id(database_id: &str, table_id: &str) -> (r: bool)
    ensures
        r == colocation_root(database_id@, table_id@),
{
    let root = String::from_str(database_id).concat(".colocated.parent.uuid");
    same_text(root.as_str(), table_id)
}

/// Whether an identifier is one of the well-known system databases, which
/// are left out of a listing unless details are asked for.
pub fn is_system_keyspace(id: &str) -> (r: bool)
    ensures
        r == system_keyspace(id@),
{
    same_text(id, "00000000000000000000000000000001")
        || same_text(id, "00000000000000000000000000000002")
        || same_text(id, "00000000000000000000000000000003")
        || same_text(id, "00000001000030008000000000000000")
        || same_text(id, "000033e5000030008000000000000000")
}

} // verus!
