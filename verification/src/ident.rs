//! The names of a matcher's shadow table, made from its identifier.

use uuid::Uuid;
use vstd::prelude::*;
use crate::text::digit_char;

verus! {

/// The character of a hexadecimal digit, in lower case.
pub open spec fn hex_digit(d: nat) -> char {
    if d < 10 {
        digit_char(d)
    } else if d == 10 {
        'a'
    } else if d == 11 {
        'b'
    } else if d == 12 {
        'c'
    } else if d == 13 {
        'd'
    } else if d == 14 {
        'e'
    } else {
        'f'
    }
}

/// The last `digits` hexadecimal digits of `v`, the most significant first.
pub open spec fn hex_spec(v: nat, digits: nat) -> Seq<char>
    decreases digits,
{
    if digits == 0 {
        Seq::empty()
    } else {
        hex_spec(v / 16, (digits - 1) as nat).push(hex_digit(v % 16))
    }
}

/// The identifier as the names of the shadow table and its index hold it:
/// 32 hexadecimal digits.
pub open spec fn id_text_spec(id: u128) -> Seq<char> {
    hex_spec(id as nat, 32)
}

/// The shadow table of matcher `id`: `query_{id}`.
pub open spec fn query_table_spec(id: u128) -> Seq<char> {
    "query_"@ + id_text_spec(id)
}

/// The shadow table with its database: `watches.query_{id}`.
pub open spec fn qualified_table_spec(id: u128) -> Seq<char> {
    "watches."@ + query_table_spec(id)
}

/// `Uuid::from_u128` and the `to_string` of its `Simple` form: the 16 bytes
/// of the identifier, the most significant first, each as two lower-case
/// hexadecimal digits, with nothing between them.
#[verifier::external_body]
fn simple_hex(id: u128) -> (s: String)
    ensures
        s@ == hex_spec(id as nat, 32),
{
    Uuid::from_u128(id).as_simple().to_string()
}

/// The identifier as 32 hexadecimal digits.
pub fn id_text(id: u128) -> (s: String)
    ensures
        s@ == id_text_spec(id),
{
    simple_hex(id)
}

/// The name of the shadow table of matcher `id`.
pub fn query_table(id: u128) -> (s: String)
    ensures
        s@ == query_table_spec(id),
{
    let mut s = "query_".to_owned();
    let hex = simple_hex(id);
    s.append(hex.as_str());
    s
}

/// The name of the shadow table with its database.
pub fn qualified_table(id: u128) -> (s: String)
    ensures
        s@ == qualified_table_spec(id),
{
    let mut s = "watches.".to_owned();
    let table = query_table(id);
    s.append(table.as_str());
    s
}

} // verus!
