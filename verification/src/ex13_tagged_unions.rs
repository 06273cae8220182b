//! A value tagged with its kind (integer, float or string), as a C tagged
//! union carries it, and the description of the integer and string kinds.

use vstd::prelude::*;
use crate::text::{int_to_decimal, push_i64, push_str};

verus! {

/// Which member of the union a tagged value holds.
#[derive(Debug, Clone, Copy, PartialEq, Eq, Structural)]
pub enum ValueTag {
    Integer,
    Float,
    String,
}

/// The tag's number on the C side: Integer 0, Float 1, String 2.
pub open spec fn tag_number(tag: ValueTag) -> u32 {
    match tag {
        ValueTag::Integer => 0,
        ValueTag::Float => 1,
        ValueTag::String => 2,
    }
}

/// The tag's number on the C side.
pub fn tag_code(tag: ValueTag) -> (r: u32)
    ensures
        r == tag_number(tag),
{
    match tag {
        ValueTag::Integer => 0,
        ValueTag::Float => 1,
        ValueTag::String => 2,
    }
}

/// The tag with number `code`, if there is one.
pub fn tag_from_code(code: u32) -> (r: Option<ValueTag>)
    ensures
        r matches Some(t) ==> tag_number(t) == code,
        r is None <==> code > 2,
{
    if code == 0 {
        Some(ValueTag::Integer)
    } else if code == 1 {
        Some(ValueTag::Float)
    } else if code == 2 {
        Some(ValueTag::String)
    } else {
        None
    }
}

/// The description of an integer value, e.g. `"Integer(-7)"`.
pub fn describe_integer(v: i64) -> (r: String)
    ensures
        r@ == "Integer("@ + int_to_decimal(v as int) + ")"@,
{
    let mut s = String::new();
    push_str(&mut s, "Integer(");
    push_i64(&mut s, v);
    push_str(&mut s, ")");
    assert(s@ =~= "Integer("@ + int_to_decimal(v as int) + ")"@);
    s
}

/// The description of a string value, e.g. `"String(world)"`.
pub fn describe_string(text: &str) -> (r: String)
    ensures
        r@ == "String("@ + text@ + ")"@,
{
    let mut s = String::new();
    push_str(&mut s, "String(");
    push_str(&mut s, text);
    push_str(&mut s, ")");
    assert(s@ =~= "String("@ + text@ + ")"@);
    s
}

} // verus!
