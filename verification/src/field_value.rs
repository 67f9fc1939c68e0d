//! The values that a line of a structured log holds.
//!
//! A line is read as JSON by the `json` crate. What it yields is copied into
//! `FieldValue`, a plain tree that the rest of the library can look into.

use crate::fraction_guard::{fractions_fit, has_short_fractions};
use json::JsonValue;
use vstd::prelude::*;
use vstd::string::StringSliceAdditionalSpecFns;
use vstd::utf8::encode_utf8;

verus! {

/// `json::JsonValue`, the value that the `json` crate parses a text to. The
/// library copies it into a `FieldValue` and keeps none.
#[verifier::external_type_specification]
#[verifier::external_body]
pub struct ExJsonValue(JsonValue);

/// One JSON value: a scalar, or an array or object of further values.
///
/// A number is kept as the decimal that was written: its sign, its digits
/// as an integer, and the power of ten to multiply them with. The members of
/// an object stand in the order in which they were written.
#[derive(Debug, PartialEq, Eq)]
pub enum FieldValue {
    Null,
    Bool(bool),
    Number { positive: bool, mantissa: u64, exponent: i16 },
    Text(String),
    Array(Vec<FieldValue>),
    Object(Vec<(String, FieldValue)>),
}

/// What the `json` crate makes of `text`: the value it parses to, copied into
/// a `FieldValue`, or `None` where it rejects the text.
pub uninterp spec fn json_document(text: Seq<char>) -> Option<FieldValue>;

/// Whether `text` is read at all: none of its fractions counts too many
/// digits.
pub open spec fn is_readable(text: Seq<char>) -> bool {
    fractions_fit(encode_utf8(text))
}

/// The value that `text` is read as: what the `json` crate makes of it, and
/// nothing where a fraction in it counts too many digits.
pub open spec fn document_of(text: Seq<char>) -> Option<FieldValue> {
    if is_readable(text) {
        json_document(text)
    } else {
        None
    }
}

/// The position of the first member named `key` at or behind `from`, or the
/// number of members if there is none.
pub open spec fn member_position(
    members: Seq<(String, FieldValue)>,
    key: Seq<char>,
    from: int,
) -> int
    decreases members.len() - from,
{
    if from >= members.len() {
        members.len() as int
    } else if from >= 0 && members[from].0@ == key {
        from
    } else {
        member_position(members, key, from + 1)
    }
}

/// The value of the first member named `key`, if there is one.
pub open spec fn member(members: Seq<(String, FieldValue)>, key: Seq<char>) -> Option<
    FieldValue,
> {
    let position = member_position(members, key, 0);
    if position < members.len() {
        Some(members[position].1)
    } else {
        None
    }
}

/// Whether two values are alike: the same scalar, or arrays or objects of the
/// same length whose items and members are alike one by one, under the same
/// names.
pub open spec fn alike(first: FieldValue, second: FieldValue) -> bool
    decreases first,
{
    match (first, second) {
        (FieldValue::Null, FieldValue::Null) => true,
        (FieldValue::Bool(a), FieldValue::Bool(b)) => a == b,
        (
            FieldValue::Number { positive: sign_a, mantissa: digits_a, exponent: power_a },
            FieldValue::Number { positive: sign_b, mantissa: digits_b, exponent: power_b },
        ) => sign_a == sign_b && digits_a == digits_b && power_a == power_b,
        (FieldValue::Text(a), FieldValue::Text(b)) => a@ == b@,
        (FieldValue::Array(a), FieldValue::Array(b)) => {
            &&& a@.len() == b@.len()
            &&& forall|i: int| 0 <= i < a@.len() ==> alike(#[trigger] a@[i], b@[i])
        },
        (FieldValue::Object(a), FieldValue::Object(b)) => {
            &&& a@.len() == b@.len()
            &&& forall|i: int|
                0 <= i < a@.len() ==> (#[trigger] a@[i]).0@ == b@[i].0@ && alike(a@[i].1, b@[i].1)
        },
        _ => false,
    }
}

impl Clone for FieldValue {
    /// A copy of the value that is alike it.
    fn clone(&self) -> (copy: Self)
        ensures
            alike(*self, copy),
        decreases self,
    {
        match self {
            FieldValue::Null => FieldValue::Null,
            FieldValue::Bool(b) => FieldValue::Bool(*b),
            FieldValue::Number { positive, mantissa, exponent } => FieldValue::Number {
                positive: *positive,
                mantissa: *mantissa,
                exponent: *exponent,
            },
            FieldValue::Text(text) => FieldValue::Text(text.clone()),
            FieldValue::Array(items) => {
                let mut copies: Vec<FieldValue> = Vec::new();
                let mut i: usize = 0;
                while i < items.len()
                    invariant
                        i <= items.len(),
                        *self == FieldValue::Array(*items),
                        copies@.len() == i,
                        forall|k: int| 0 <= k < i ==> alike(#[trigger] items@[k], copies@[k]),
                    decreases items.len() - i,
                {
                    proof {
                        assert(decreases_to!(*self => self->Array_0));
                        assert(decreases_to!(*items => items@));
                        assert(decreases_to!(items@ => items@[i as int]));
                    }
                    copies.push(items[i].clone());
                    i = i + 1;
                }
                FieldValue::Array(copies)
            },
            FieldValue::Object(members) => {
                let mut copies: Vec<(String, FieldValue)> = Vec::new();
                let mut i: usize = 0;
                while i < members.len()
                    invariant
                        i <= members.len(),
                        *self == FieldValue::Object(*members),
                        copies@.len() == i,
                        forall|k: int|
                            0 <= k < i ==> (#[trigger] members@[k]).0@ == copies@[k].0@ && alike(
                                members@[k].1,
                                copies@[k].1,
                            ),
                    decreases members.len() - i,
                {
                    proof {
                        assert(decreases_to!(*self => self->Object_0));
                        assert(decreases_to!(*members => members@));
                        assert(decreases_to!(members@ => members@[i as int]));
                        assert(decreases_to!(members@[i as int] => members@[i as int].1));
                    }
                    copies.push((members[i].0.clone(), members[i].1.clone()));
                    i = i + 1;
                }
                FieldValue::Object(copies)
            },
        }
    }
}

impl FieldValue {
    /// Whether the value is an object.
    pub fn is_object(&self) -> (yes: bool)
        ensures
            yes == (*self is Object),
    {
        match self {
            FieldValue::Object(_) => true,
            _ => false,
        }
    }

    /// The text of the value, if it is a string.
    pub fn as_str(&self) -> (text: Option<&str>)
        ensures
            *self matches FieldValue::Text(s) ==> text is Some && text.unwrap()@ == s@,
            !(*self is Text) ==> text is None,
    {
        match self {
            FieldValue::Text(s) => Some(s.as_str()),
            _ => None,
        }
    }

    /// The member named `key` of an object, as a specification: the first
    /// one of that name. `None` for a missing member and for a value that is
    /// no object.
    pub open spec fn spec_get(&self, key: Seq<char>) -> Option<FieldValue> {
        match *self {
            FieldValue::Object(members) => member(members@, key),
            _ => None,
        }
    }

    /// The member named `key` of an object.
    pub fn get(&self, key: &str) -> (found: Option<&FieldValue>)
        ensures
            match self.spec_get(key@) {
                Some(value) => found is Some && *found.unwrap() == value,
                None => found is None,
            },
    {
        match self {
            FieldValue::Object(members) => {
                let wanted = key.to_owned();
                let mut i: usize = 0;
                while i < members.len()
                    invariant
                        i <= members.len(),
                        wanted@ == key@,
                        self.spec_get(key@) == member(members@, key@),
                        member_position(members@, key@, 0) == member_position(
                            members@,
                            key@,
                            i as int,
                        ),
                    decreases members.len() - i,
                {
                    if members[i].0 == wanted {
                        assert(members@[i as int].0@ == key@);
                        assert(member_position(members@, key@, i as int) == i);
                        return Some(&members[i].1);
                    }
                    assert(member_position(members@, key@, i as int) == member_position(
                        members@,
                        key@,
                        i + 1,
                    ));
                    i = i + 1;
                }
                None
            },
            _ => None,
        }
    }
}

/// Copies a value of the `json` crate into a `FieldValue`, variant by
/// variant. The two string variants of `JsonValue` both become `Text`, and a
/// number is taken apart by `Number::as_parts`.
#[verifier::external_body]
fn from_json(value: &JsonValue) -> FieldValue {
    match value {
        JsonValue::Null => FieldValue::Null,
        JsonValue::Boolean(b) => FieldValue::Bool(*b),
        JsonValue::Number(n) => {
            let (positive, mantissa, exponent) = n.as_parts();
            FieldValue::Number { positive, mantissa, exponent }
        },
        JsonValue::Short(s) => FieldValue::Text(s.as_str().to_owned()),
        JsonValue::String(s) => FieldValue::Text(s.clone()),
        JsonValue::Array(items) => FieldValue::Array(items.iter().map(from_json).collect()),
        JsonValue::Object(o) => FieldValue::Object(
            o.iter().map(|(k, v)| (k.to_owned(), from_json(v))).collect(),
        ),
    }
}

/// `json::parse`: reads `text` as one JSON value. The contract names the
/// outcome, which depends on `text` alone, and claims nothing more of it.
///
/// The parser lowers the power of ten of a fraction, an `i16`, without a
/// check, once for each digit that it takes into the number, and gives up
/// with a panic where it would pass -32 768. It takes a digit in only while
/// the number with it fits a `u64`. So the contract leaves out the texts in
/// which a number outside of a string literal takes in more digits than
/// that, which `fractions_fit` finds.
#[verifier::external_body]
fn parse_json(text: &str) -> (document: Option<FieldValue>)
    requires
        is_readable(text@),
    ensures
        document == json_document(text@),
{
    match json::parse(text) {
        Ok(value) => Some(from_json(&value)),
        Err(_) => None,
    }
}

/// Reads `text` as one JSON value. A text in which a fraction takes in
/// more than `MAX_FRACTION_DIGITS` digits is not read and gives `None`; no
/// other text is left out.
pub fn parse_value(text: &str) -> (document: Option<FieldValue>)
    ensures
        document == document_of(text@),
        !is_readable(text@) ==> document is None,
{
    if has_short_fractions(text.as_bytes()) {
        parse_json(text)
    } else {
        None
    }
}

} // verus!
