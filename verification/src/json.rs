//! JSON documents as plain data, and the door through which they come in.

use vstd::prelude::*;
use crate::decimal::{parse_u64, unsigned_of};
use crate::error::ParseError;

verus! {

/// The readings of one JSON number: as an unsigned integer, as a signed
/// integer, and as the bit pattern of a binary64 float. A reading that the
/// number does not admit is `None`.
#[derive(Debug, Clone, Copy, PartialEq, Eq)]
pub struct Number {
    pub unsigned: Option<u64>,
    pub signed: Option<i64>,
    pub float_bits: Option<u64>,
}

/// A JSON document. The members of an object are kept as a list of pairs; a
/// key stands for the first pair that carries it.
#[derive(Debug, PartialEq, Eq)]
pub enum Json {
    Null,
    Bool(bool),
    Number(Number),
    Text(String),
    Array(Vec<Json>),
    Object(Vec<(String, Json)>),
}

/// `serde_json::Value`, of which nothing is known but what [`content`] names.
#[verifier::external_type_specification]
#[verifier::external_body]
pub struct ExValue(serde_json::Value);

/// `serde_json::Error`, of which nothing is read.
#[verifier::external_type_specification]
#[verifier::external_body]
pub struct ExSyntaxError(serde_json::Error);

/// The value that `serde_json::from_str` makes of a text, `None` where it
/// reports an error.
pub uninterp spec fn document(text: Seq<char>) -> Option<serde_json::Value>;

/// What a `serde_json::Value` holds, variant by variant, with the members of
/// an object in the order in which its map hands them out.
pub uninterp spec fn content(value: serde_json::Value) -> Json;

/// `serde_json::from_str` at the type `serde_json::Value`: the result is
/// `Ok` exactly where `document` has a value, and then that value.
#[verifier::external_body]
fn read(text: &str) -> (r: Result<serde_json::Value, serde_json::Error>)
    ensures
        match r {
            Ok(value) => document(text@) == Some(value),
            Err(_) => document(text@) is None,
        },
{
    serde_json::from_str::<serde_json::Value>(text)
}

/// Copies a `serde_json::Value` into a [`Json`], one variant for one variant.
/// A number is copied as what `as_u64`, `as_i64` and `as_f64` return for it,
/// the float by its bits. It is asked only of values that
/// `serde_json::from_str` made, which nest no deeper than that function
/// allows.
#[verifier::external_body]
fn lift(value: &serde_json::Value) -> (json: Json)
    requires
        exists|text: Seq<char>| document(text) == Some(*value),
    ensures
        json == content(*value),
{
    match value {
        serde_json::Value::Null => Json::Null,
        serde_json::Value::Bool(b) => Json::Bool(*b),
        serde_json::Value::Number(n) => Json::Number(Number {
            unsigned: n.as_u64(),
            signed: n.as_i64(),
            float_bits: n.as_f64().map(|x| x.to_bits()),
        }),
        serde_json::Value::String(s) => Json::Text(s.clone()),
        serde_json::Value::Array(a) => Json::Array(a.iter().map(lift).collect()),
        serde_json::Value::Object(m) => Json::Object(
            m.iter().map(|(k, v)| (k.clone(), lift(v))).collect(),
        ),
    }
}

/// The value that a key stands for among the members of an object: that of
/// the first pair carrying the key.
pub open spec fn first_under(pairs: Seq<(String, Json)>, key: Seq<char>) -> Option<Json>
    decreases pairs.len(),
{
    if pairs.len() == 0 {
        None
    } else if pairs[0].0@ == key {
        Some(pairs[0].1)
    } else {
        first_under(pairs.drop_first(), key)
    }
}

/// The keys that a list of strings spells.
pub open spec fn keys(path: Seq<&str>) -> Seq<Seq<char>> {
    path.map_values(|key: &str| key@)
}

impl Json {
    /// The member under `key`, where the document is an object that has one.
    pub open spec fn member(self, key: Seq<char>) -> Option<Json> {
        match self {
            Json::Object(pairs) => first_under(pairs@, key),
            _ => None,
        }
    }

    /// The characters of a string.
    pub open spec fn text(self) -> Option<Seq<char>> {
        match self {
            Json::Text(s) => Some(s@),
            _ => None,
        }
    }

    /// The value of a number that is a non-negative integer below 2^64.
    pub open spec fn unsigned(self) -> Option<u64> {
        match self {
            Json::Number(n) => n.unsigned,
            _ => None,
        }
    }

    /// The value of a number that is an integer from -2^63 to 2^63 - 1.
    pub open spec fn signed(self) -> Option<i64> {
        match self {
            Json::Number(n) => n.signed,
            _ => None,
        }
    }

    /// The binary64 bits of a number.
    pub open spec fn float_bits(self) -> Option<u64> {
        match self {
            Json::Number(n) => n.float_bits,
            _ => None,
        }
    }

    /// The value of a boolean.
    pub open spec fn truth(self) -> Option<bool> {
        match self {
            Json::Bool(b) => Some(b),
            _ => None,
        }
    }

    /// The elements of an array.
    pub open spec fn items(self) -> Option<Seq<Json>> {
        match self {
            Json::Array(items) => Some(items@),
            _ => None,
        }
    }

    /// The value of a number that is an integer in the range of `isize`.
    pub open spec fn index_value(self) -> Option<isize> {
        match self.signed() {
            Some(n) if isize::MIN <= n <= isize::MAX => Some(n as isize),
            _ => None,
        }
    }

    /// The value of a number that is an integer in the range of `usize`.
    pub open spec fn offset_value(self) -> Option<usize> {
        match self.unsigned() {
            Some(n) if n <= usize::MAX => Some(n as usize),
            _ => None,
        }
    }

    /// The number that a string denotes in decimal.
    pub open spec fn numeric_text(self) -> Option<u64> {
        match self.text() {
            Some(s) => unsigned_of(s),
            None => None,
        }
    }

    /// The document reached by following one key after another through
    /// nested objects.
    pub open spec fn at_path(self, path: Seq<Seq<char>>) -> Option<Json>
        decreases path.len(),
    {
        if path.len() == 0 {
            Some(self)
        } else {
            match self.member(path[0]) {
                Some(child) => child.at_path(path.drop_first()),
                None => None,
            }
        }
    }

    pub fn is_object(&self) -> (b: bool)
        ensures
            b == (*self is Object),
    {
        match self {
            Json::Object(_) => true,
            _ => false,
        }
    }

    /// Looks a key up among the members of an object.
    pub fn get(&self, key: &str) -> (r: Option<&Json>)
        ensures
            match r {
                Some(child) => self.member(key@) == Some(*child),
                None => self.member(key@) is None,
            },
    {
        match self {
            Json::Object(pairs) => {
                let wanted = key.to_owned();
                let mut i: usize = 0;
                assert(pairs@.skip(0) == pairs@);
                while i < pairs.len()
                    invariant
                        i <= pairs.len(),
                        wanted@ == key@,
                        self.member(key@) == first_under(pairs@, key@),
                        first_under(pairs@, key@) == first_under(pairs@.skip(i as int), key@),
                    decreases pairs.len() - i,
                {
                    if pairs[i].0 == wanted {
                        return Some(&pairs[i].1);
                    }
                    assert(pairs@.skip(i as int).drop_first() == pairs@.skip(i + 1));
                    i += 1;
                }
                None
            },
            _ => None,
        }
    }

    /// Follows one key after another through nested objects.
    pub fn at(&self, path: &[&str]) -> (r: Option<&Json>)
        ensures
            match r {
                Some(found) => self.at_path(keys(path@)) == Some(*found),
                None => self.at_path(keys(path@)) is None,
            },
    {
        let mut here = self;
        let mut i: usize = 0;
        assert(keys(path@).skip(0) == keys(path@));
        while i < path.len()
            invariant
                i <= path.len(),
                self.at_path(keys(path@)) == here.at_path(keys(path@).skip(i as int)),
            decreases path.len() - i,
        {
            assert(keys(path@).skip(i as int).drop_first() == keys(path@).skip(i + 1));
            match here.get(path[i]) {
                Some(child) => {
                    here = child;
                },
                None => {
                    return None;
                },
            }
            i += 1;
        }
        Some(here)
    }

    pub fn as_str(&self) -> (r: Option<&str>)
        ensures
            match r {
                Some(s) => self.text() == Some(s@),
                None => self.text() is None,
            },
    {
        match self {
            Json::Text(s) => Some(s.as_str()),
            _ => None,
        }
    }

    pub fn as_u64(&self) -> (r: Option<u64>)
        ensures
            r == self.unsigned(),
    {
        match self {
            Json::Number(n) => n.unsigned,
            _ => None,
        }
    }

    pub fn as_i64(&self) -> (r: Option<i64>)
        ensures
            r == self.signed(),
    {
        match self {
            Json::Number(n) => n.signed,
            _ => None,
        }
    }

    /// The number as the bits of a binary64 float.
    pub fn as_float_bits(&self) -> (r: Option<u64>)
        ensures
            r == self.float_bits(),
    {
        match self {
            Json::Number(n) => n.float_bits,
            _ => None,
        }
    }

    pub fn as_isize(&self) -> (r: Option<isize>)
        ensures
            r == self.index_value(),
    {
        match self.as_i64() {
            Some(n) => {
                if n >= isize::MIN as i64 && n <= isize::MAX as i64 {
                    Some(n as isize)
                } else {
                    None
                }
            },
            None => None,
        }
    }

    pub fn as_usize(&self) -> (r: Option<usize>)
        ensures
            r == self.offset_value(),
    {
        match self.as_u64() {
            Some(n) => {
                if n <= usize::MAX as u64 {
                    Some(n as usize)
                } else {
                    None
                }
            },
            None => None,
        }
    }

    /// Reads a string that holds an unsigned integer in decimal.
    pub fn as_numeric_text(&self) -> (r: Option<u64>)
        ensures
            r == self.numeric_text(),
    {
        match self.as_str() {
            Some(s) => parse_u64(s),
            None => None,
        }
    }

    pub fn as_bool(&self) -> (r: Option<bool>)
        ensures
            r == self.truth(),
    {
        match self {
            Json::Bool(b) => Some(*b),
            _ => None,
        }
    }

    pub fn as_array(&self) -> (r: Option<&Vec<Json>>)
        ensures
            match r {
                Some(items) => self.items() == Some(items@),
                None => self.items() is None,
            },
    {
        match self {
            Json::Array(items) => Some(items),
            _ => None,
        }
    }

    /// The document that a text denotes.
    pub open spec fn of_text(text: Seq<char>) -> Result<Json, ParseError> {
        match document(text) {
            Some(value) => Ok(content(value)),
            None => Err(ParseError::Syntax),
        }
    }

    /// Reads a JSON text.
    pub fn parse(text: &str) -> (r: Result<Json, ParseError>)
        ensures
            r == Json::of_text(text@),
    {
        match read(text) {
            Ok(value) => Ok(lift(&value)),
            Err(_) => Err(ParseError::Syntax),
        }
    }
}

} // verus!
