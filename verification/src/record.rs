//! Records: JSON objects read field by field.
//!
//! A record is read against a list of fields. The fields are looked at in the
//! order of the list, and the first one that is absent or holds the wrong kind
//! of value decides the error.

use vstd::prelude::*;
use crate::error::{Field, ParseError};
use crate::json::Json;

verus! {

impl Field {
    /// Whether a value is of the kind that the field holds.
    pub open spec fn admits(self, value: Json) -> bool {
        match self {
            Field::CurrentIndex => value.index_value() is Some,
            Field::Playing => value.truth() is Some,
            Field::Gain => value.float_bits() is Some,
            Field::Position => value.offset_value() is Some,
            Field::Entry => value.items() is Some,
            Field::Id => value.numeric_text() is Some,
            Field::SongCount | Field::Duration => value.unsigned() is Some,
            Field::Name | Field::CoverArt | Field::Title => value.text() is Some,
        }
    }
}

/// What is wrong with one field of a record, if anything is.
pub open spec fn fault_at(record: Json, field: Field) -> Option<ParseError> {
    match record.member(field.key()) {
        None => Some(ParseError::Missing(field)),
        Some(value) => if field.admits(value) {
            None
        } else {
            Some(ParseError::Malformed(field))
        },
    }
}

/// The fault of the first field from position `from` on that has one.
pub open spec fn first_fault_from(record: Json, fields: Seq<Field>, from: int) -> Option<ParseError>
    decreases fields.len() - from,
{
    if from < 0 || from >= fields.len() {
        None
    } else if fault_at(record, fields[from]) is Some {
        fault_at(record, fields[from])
    } else {
        first_fault_from(record, fields, from + 1)
    }
}

/// What stands in the way of reading a value as a record with the given
/// fields: that it is no object, or else the fault of the first faulty field.
pub open spec fn record_fault(record: Json, fields: Seq<Field>) -> Option<ParseError> {
    if !(record is Object) {
        Some(ParseError::NotAnObject)
    } else {
        first_fault_from(record, fields, 0)
    }
}

/// The value of a field of a record.
pub open spec fn value_at(record: Json, field: Field) -> Json {
    record.member(field.key())->Some_0
}

/// The first fault is the fault of some field, and of the earliest that has
/// one.
pub proof fn lemma_first_fault(record: Json, fields: Seq<Field>, from: int)
    requires
        0 <= from <= fields.len(),
    ensures
        match first_fault_from(record, fields, from) {
            None => forall|i: int|
                from <= i < fields.len() ==> fault_at(record, #[trigger] fields[i]) is None,
            Some(e) => exists|k: int|
                {
                    &&& from <= k < fields.len()
                    &&& #[trigger] fault_at(record, fields[k]) == Some(e)
                    &&& forall|i: int|
                        from <= i < k ==> fault_at(record, #[trigger] fields[i]) is None
                },
        },
    decreases fields.len() - from,
{
    if from < fields.len() && fault_at(record, fields[from]) is None {
        lemma_first_fault(record, fields, from + 1);
    }
}

/// A record that lacks one of its fields is refused, and where every field
/// before the lacking one is in order, the error names that field as missing.
pub proof fn lemma_missing_field(record: Json, fields: Seq<Field>, k: int)
    requires
        0 <= k < fields.len(),
        record.member(fields[k].key()) is None,
    ensures
        record_fault(record, fields) is Some,
        record is Object && (forall|i: int|
            0 <= i < k ==> fault_at(record, #[trigger] fields[i]) is None)
            ==> record_fault(record, fields) == Some(ParseError::Missing(fields[k])),
{
    lemma_first_fault(record, fields, 0);
}

/// Two records that agree on the members under a list of fields have the
/// same fault against that list: no other member is looked at.
pub proof fn lemma_only_fields_count(a: Json, b: Json, fields: Seq<Field>, from: int)
    requires
        0 <= from <= fields.len(),
        a is Object,
        b is Object,
        forall|i: int|
            0 <= i < fields.len() ==> a.member(#[trigger] fields[i].key()) == b.member(
                fields[i].key(),
            ),
    ensures
        first_fault_from(a, fields, from) == first_fault_from(b, fields, from),
    decreases fields.len() - from,
{
    if from < fields.len() {
        lemma_only_fields_count(a, b, fields, from + 1);
    }
}

/// A list decoded element by element: the decoded elements in their order,
/// or the error of the first element that fails.
pub open spec fn each_decoded<T>(
    items: Seq<Json>,
    decode: spec_fn(Json) -> Result<T, ParseError>,
) -> Result<Seq<T>, ParseError>
    decreases items.len(),
{
    if items.len() == 0 {
        Ok(Seq::empty())
    } else {
        match each_decoded(items.drop_last(), decode) {
            Err(e) => Err(e),
            Ok(front) => match decode(items.last()) {
                Err(e) => Err(e),
                Ok(x) => Ok(front.push(x)),
            },
        }
    }
}

/// A decoded list has one element for each element of its source, each the
/// decoding of its counterpart; a failure is that of the earliest element
/// that fails.
pub proof fn lemma_each_decoded<T>(items: Seq<Json>, decode: spec_fn(Json) -> Result<T, ParseError>)
    ensures
        match each_decoded(items, decode) {
            Ok(out) => {
                &&& out.len() == items.len()
                &&& forall|i: int|
                    0 <= i < items.len() ==> decode(#[trigger] items[i]) == Ok::<T, ParseError>(
                        out[i],
                    )
            },
            Err(e) => exists|k: int|
                {
                    &&& 0 <= k < items.len()
                    &&& decode(#[trigger] items[k]) == Err::<T, ParseError>(e)
                    &&& forall|i: int| 0 <= i < k ==> decode(#[trigger] items[i]) is Ok
                },
        },
    decreases items.len(),
{
    if items.len() > 0 {
        let front = items.drop_last();
        lemma_each_decoded(front, decode);
        match each_decoded(front, decode) {
            Err(e) => {
                let k = choose|k: int|
                    {
                        &&& 0 <= k < front.len()
                        &&& decode(#[trigger] front[k]) == Err::<T, ParseError>(e)
                        &&& forall|i: int| 0 <= i < k ==> decode(#[trigger] front[i]) is Ok
                    };
                assert forall|i: int| 0 <= i < k implies decode(#[trigger] items[i]) is Ok by {
                    assert(items[i] == front[i]);
                }
            },
            Ok(out) => {
                assert forall|i: int| 0 <= i < front.len() implies decode(
                    #[trigger] items[i],
                ) == Ok::<T, ParseError>(out[i]) by {
                    assert(items[i] == front[i]);
                }
            },
        }
    }
}

/// Once a prefix of a list fails to decode, the whole list fails in the same
/// way.
pub proof fn lemma_failure_stays<T>(
    items: Seq<Json>,
    decode: spec_fn(Json) -> Result<T, ParseError>,
    k: int,
)
    requires
        0 <= k <= items.len(),
        each_decoded(items.take(k), decode) is Err,
    ensures
        each_decoded(items, decode) == each_decoded(items.take(k), decode),
    decreases items.len(),
{
    if k == items.len() {
        assert(items.take(k) == items);
    } else {
        assert(items.drop_last().take(k) == items.take(k));
        lemma_failure_stays(items.drop_last(), decode, k);
    }
}

/// Looks up a field of a record.
pub fn fetch<'a>(record: &'a Json, field: Field) -> (r: Result<&'a Json, ParseError>)
    ensures
        match r {
            Ok(value) => record.member(field.key()) == Some(*value),
            Err(e) => record.member(field.key()) is None && e == ParseError::Missing(field),
        },
{
    match record.get(field.name()) {
        Some(value) => Ok(value),
        None => Err(ParseError::Missing(field)),
    }
}

/// Insists on a reading of a field's value.
pub fn want<T>(reading: Option<T>, field: Field) -> (r: Result<T, ParseError>)
    ensures
        r == match reading {
            Some(v) => Ok::<T, ParseError>(v),
            None => Err(ParseError::Malformed(field)),
        },
{
    match reading {
        Some(v) => Ok(v),
        None => Err(ParseError::Malformed(field)),
    }
}

} // verus!
