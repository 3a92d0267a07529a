use sunk::error::{Field, ParseError};
use sunk::json::{Json, Number};
use sunk::record::{fetch, want};

fn unsigned(n: u64) -> Json {
    Json::Number(Number { unsigned: Some(n), signed: i64::try_from(n).ok(), float_bits: Some((n as f64).to_bits()) })
}

#[test]
fn parse_reads_scalars() {
    assert_eq!(Json::parse("null"), Ok(Json::Null));
    assert_eq!(Json::parse("true"), Ok(Json::Bool(true)));
    assert_eq!(Json::parse("false"), Ok(Json::Bool(false)));
    assert_eq!(Json::parse("\"a\\nb\""), Ok(Json::Text("a\nb".to_string())));
}

#[test]
fn parse_reads_the_three_readings_of_a_number() {
    assert_eq!(
        Json::parse("7"),
        Ok(Json::Number(Number { unsigned: Some(7), signed: Some(7), float_bits: Some(7.0f64.to_bits()) }))
    );
    assert_eq!(
        Json::parse("-3"),
        Ok(Json::Number(Number { unsigned: None, signed: Some(-3), float_bits: Some((-3.0f64).to_bits()) }))
    );
    assert_eq!(
        Json::parse("0.75"),
        Ok(Json::Number(Number { unsigned: None, signed: None, float_bits: Some(0x3FE8_0000_0000_0000) }))
    );
    assert_eq!(
        Json::parse("18446744073709551615"),
        Ok(Json::Number(Number {
            unsigned: Some(u64::MAX),
            signed: None,
            float_bits: Some((u64::MAX as f64).to_bits()),
        }))
    );
}

#[test]
fn parse_reads_arrays_in_order() {
    assert_eq!(Json::parse("[]"), Ok(Json::Array(vec![])));
    assert_eq!(
        Json::parse("[2, [true], \"x\"]"),
        Ok(Json::Array(vec![unsigned(2), Json::Array(vec![Json::Bool(true)]), Json::Text("x".to_string())]))
    );
}

#[test]
fn parse_reads_objects() {
    assert_eq!(Json::parse("{}"), Ok(Json::Object(vec![])));
    let doc = Json::parse("{\"b\": 1, \"a\": {\"c\": null}}").unwrap();
    assert_eq!(doc.get("b"), Some(&unsigned(1)));
    assert_eq!(doc.get("a"), Some(&Json::Object(vec![("c".to_string(), Json::Null)])));
    assert_eq!(doc.get("c"), None);
}

#[test]
fn parse_keeps_the_last_of_repeated_keys() {
    let doc = Json::parse("{\"a\": 1, \"a\": 2}").unwrap();
    assert_eq!(doc, Json::Object(vec![("a".to_string(), unsigned(2))]));
}

#[test]
fn parse_refuses_what_is_no_json() {
    assert_eq!(Json::parse(""), Err(ParseError::Syntax));
    assert_eq!(Json::parse("{"), Err(ParseError::Syntax));
    assert_eq!(Json::parse("{\"a\": }"), Err(ParseError::Syntax));
    assert_eq!(Json::parse("1 2"), Err(ParseError::Syntax));
    assert_eq!(Json::parse("nul"), Err(ParseError::Syntax));
}

#[test]
fn get_takes_the_first_pair_with_the_key() {
    let doc = Json::Object(vec![
        ("a".to_string(), unsigned(1)),
        ("b".to_string(), unsigned(2)),
        ("a".to_string(), unsigned(3)),
    ]);
    assert_eq!(doc.get("a"), Some(&unsigned(1)));
    assert_eq!(doc.get("b"), Some(&unsigned(2)));
    assert_eq!(doc.get(""), None);
    assert_eq!(Json::Array(vec![unsigned(1)]).get("a"), None);
    assert_eq!(Json::Null.get("a"), None);
}

#[test]
fn readings_follow_the_variant() {
    let text = Json::Text("12".to_string());
    assert!(!text.is_object());
    assert!(Json::Object(vec![]).is_object());
    assert_eq!(text.as_str(), Some("12"));
    assert_eq!(text.as_numeric_text(), Some(12));
    assert_eq!(text.as_u64(), None);
    assert_eq!(text.as_bool(), None);
    assert_eq!(text.as_array(), None);
    assert_eq!(Json::Text("twelve".to_string()).as_numeric_text(), None);
    assert_eq!(unsigned(12).as_numeric_text(), None);
    assert_eq!(unsigned(12).as_str(), None);
    assert_eq!(unsigned(12).as_u64(), Some(12));
    assert_eq!(unsigned(12).as_i64(), Some(12));
    assert_eq!(unsigned(12).as_usize(), Some(12));
    assert_eq!(unsigned(12).as_isize(), Some(12));
    assert_eq!(unsigned(12).as_float_bits(), Some(12.0f64.to_bits()));
    assert_eq!(Json::Bool(true).as_bool(), Some(true));
    assert_eq!(Json::Bool(true).as_i64(), None);
    assert_eq!(Json::Array(vec![Json::Null]).as_array(), Some(&vec![Json::Null]));
}

#[test]
fn negative_and_fractional_numbers_are_no_offsets() {
    let minus = Json::parse("-1").unwrap();
    assert_eq!(minus.as_isize(), Some(-1));
    assert_eq!(minus.as_usize(), None);
    assert_eq!(minus.as_u64(), None);
    let half = Json::parse("0.5").unwrap();
    assert_eq!(half.as_isize(), None);
    assert_eq!(half.as_usize(), None);
    assert_eq!(half.as_float_bits(), Some(0.5f64.to_bits()));
}

#[test]
fn at_follows_keys_through_objects() {
    let doc = Json::parse("{\"a\": {\"b\": {\"c\": 5}}, \"d\": [1]}").unwrap();
    assert_eq!(doc.at(&[]), Some(&doc));
    assert_eq!(doc.at(&["a", "b", "c"]), Some(&unsigned(5)));
    assert_eq!(doc.at(&["a", "b"]), Some(&Json::Object(vec![("c".to_string(), unsigned(5))])));
    assert_eq!(doc.at(&["a", "c"]), None);
    assert_eq!(doc.at(&["a", "b", "c", "d"]), None);
    assert_eq!(doc.at(&["d", "0"]), None);
}

#[test]
fn errors_say_what_went_wrong() {
    assert_eq!(ParseError::Syntax.message(), "not a JSON document");
    assert_eq!(ParseError::NotAnObject.message(), "not an object");
    assert_eq!(ParseError::Missing(Field::Gain).message(), "missing field gain");
    assert_eq!(ParseError::Missing(Field::CurrentIndex).message(), "missing field currentIndex");
    assert_eq!(ParseError::Malformed(Field::CoverArt).message(), "malformed field coverArt");
    assert_eq!(ParseError::NoEntries.message(), "no entries found");
    assert_eq!(ParseError::NotAnArray.message(), "not an array");
}

#[test]
fn fields_travel_under_their_keys() {
    let fields = [
        (Field::CurrentIndex, "currentIndex"),
        (Field::Playing, "playing"),
        (Field::Gain, "gain"),
        (Field::Position, "position"),
        (Field::Entry, "entry"),
        (Field::Id, "id"),
        (Field::Name, "name"),
        (Field::SongCount, "songCount"),
        (Field::Duration, "duration"),
        (Field::CoverArt, "coverArt"),
        (Field::Title, "title"),
    ];
    for (field, key) in fields {
        assert_eq!(field.name(), key);
    }
}

#[test]
fn fetch_and_want_name_the_field() {
    let record = Json::parse("{\"gain\": true}").unwrap();
    assert_eq!(fetch(&record, Field::Gain), Ok(&Json::Bool(true)));
    assert_eq!(fetch(&record, Field::Playing), Err(ParseError::Missing(Field::Playing)));
    assert_eq!(fetch(&Json::Null, Field::Gain), Err(ParseError::Missing(Field::Gain)));
    assert_eq!(want(Some(3), Field::Gain), Ok(3));
    assert_eq!(want(None::<u64>, Field::Gain), Err(ParseError::Malformed(Field::Gain)));
}
