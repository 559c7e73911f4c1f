use tradesession::json::{slice_from_json, slices_from_json};
use tradesession::time_of_day::parse_time;
use tradesession::{
    make_time, parse_json_slices, JsonValue, SessionError, ShiftedTime, TimeOfDay,
};

fn text(s: &str) -> JsonValue {
    JsonValue::Text(s.to_string())
}

fn object(members: Vec<(&str, JsonValue)>) -> JsonValue {
    let (keys, values) = members.into_iter().map(|(k, v)| (k.to_string(), v)).unzip();
    JsonValue::Object(keys, values)
}

#[test]
fn two_slices_with_keys_of_mixed_case() {
    let json = "[{\"Begin\":\"09:00:00\",\"end\":\"10:15:00\"},{\"Begin\":\"21:00:00\",\"End\":\"01:00:00\"}]";
    let slices = parse_json_slices(json).unwrap();
    assert_eq!(slices.len(), 2);
    assert_eq!(slices[0].begin(), ShiftedTime::from(make_time(9, 0, 0)));
    assert_eq!(slices[0].end(), ShiftedTime::from(make_time(10, 15, 0)));
    assert_eq!(slices[1].begin(), ShiftedTime::from(make_time(21, 0, 0)));
    assert_eq!(slices[1].end(), ShiftedTime::from(make_time(1, 0, 0)));
    assert_eq!(slices[1].begin().seconds(), 3600);
    assert_eq!(slices[1].end().seconds(), 18000);
}

#[test]
fn keys_in_capitals_are_read() {
    let slices = parse_json_slices("[{\"BEGIN\":\"09:00:00\",\"END\":\"10:15:00\"}]").unwrap();
    assert_eq!(slices.len(), 1);
    assert_eq!(slices[0].begin().seconds(), 46800);
    assert_eq!(slices[0].end().seconds(), 51300);
}

#[test]
fn an_empty_array_has_no_slices() {
    assert_eq!(parse_json_slices("[]").unwrap().len(), 0);
    assert_eq!(parse_json_slices(" [ ] ").unwrap().len(), 0);
}

#[test]
fn what_is_no_array_is_malformed() {
    assert_eq!(
        parse_json_slices("{\"not\":\"array\"}").err(),
        Some(SessionError::MalformedSessionJson)
    );
    assert_eq!(parse_json_slices("null").err(), Some(SessionError::MalformedSessionJson));
    assert_eq!(parse_json_slices("17").err(), Some(SessionError::MalformedSessionJson));
    assert_eq!(parse_json_slices("\"09:00:00\"").err(), Some(SessionError::MalformedSessionJson));
}

#[test]
fn what_is_no_json_is_malformed() {
    assert_eq!(parse_json_slices("").err(), Some(SessionError::MalformedSessionJson));
    assert_eq!(parse_json_slices("[").err(), Some(SessionError::MalformedSessionJson));
    assert_eq!(
        parse_json_slices("[{\"begin\":\"09:00:00\",\"end\":\"10:15:00\"}").err(),
        Some(SessionError::MalformedSessionJson)
    );
    assert_eq!(parse_json_slices("begin").err(), Some(SessionError::MalformedSessionJson));
}

#[test]
fn an_element_without_begin_or_end_is_malformed() {
    assert_eq!(
        parse_json_slices("[{\"begin\":\"09:00:00\"}]").err(),
        Some(SessionError::MalformedSessionJson)
    );
    assert_eq!(
        parse_json_slices("[{\"end\":\"09:00:00\"}]").err(),
        Some(SessionError::MalformedSessionJson)
    );
    assert_eq!(
        parse_json_slices("[{\"begin\":9,\"end\":\"10:15:00\"}]").err(),
        Some(SessionError::MalformedSessionJson)
    );
    assert_eq!(parse_json_slices("[17]").err(), Some(SessionError::MalformedSessionJson));
    assert_eq!(
        parse_json_slices("[[\"09:00:00\",\"10:15:00\"]]").err(),
        Some(SessionError::MalformedSessionJson)
    );
    assert_eq!(parse_json_slices("[{}]").err(), Some(SessionError::MalformedSessionJson));
}

#[test]
fn a_time_that_cannot_be_read_is_malformed() {
    assert_eq!(
        parse_json_slices("[{\"begin\":\"24:00:00\",\"end\":\"10:15:00\"}]").err(),
        Some(SessionError::MalformedSessionJson)
    );
    assert_eq!(
        parse_json_slices("[{\"begin\":\"09:00:00\",\"end\":\"10:60:00\"}]").err(),
        Some(SessionError::MalformedSessionJson)
    );
    assert_eq!(
        parse_json_slices("[{\"begin\":\"09:00\",\"end\":\"10:15:00\"}]").err(),
        Some(SessionError::MalformedSessionJson)
    );
    assert_eq!(
        parse_json_slices("[{\"begin\":\"nine\",\"end\":\"10:15:00\"}]").err(),
        Some(SessionError::MalformedSessionJson)
    );
}

#[test]
fn a_backward_slice_is_an_invalid_range() {
    assert_eq!(
        parse_json_slices("[{\"begin\":\"10:00:00\",\"end\":\"09:00:00\"}]").err(),
        Some(SessionError::InvalidRange)
    );
    assert_eq!(
        parse_json_slices("[{\"begin\":\"09:00:00\",\"end\":\"09:00:00\"}]").err(),
        Some(SessionError::InvalidRange)
    );
}

#[test]
fn the_first_element_that_fails_decides() {
    let range_first = "[{\"begin\":\"10:00:00\",\"end\":\"09:00:00\"},{\"begin\":\"x\",\"end\":\"y\"}]";
    assert_eq!(parse_json_slices(range_first).err(), Some(SessionError::InvalidRange));
    let text_first = "[{\"begin\":\"x\",\"end\":\"y\"},{\"begin\":\"10:00:00\",\"end\":\"09:00:00\"}]";
    assert_eq!(parse_json_slices(text_first).err(), Some(SessionError::MalformedSessionJson));
    let good_then_bad = "[{\"begin\":\"09:00:00\",\"end\":\"10:00:00\"},{\"begin\":\"10:00:00\"}]";
    assert_eq!(parse_json_slices(good_then_bad).err(), Some(SessionError::MalformedSessionJson));
}

#[test]
fn the_last_of_two_members_of_one_key_counts() {
    let slices =
        parse_json_slices("[{\"begin\":\"08:00:00\",\"Begin\":\"09:00:00\",\"end\":\"10:00:00\"}]")
            .unwrap();
    assert_eq!(slices[0].begin().seconds(), 46800);
}

#[test]
fn a_leap_second_is_read_as_past_its_second() {
    let slices = parse_json_slices("[{\"begin\":\"09:00:00\",\"end\":\"09:59:60\"}]").unwrap();
    assert_eq!(slices[0].end().seconds(), 50400);
}

#[test]
fn times_are_read_by_the_format() {
    assert_eq!(parse_time("23:56:04", "%H:%M:%S"), Ok(make_time(23, 56, 4)));
    assert_eq!(parse_time("7:15", "%H:%M"), Ok(make_time(7, 15, 0)));
    assert_eq!(
        parse_time("08:59:60", "%H:%M:%S"),
        Ok(TimeOfDay::from_hms_nano(8, 59, 59, 1_000_000_000).unwrap())
    );
    assert_eq!(parse_time("24:00:00", "%H:%M:%S"), Err(SessionError::MalformedSessionJson));
    assert_eq!(parse_time("17:60", "%H:%M"), Err(SessionError::MalformedSessionJson));
    assert_eq!(parse_time("12", "%H"), Err(SessionError::MalformedSessionJson));
    assert_eq!(parse_time("09:00:00", "%Q"), Err(SessionError::MalformedSessionJson));
}

#[test]
fn the_text_under_a_key() {
    let v = object(vec![("begin", text("09:00:00")), ("n", JsonValue::Bool(true))]);
    assert_eq!(v.text_at("begin"), Some(&"09:00:00".to_string()));
    assert_eq!(v.text_at("end"), None);
    assert_eq!(v.text_at("n"), None);
    assert_eq!(v.text_at("Begin"), None);
    assert_eq!(text("begin").text_at("begin"), None);
    assert_eq!(JsonValue::Null.text_at("begin"), None);
    assert_eq!(JsonValue::Array(vec![text("begin")]).text_at("begin"), None);
    // Of two members of one key the first is the one that is found.
    let twice = object(vec![("k", text("a")), ("k", text("b"))]);
    assert_eq!(twice.text_at("k"), Some(&"a".to_string()));
    let hidden = object(vec![("k", JsonValue::Null), ("k", text("b"))]);
    assert_eq!(hidden.text_at("k"), None);
    // A key without a value at its place names no member.
    let short = JsonValue::Object(vec!["a".to_string(), "k".to_string()], vec![text("x")]);
    assert_eq!(short.text_at("a"), Some(&"x".to_string()));
    assert_eq!(short.text_at("k"), None);
}

#[test]
fn one_element_of_a_document() {
    let good = object(vec![("begin", text("21:00:00")), ("end", text("02:30:00"))]);
    let slice = slice_from_json(&good).unwrap();
    assert_eq!((slice.begin().seconds(), slice.end().seconds()), (3600, 23400));
    let no_end = object(vec![("begin", text("21:00:00"))]);
    assert_eq!(slice_from_json(&no_end).err(), Some(SessionError::MalformedSessionJson));
    let bad_end = object(vec![("begin", text("21:00:00")), ("end", text("late"))]);
    assert_eq!(slice_from_json(&bad_end).err(), Some(SessionError::MalformedSessionJson));
    let backward = object(vec![("begin", text("02:30:00")), ("end", text("21:00:00"))]);
    assert_eq!(slice_from_json(&backward).err(), Some(SessionError::InvalidRange));
    assert_eq!(slice_from_json(&JsonValue::Null).err(), Some(SessionError::MalformedSessionJson));
}

#[test]
fn the_slices_of_a_document() {
    let doc = JsonValue::Array(vec![
        object(vec![("begin", text("09:00:00")), ("end", text("10:15:00"))]),
        object(vec![("end", text("11:30:00")), ("begin", text("10:30:00"))]),
    ]);
    let slices = slices_from_json(&doc).unwrap();
    assert_eq!(slices.len(), 2);
    assert_eq!((slices[1].begin().seconds(), slices[1].end().seconds()), (52200, 55800));
    assert_eq!(slices_from_json(&JsonValue::Array(vec![])).unwrap().len(), 0);
    assert_eq!(
        slices_from_json(&object(vec![("begin", text("09:00:00")), ("end", text("10:15:00"))]))
            .err(),
        Some(SessionError::MalformedSessionJson)
    );
    assert_eq!(
        slices_from_json(&JsonValue::Number("1".to_string())).err(),
        Some(SessionError::MalformedSessionJson)
    );
}
