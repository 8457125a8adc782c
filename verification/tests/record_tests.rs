use std::collections::BTreeMap;

use libserpix_rs::error::DecodeError;
use libserpix_rs::record::{
    decode_record, record_fields, record_to_forward, unsigned_field, RecordFields, TelemetryRecord,
};
use rustc_serialize::json::Json;

fn object(members: Vec<(&str, Json)>) -> Json {
    let mut map = BTreeMap::new();
    for (key, value) in members {
        map.insert(key.to_string(), value);
    }
    Json::Object(map)
}

#[test]
fn counters_are_looked_up_by_key() {
    let json = object(vec![
        ("healing", Json::U64(32000)),
        ("overhealing", Json::U64(5)),
        ("target", Json::String("someone".to_string())),
    ]);
    assert_eq!(unsigned_field(&json, "healing"), Some(32000));
    assert_eq!(unsigned_field(&json, "overhealing"), Some(5));
    assert_eq!(unsigned_field(&json, "target"), None);
    assert_eq!(unsigned_field(&json, "absent"), None);
    assert_eq!(unsigned_field(&json, "Healing"), None);
    assert_eq!(
        record_fields(&json),
        RecordFields { healing: Some(32000), overhealing: Some(5) }
    );
}

#[test]
fn counter_has_to_be_an_unsigned_number() {
    let json = object(vec![
        ("a", Json::U64(u64::MAX)),
        ("b", Json::I64(7)),
        ("c", Json::I64(0)),
        ("d", Json::I64(-1)),
        ("e", Json::F64(3.0)),
        ("f", Json::Boolean(true)),
        ("g", Json::Null),
        ("h", Json::Array(vec![Json::U64(1)])),
        ("i", object(vec![("a", Json::U64(1))])),
        ("j", Json::String("12".to_string())),
    ]);
    assert_eq!(unsigned_field(&json, "a"), Some(u64::MAX));
    assert_eq!(unsigned_field(&json, "b"), Some(7));
    assert_eq!(unsigned_field(&json, "c"), Some(0));
    for key in ["d", "e", "f", "g", "h", "i", "j"] {
        assert_eq!(unsigned_field(&json, key), None);
    }
}

#[test]
fn value_that_is_no_object_has_no_counters() {
    let none = RecordFields { healing: None, overhealing: None };
    assert_eq!(record_fields(&Json::Null), none);
    assert_eq!(record_fields(&Json::U64(5)), none);
    assert_eq!(record_fields(&Json::String("healing".to_string())), none);
    assert_eq!(record_fields(&Json::Array(vec![Json::U64(1), Json::U64(2)])), none);
    assert_eq!(record_fields(&object(Vec::new())), none);
}

#[test]
fn record_with_one_counter_is_malformed() {
    let json = object(vec![("healing", Json::U64(1))]);
    assert_eq!(record_fields(&json), RecordFields { healing: Some(1), overhealing: None });
    assert_eq!(decode_record(Some(record_fields(&json))), Err(DecodeError::MalformedRecord));
    let json = object(vec![("healing", Json::U64(1)), ("overhealing", Json::I64(-4))]);
    assert_eq!(record_to_forward(Some(record_fields(&json))), Err(DecodeError::MalformedRecord));
    let json = object(vec![("healing", Json::U64(0)), ("overhealing", Json::I64(0))]);
    assert_eq!(record_to_forward(Some(record_fields(&json))), Ok(None));
    let json = object(vec![("healing", Json::U64(0)), ("overhealing", Json::I64(3))]);
    assert_eq!(
        record_to_forward(Some(record_fields(&json))),
        Ok(Some(TelemetryRecord { healing: 0, overhealing: 3 }))
    );
}

#[test]
fn record_needs_both_counters() {
    let both = RecordFields { healing: Some(32000), overhealing: Some(5) };
    assert_eq!(decode_record(Some(both)), Ok(TelemetryRecord { healing: 32000, overhealing: 5 }));
    let no_healing = RecordFields { healing: None, overhealing: Some(5) };
    assert_eq!(decode_record(Some(no_healing)), Err(DecodeError::MalformedRecord));
    let no_overhealing = RecordFields { healing: Some(1), overhealing: None };
    assert_eq!(decode_record(Some(no_overhealing)), Err(DecodeError::MalformedRecord));
    let neither = RecordFields { healing: None, overhealing: None };
    assert_eq!(decode_record(Some(neither)), Err(DecodeError::MalformedRecord));
    assert_eq!(decode_record(None), Err(DecodeError::MalformedRecord));
}

#[test]
fn record_of_zeros_is_not_forwarded() {
    assert!(!TelemetryRecord { healing: 0, overhealing: 0 }.should_forward());
    assert!(TelemetryRecord { healing: 1, overhealing: 0 }.should_forward());
    assert!(TelemetryRecord { healing: 0, overhealing: 1 }.should_forward());
    assert!(TelemetryRecord { healing: u64::MAX, overhealing: u64::MAX }.should_forward());

    let zeros = RecordFields { healing: Some(0), overhealing: Some(0) };
    assert_eq!(record_to_forward(Some(zeros)), Ok(None));
    let some = RecordFields { healing: Some(0), overhealing: Some(9) };
    assert_eq!(
        record_to_forward(Some(some)),
        Ok(Some(TelemetryRecord { healing: 0, overhealing: 9 }))
    );
    let broken = RecordFields { healing: Some(0), overhealing: None };
    assert_eq!(record_to_forward(Some(broken)), Err(DecodeError::MalformedRecord));
    assert_eq!(record_to_forward(None), Err(DecodeError::MalformedRecord));
}
