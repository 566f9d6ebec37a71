use stockledger::codec::{value_from_text, value_to_text};
use stockledger::value::Value;
use stockledger::value_store::{ValueStore, ValueStoreError};

fn get_string(store: &ValueStore, key: &str) -> Option<String> {
    store.get(key).and_then(|v| v.as_str())
}

#[test]
fn builder_first_write_wins() {
    let store = ValueStore::builder().string("a", "x").string("a", "y").build();
    assert_eq!(get_string(&store, "a").as_deref(), Some("x"));

    let store = ValueStore::builder()
        .number("n", 1)
        .number("n", 2)
        .null("n")
        .build();
    assert_eq!(store.get("n").and_then(|v| v.as_i64()), Some(1));
}

#[test]
fn store_insert_is_upsert_unlike_builder() {
    let mut store = ValueStore::builder().string("a", "x").build();
    store.insert("a".to_string(), Value::String("y".to_string()));
    assert_eq!(get_string(&store, "a").as_deref(), Some("y"));

    store.remove("a");
    assert!(store.get("a").is_none());
    // Removing an absent key changes nothing.
    store.remove("a");
    assert!(store.get("a").is_none());
}

#[test]
fn store_round_trips_through_text() {
    let store = ValueStore::builder()
        .with_schema("Item")
        .string("name", "Widget \"A\"\\B")
        .number("qty", 42)
        .bool("active", true)
        .null("note")
        .array("sizes", vec![Value::Number(1), Value::Number(2)], None)
        .object(
            "extra",
            Value::builder().object().push_string("c", "d").build().unwrap(),
            Some("Extra"),
        )
        .build();

    let text = store.to_text();
    let back = ValueStore::from_text(&text).unwrap();

    assert_eq!(back.schema_name(), &Some("Item".to_string()));
    assert_eq!(
        back.object_properties_schemas(),
        store.object_properties_schemas()
    );
    assert_eq!(get_string(&back, "name").as_deref(), Some("Widget \"A\"\\B"));
    assert_eq!(back.get("qty").and_then(|v| v.as_i64()), Some(42));
    assert_eq!(back.get("active").and_then(|v| v.as_bool()), Some(true));
    assert!(back.get("note").map(|v| v.is_null()).unwrap_or(false));
    assert_eq!(
        back.get("sizes").and_then(|v| v.as_array()).map(|a| a.len()),
        Some(2)
    );
    // The whole entry bag renders identically after the round trip.
    assert_eq!(
        value_to_text(&back.as_value()),
        value_to_text(&store.as_value())
    );
    assert_eq!(back.get_all().len(), store.get_all().len());
}

#[test]
fn value_text_round_trips_tricky_values() {
    let samples = vec![
        Value::Null,
        Value::Boolean(false),
        Value::Number(0),
        Value::Number(u64::MAX),
        Value::String(String::new()),
        Value::String("\\\"\\".to_string()),
        Value::Array(vec![]),
        Value::Object(vec![]),
        Value::Array(vec![
            Value::Null,
            Value::Array(vec![Value::Number(7)]),
            Value::Object(vec![("k".to_string(), Value::String("v".to_string()))]),
        ]),
    ];
    for v in samples {
        let text = value_to_text(&v);
        let back = value_from_text(&text).expect(&text);
        assert_eq!(value_to_text(&back), text);
    }
}

#[test]
fn parser_rejects_malformed_text() {
    for bad in [
        "", "{", "[1,", "tru", "nul", "\"open", "01", "{\"a\":}", "{\"a\" 1}", "1 2", "{}x",
        "18446744073709551616",
    ] {
        assert!(value_from_text(bad).is_none(), "{}", bad);
    }
    // The canonical forms parse.
    assert!(value_from_text("0").is_some());
    assert!(value_from_text("18446744073709551615").is_some());
    assert!(value_from_text("{\"a\":[1,true,null]}").is_some());
}

#[test]
fn to_value_string_renders_scalars_bare() {
    assert_eq!(Value::String("plain".to_string()).to_value_string(), "plain");
    assert_eq!(Value::Number(907).to_value_string(), "907");
    assert_eq!(Value::Null.to_value_string(), "null");
    assert_eq!(Value::Boolean(true).to_value_string(), "true");
    assert_eq!(
        Value::Array(vec![Value::Number(1), Value::Null]).to_value_string(),
        "[1,null]"
    );
    assert_eq!(
        Value::Object(vec![("a".to_string(), Value::Number(1))]).to_value_string(),
        "{\"a\":1}"
    );
}

#[test]
fn value_accessors_narrow_by_tag() {
    let v = Value::String("s".to_string());
    assert_eq!(v.as_str().as_deref(), Some("s"));
    assert!(v.as_i64().is_none());
    assert!(v.as_bool().is_none());
    assert!(v.as_array().is_none());
    assert!(v.as_object().is_none());
    assert!(!v.is_null());
    assert!(!v.is_object());

    let v = Value::Object(vec![("k".to_string(), Value::Boolean(true))]);
    assert!(v.is_object());
    assert_eq!(v.as_object().map(|m| m.len()), Some(1));

    assert!(Value::Null.is_null());
    assert_eq!(Value::Number(3).as_i64(), Some(3));
    assert_eq!(Value::Boolean(false).as_bool(), Some(false));
    assert_eq!(Value::Array(vec![]).as_array().map(|a| a.len()), Some(0));
}

#[test]
fn number_from_generic_source_checks_range() {
    assert!(matches!(
        Value::number_from_i64(12),
        Ok(Value::Number(12))
    ));
    assert!(matches!(
        Value::number_from_i64(-1),
        Err(ValueStoreError::NumberOutOfRange)
    ));
}

#[test]
fn store_conversions_from_values() {
    let obj = Value::Object(vec![("k".to_string(), Value::Number(9))]);

    let shallow = ValueStore::from_value_shallow(&obj).unwrap();
    assert_eq!(shallow.get("k").and_then(|v| v.as_i64()), Some(9));
    assert!(shallow.schema_name().is_none());

    let wrapped = ValueStore::from_object_value(
        Some("S".to_string()),
        &obj,
        vec![("k".to_string(), "Inner".to_string())],
    )
    .unwrap();
    assert_eq!(wrapped.schema_name(), &Some("S".to_string()));
    assert_eq!(wrapped.object_properties_schemas().len(), 1);

    assert!(matches!(
        ValueStore::from_value_shallow(&Value::Number(1)),
        Err(ValueStoreError::NotAnObject)
    ));

    // A full conversion needs a `values` object inside.
    let no_values = Value::Object(vec![("schema_name".to_string(), Value::Null)]);
    assert!(matches!(
        ValueStore::try_from_value(&no_values),
        Err(ValueStoreError::CannotConvertFromValue)
    ));
    assert!(matches!(
        ValueStore::try_from_value(&Value::Number(1)),
        Err(ValueStoreError::NotAnObject)
    ));
}

#[test]
fn store_descriptor_and_fluent_setters() {
    let store = ValueStore::new(Some("S".to_string()))
        .string("a", "x".to_string())
        .number("b", 2)
        .object("c", Value::Object(vec![]))
        .array("d", vec![Value::Null]);
    let descriptor = store.schema_descriptor().unwrap();
    assert_eq!(descriptor.main(), "S");
    assert!(descriptor.properties().is_empty());

    assert!(ValueStore::new(None).schema_descriptor().is_none());
    assert_eq!(store.get_all().len(), 4);

    let with_props = ValueStore::new(Some("S".to_string()))
        .with_object_properties_schemas(vec![("c".to_string(), "Inner".to_string())]);
    let descriptor = with_props.schema_descriptor().unwrap();
    assert_eq!(descriptor.properties().len(), 1);
    assert_eq!(descriptor.properties()[0].1, "Inner");
}

#[test]
fn builder_with_value_replaces_entries() {
    let source = Value::Object(vec![("x".to_string(), Value::Number(5))]);
    let store = ValueStore::builder()
        .string("dropped", "gone")
        .with_value(&source)
        .unwrap()
        .build();
    assert!(store.get("dropped").is_none());
    assert_eq!(store.get("x").and_then(|v| v.as_i64()), Some(5));

    assert!(matches!(
        ValueStore::builder().with_value(&Value::Null),
        Err(ValueStoreError::NotAnObject)
    ));

    let store = ValueStore::builder()
        .with_values(vec![("y".to_string(), Value::Boolean(true))])
        .insert("z", Value::Null)
        .build();
    assert_eq!(store.get("y").and_then(|v| v.as_bool()), Some(true));
    assert!(store.get("z").map(|v| v.is_null()).unwrap_or(false));
}

#[test]
fn value_builder_stages_and_nesting() {
    assert!(Value::builder().build().is_none());
    assert_eq!(
        Value::builder().string("s").build().unwrap().as_str().as_deref(),
        Some("s")
    );
    assert_eq!(
        Value::builder().number(4).build().unwrap().as_i64(),
        Some(4)
    );
    assert!(Value::builder().null().build().unwrap().is_null());

    let arr = Value::builder()
        .array()
        .push_number(1)
        .push_string("two")
        .push_null()
        .push_array(|b| b.push_number(3))
        .push_object(|b| b.push_string("k", "v"))
        .build()
        .unwrap();
    assert_eq!(value_to_text(&arr), "[1,\"two\",null,[3],{\"k\":\"v\"}]");

    let obj = Value::builder()
        .object()
        .push_number("n", 1)
        .push_number("n", 2)
        .push_string("s", "x")
        .push_null("z")
        .push_array("a", |b| b.push_number(9))
        .push_object("o", |b| b.push_null("inner"))
        .build()
        .unwrap();
    assert_eq!(
        value_to_text(&obj),
        "{\"n\":1,\"s\":\"x\",\"z\":null,\"a\":[9],\"o\":{\"inner\":null}}"
    );

    let map = Value::builder().object().push_number("a", 10).into_map();
    assert_eq!(map.len(), 1);
    assert_eq!(map[0].0, "a");
}
