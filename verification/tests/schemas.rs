use stockledger::fields::{Field, FieldType};
use stockledger::params::{Timeframe, YearMonth};
use stockledger::registry::{BulkSchema, Registry};
use stockledger::schema::Schema;
use stockledger::schema_store::{
    fields_from_text, fields_to_text, schema_from_row, FinalizeAction, RegistryError,
    SchemaGetPayload, SchemaRegisterPayload, SchemaUpdatePayload,
};
use stockledger::value::Value;

fn sample_fields() -> Vec<Field> {
    vec![
        Field::create("name", FieldType::String, true, Value::Null),
        Field::create("qty", FieldType::Number, false, Value::Number(0)),
        Field::create("tags", FieldType::Array, false, Value::Array(vec![])),
        Field::create("extra", FieldType::Object, false, Value::Null),
        Field::create("live", FieldType::Boolean, true, Value::Boolean(true)),
    ]
}

#[test]
fn schema_index_edits() {
    let mut schema = Schema::create("S", sample_fields());
    assert!(schema.id().is_none());

    schema.push_field(Field::create("added", FieldType::String, false, Value::Null));
    assert_eq!(schema.fields().len(), 6);

    assert!(schema.rename_field(0, "title").is_some());
    assert_eq!(schema.get_field("title").unwrap().field_type(), &FieldType::String);
    assert!(schema.get_field("name").is_none());

    assert!(schema.change_type_field(1, FieldType::String).is_some());
    assert_eq!(schema.get_field("qty").unwrap().field_type(), &FieldType::String);

    assert!(schema.change_default_field(1, Value::String("0".to_string())).is_some());
    assert_eq!(
        schema.get_field("qty").unwrap().default_value().as_str().as_deref(),
        Some("0")
    );

    assert!(schema.set_required_field(1, true).is_some());
    assert!(schema.get_field("qty").unwrap().required());

    assert!(schema.remove_field(5).is_some());
    assert_eq!(schema.fields().len(), 5);

    // Out-of-range edits are refused without a panic.
    assert!(schema.remove_field(99).is_none());
    assert!(schema.rename_field(99, "x").is_none());
    assert!(schema.change_type_field(99, FieldType::Number).is_none());
    assert!(schema.change_default_field(99, Value::Null).is_none());
    assert!(schema.set_required_field(99, false).is_none());

    schema.set_id(42);
    assert_eq!(schema.id(), Some(42));
}

#[test]
fn field_setters() {
    let mut field = Field::create("a", FieldType::String, false, Value::Null);
    field.set_name("b");
    field.set_field_type(FieldType::Boolean);
    field.set_required(true);
    field.set_default(Value::Boolean(false));
    assert_eq!(field.name(), "b");
    assert_eq!(field.field_type(), &FieldType::Boolean);
    assert!(field.required());
    assert_eq!(field.default_value().as_bool(), Some(false));
}

#[test]
fn field_type_validity_is_exact_tag_match() {
    let types = [
        FieldType::String,
        FieldType::Number,
        FieldType::Boolean,
        FieldType::Array,
        FieldType::Object,
    ];
    let values = [
        Value::String("s".to_string()),
        Value::Number(1),
        Value::Boolean(true),
        Value::Array(vec![]),
        Value::Object(vec![]),
    ];
    for (ti, t) in types.iter().enumerate() {
        for (vi, v) in values.iter().enumerate() {
            assert_eq!(t.is_valid(v), ti == vi);
        }
        // Null never satisfies any type.
        assert!(!t.is_valid(&Value::Null));
    }
}

#[test]
fn registry_upsert_and_lookup() {
    let mut registry = Registry::new();
    assert!(registry.get_schema("S").is_none());

    registry.register("S", Schema::create("S", vec![]));
    assert_eq!(registry.get_schema("S").unwrap().fields().len(), 0);

    registry.register("S", Schema::create("S", sample_fields()));
    assert_eq!(registry.get_schema("S").unwrap().fields().len(), 5);

    let edited = registry.edit_schema("S").unwrap();
    edited.push_field(Field::create("patched", FieldType::Number, false, Value::Null));
    assert_eq!(registry.get_schema("S").unwrap().fields().len(), 6);
    assert!(registry.edit_schema("missing").is_none());
}

#[test]
fn registry_bulk_load_last_wins() {
    let bulk = BulkSchema {
        schemas: vec![
            Schema::create("A", vec![]),
            Schema::create("B", sample_fields()),
            Schema::create("A", sample_fields()),
        ],
    };
    let registry = Registry::load_from_file(bulk);
    assert_eq!(registry.get_schema("A").unwrap().fields().len(), 5);
    assert_eq!(registry.get_schema("B").unwrap().fields().len(), 5);
    assert!(registry.get_schema("C").is_none());
}

#[test]
fn fields_serialize_and_parse_losslessly() {
    let fields = sample_fields();
    let text = fields_to_text(&fields);
    let back = fields_from_text(&text).unwrap();

    assert_eq!(back.len(), fields.len());
    for (a, b) in fields.iter().zip(back.iter()) {
        assert_eq!(a.name(), b.name());
        assert_eq!(a.field_type(), b.field_type());
        assert_eq!(a.required(), b.required());
        assert_eq!(
            a.default_value().to_value_string(),
            b.default_value().to_value_string()
        );
    }

    assert!(fields_from_text("not a list").is_err());
    assert!(fields_from_text("[1]").is_err());
    assert!(fields_from_text("[{\"name\":\"x\"}]").is_err());
}

#[test]
fn schema_rebuilds_from_a_storage_row() {
    let text = fields_to_text(&sample_fields());
    let schema = schema_from_row(9, "Loaded", &text).unwrap();
    assert_eq!(schema.id(), Some(9));
    assert_eq!(schema.name(), "Loaded");
    assert_eq!(schema.fields().len(), 5);

    assert!(schema_from_row(1, "Broken", "oops").is_err());
}

#[test]
fn finalize_decides_between_update_and_create() {
    let mut registry = Registry::new();

    let fresh = Schema::create("Fresh", sample_fields());
    registry.register("Fresh", fresh);
    match registry.finalize_action("Fresh").unwrap() {
        FinalizeAction::Create { name, fields_text } => {
            assert_eq!(name, "Fresh");
            assert_eq!(fields_text, fields_to_text(&sample_fields()));
        }
        other => panic!("expected a creation, got {:?}", other),
    }

    let mut persisted = Schema::create("Old", sample_fields());
    persisted.set_id(5);
    registry.register("Old", persisted);
    match registry.finalize_action("Old").unwrap() {
        FinalizeAction::Update { id, name, .. } => {
            assert_eq!(id, 5);
            assert_eq!(name, "Old");
        }
        other => panic!("expected an update, got {:?}", other),
    }

    assert!(matches!(
        registry.finalize_action("Nowhere"),
        Err(RegistryError::SchemaNotFound(n)) if n == "Nowhere"
    ));
}

#[test]
fn schema_payloads_serialize_their_fields() {
    let register = SchemaRegisterPayload { name: "S".to_string(), fields: sample_fields() };
    assert_eq!(register.name(), "S");
    assert_eq!(register.fields(), fields_to_text(&sample_fields()));

    let update = SchemaUpdatePayload {
        id: 3,
        name: Some("S2".to_string()),
        fields: Some(sample_fields()),
    };
    assert_eq!(update.id(), 3);
    assert_eq!(update.name(), Some("S2"));
    assert_eq!(update.fields(), Some(fields_to_text(&sample_fields())));

    let bare = SchemaUpdatePayload { id: 4, name: None, fields: None };
    assert!(bare.name().is_none());
    assert!(bare.fields().is_none());

    assert_eq!(SchemaGetPayload { id: Some(7) }.id(), Some(7));
}

#[test]
fn month_frames_from_the_clock_library() {
    assert!(Timeframe::for_month(YearMonth(2024, 0)).is_none());
    assert!(Timeframe::for_month(YearMonth(2024, 13)).is_none());

    let frame = Timeframe::for_month(YearMonth(2024, 12)).unwrap();
    assert!(frame.start_timestamp() < frame.end_timestamp());
    // A 31-day month spans 31 days minus one second, up to daylight
    // shifts of at most an hour either way.
    let span = frame.end_timestamp() - frame.start_timestamp();
    assert!(span >= 31 * 24 * 3600 - 1 - 3600 && span <= 31 * 24 * 3600 - 1 + 3600);

    let feb = Timeframe::for_month(YearMonth(2023, 2)).unwrap();
    let feb_span = feb.end_timestamp() - feb.start_timestamp();
    assert!(feb_span >= 28 * 24 * 3600 - 1 - 3600 && feb_span <= 28 * 24 * 3600 - 1 + 3600);
}
