use stockledger::fields::{Field, FieldType};
use stockledger::manager::SchemaManager;
use stockledger::registry::Registry;
use stockledger::schema::Schema;
use stockledger::schema_store::Schemas;
use stockledger::validator::ValidatorError;
use stockledger::value::Value;
use stockledger::value_store::ValueStore;

#[test]
fn test_schema_creation() {
    let schema = Schema::create(
        "TestSchema",
        vec![
            Field::create("name", FieldType::String, true, Value::Null),
            Field::create("age", FieldType::Number, false, Value::Number(30)),
        ],
    );

    println!("{:?}", schema);

    assert_eq!(schema.name(), "TestSchema");
    assert_eq!(schema.fields().len(), 2);

    let age_field = schema.get_field("age");

    assert!(age_field.is_some());

    let age_field = age_field.unwrap();
    assert!(!age_field.required());
}

#[test]
fn test_value_validation() {
    let schema = Schema::create(
        "TestSchema",
        vec![
            Field::create("name", FieldType::String, true, Value::Null),
            Field::create("age", FieldType::Number, false, Value::Number(30)),
            Field::create("other", FieldType::Object, true, Value::Null),
        ],
    );

    let inner_schema = Schema::create(
        "InnerSchema",
        vec![Field::create("a", FieldType::Number, true, Value::Null)],
    );

    let mut schema_manager = SchemaManager::new(Registry::new());

    schema_manager.register("TestSchema", schema);

    schema_manager.register("InnerSchema", inner_schema);

    let value = ValueStore::builder()
        .with_schema("TestSchema")
        .string("name", "Ookuma Wakana")
        .number("age", 23)
        .object(
            "other",
            Value::builder().object().push_number("a", 10).build().unwrap(),
            Some("InnerSchema"),
        )
        .build();

    let result = schema_manager.validate(&value);
    println!("Validation result: {:?}", result);
    assert!(result.is_ok());

    println!("{:?}", value);
}

#[test]
fn test_value_invalidation() {
    let schema = Schema::create(
        "TestSchema",
        vec![
            Field::create("name", FieldType::String, true, Value::Null),
            Field::create("age", FieldType::Number, false, Value::Number(30)),
            Field::create("other", FieldType::Object, true, Value::Null),
        ],
    );

    let inner_schema = Schema::create(
        "InnerSchema",
        vec![Field::create("a", FieldType::Number, true, Value::Null)],
    );

    let mut schema_manager = SchemaManager::new(Registry::new());

    schema_manager.register("TestSchema", schema);

    schema_manager.register("InnerSchema", inner_schema);

    let mut value = ValueStore::builder()
        .with_schema("TestSchema")
        .string("name", "Ookuma Wakana")
        .number("age", 23)
        .object(
            "other",
            Value::builder().object().push_number("b", 10).build().unwrap(),
            Some("InnerSchema"),
        )
        .build();

    let result = schema_manager.validate(&value);
    assert!(result.is_err());

    value.remove("other");

    let result = schema_manager.validate(&value);
    assert!(result.is_err());

    println!("Validation failed: {:?}", result);

    println!("{:?}", value);
}

#[test]
fn validator_missing_field_is_hard_error() {
    let schema = Schema::create(
        "S",
        vec![Field::create("must", FieldType::String, true, Value::Null)],
    );
    let mut manager = SchemaManager::new(Registry::new());
    manager.register("S", schema);

    let store = ValueStore::builder().with_schema("S").build();
    let result = manager.validate(&store);
    assert!(matches!(result, Err(ValidatorError::MissingField(n)) if n == "must"));
}

#[test]
fn validator_required_null_is_distinct_error() {
    let schema = Schema::create(
        "S",
        vec![Field::create("must", FieldType::String, true, Value::Null)],
    );
    let mut manager = SchemaManager::new(Registry::new());
    manager.register("S", schema);

    let store = ValueStore::builder().with_schema("S").null("must").build();
    let result = manager.validate(&store);
    assert!(matches!(result, Err(ValidatorError::RequiredFieldMissing(n)) if n == "must"));
}

#[test]
fn validator_optional_null_passes() {
    let schema = Schema::create(
        "S",
        vec![Field::create("maybe", FieldType::Number, false, Value::Null)],
    );
    let mut manager = SchemaManager::new(Registry::new());
    manager.register("S", schema);

    let store = ValueStore::builder().with_schema("S").null("maybe").build();
    assert!(manager.validate(&store).is_ok());
}

#[test]
fn validator_wrong_type_is_invalid_type() {
    let schema = Schema::create(
        "S",
        vec![Field::create("n", FieldType::Number, true, Value::Null)],
    );
    let mut manager = SchemaManager::new(Registry::new());
    manager.register("S", schema);

    let store = ValueStore::builder().with_schema("S").string("n", "oops").build();
    let result = manager.validate(&store);
    assert!(matches!(result, Err(ValidatorError::InvalidType(n)) if n == "n"));
}

#[test]
fn validator_nested_declaration_skipped_when_key_absent() {
    // A declared nested schema for a key the store never sets is
    // skipped, not failed -- even though the named schema is not
    // registered at all.
    let schema = Schema::create(
        "Outer",
        vec![Field::create("name", FieldType::String, true, Value::Null)],
    );
    let mut manager = SchemaManager::new(Registry::new());
    manager.register("Outer", schema);

    let store = ValueStore::builder()
        .with_schema("Outer")
        .string("name", "x")
        .array("ghost_key", vec![], Some("NeverRegistered"))
        .build();
    let mut store = store;
    store.remove("ghost_key");

    assert!(manager.validate(&store).is_ok());
}

#[test]
fn validator_missing_schema_name_and_unknown_schema() {
    let manager = SchemaManager::new(Registry::new());

    let anonymous = ValueStore::builder().string("a", "b").build();
    assert!(matches!(
        manager.validate(&anonymous),
        Err(ValidatorError::SchemaIdentifierMissing)
    ));

    let tagged = ValueStore::builder().with_schema("Nowhere").build();
    assert!(matches!(
        manager.validate(&tagged),
        Err(ValidatorError::SchemaNotFound(n)) if n == "Nowhere"
    ));
}

#[test]
fn validator_nested_schema_must_resolve_when_key_present() {
    let schema = Schema::create("Outer", vec![]);
    let mut manager = SchemaManager::new(Registry::new());
    manager.register("Outer", schema);

    let store = ValueStore::builder()
        .with_schema("Outer")
        .object(
            "inner",
            Value::builder().object().push_number("a", 1).build().unwrap(),
            Some("Missing"),
        )
        .build();
    let result = manager.validate(&store);
    assert!(matches!(result, Err(ValidatorError::SchemaNotFound(n)) if n == "Missing"));
}

#[test]
fn end_to_end_item_schema_scenario() {
    // Register the "Item" schema; a store that leaves the optional
    // field unset still fails the field pass (absence is a hard
    // error), so builders set optional fields to null explicitly.
    let schema = Schema::create(
        "Item",
        vec![
            Field::create("name", FieldType::String, true, Value::Null),
            Field::create("qty", FieldType::Number, false, Value::Number(0)),
        ],
    );
    let mut manager = SchemaManager::new(Registry::new());
    manager.register("Item", schema);

    let without_qty = ValueStore::builder()
        .with_schema("Item")
        .string("name", "Widget")
        .build();
    assert!(matches!(
        manager.validate(&without_qty),
        Err(ValidatorError::MissingField(n)) if n == "qty"
    ));

    let with_null_qty = ValueStore::builder()
        .with_schema("Item")
        .string("name", "Widget")
        .null("qty")
        .build();
    assert!(manager.validate(&with_null_qty).is_ok());
}

#[test]
fn descriptor_resolves_every_declared_schema_up_front() {
    let mut manager = SchemaManager::new(Registry::new());
    manager.register("Outer", Schema::create("Outer", vec![]));
    manager.register("Inner", Schema::create(
        "Inner",
        vec![Field::create("a", FieldType::Number, true, Value::Null)],
    ));

    let store = ValueStore::builder()
        .with_schema("Outer")
        .object("child", Value::Object(vec![]), Some("Inner"))
        .build();

    let descriptor = manager.descriptor(&store).unwrap();
    assert_eq!(descriptor.main().name(), "Outer");
    assert_eq!(descriptor.properties().len(), 1);
    assert_eq!(descriptor.properties()[0].0, "child");
    assert_eq!(descriptor.properties()[0].1.name(), "Inner");

    // Unlike validation, the descriptor resolves declared names even
    // for keys the store does not set.
    let ghostly = ValueStore::builder()
        .with_schema("Outer")
        .array("unset", vec![], Some("Nowhere"))
        .build();
    let mut ghostly = ghostly;
    ghostly.remove("unset");
    assert!(matches!(
        manager.descriptor(&ghostly),
        Err(ValidatorError::SchemaNotFound(n)) if n == "Nowhere"
    ));

    // The storage fetch shape round-trips through its enum.
    let fetched = Schemas::Single(Schema::create("One", vec![]));
    assert!(matches!(fetched, Schemas::Single(s) if s.name() == "One"));
    let fetched = Schemas::Bulk(vec![Schema::create("A", vec![]), Schema::create("B", vec![])]);
    assert!(matches!(fetched, Schemas::Bulk(v) if v.len() == 2));
}
