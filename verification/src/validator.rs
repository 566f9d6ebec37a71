//! The recursive, registry-driven validator.  A store is checked
//! field by field against its schema, then each declared nested
//! object property is wrapped into a synthetic store and checked
//! against its own named schema, inheriting the declaration map so
//! deeper nesting keeps working.

use vstd::prelude::*;

use crate::fields::{spec_type_valid, SpecField};
use crate::registry::{reg_get, Registry};
use crate::schema::Schema;
use crate::value::{
    clone_entries, sv_obj_get,
    SpecValue, Value,
};
use crate::value_store::{
    clone_props, lemma_spec_props_index, lemma_spec_props_len, ValueStore,
    ValueStoreError,
};

verus! {

/// Model of a validation failure.
pub enum SpecVErr {
    MissingField(Seq<char>),
    InvalidType(Seq<char>),
    RequiredFieldMissing(Seq<char>),
    SchemaNotFound(Seq<char>),
    SchemaIdentifierMissing,
    ValueStoreError(ValueStoreError),
}

/// A validation failure, carrying the field or schema name concerned.
#[derive(Debug)]
pub enum ValidatorError {
    MissingField(String),
    InvalidType(String),
    RequiredFieldMissing(String),
    SchemaNotFound(String),
    SchemaIdentifierMissing,
    ValueStoreError(ValueStoreError),
}

impl View for ValidatorError {
    type V = SpecVErr;

    open spec fn view(&self) -> SpecVErr {
        match self {
            ValidatorError::MissingField(n) => SpecVErr::MissingField(n@),
            ValidatorError::InvalidType(n) => SpecVErr::InvalidType(n@),
            ValidatorError::RequiredFieldMissing(n) => SpecVErr::RequiredFieldMissing(n@),
            ValidatorError::SchemaNotFound(n) => SpecVErr::SchemaNotFound(n@),
            ValidatorError::SchemaIdentifierMissing => SpecVErr::SchemaIdentifierMissing,
            ValidatorError::ValueStoreError(e) => SpecVErr::ValueStoreError(*e),
        }
    }
}

/// Size of a value tree, used as the recursion measure.
pub open spec fn sv_size(v: SpecValue) -> nat
    decreases v,
{
    match v {
        SpecValue::Array(items) => 1 + sv_items_size(items),
        SpecValue::Object(es) => 1 + sv_entries_size(es),
        _ => 1,
    }
}

/// Summed size of an array's items.
pub open spec fn sv_items_size(items: Seq<SpecValue>) -> nat
    decreases items,
{
    if items.len() == 0 {
        0
    } else {
        sv_size(items.first()) + sv_items_size(items.drop_first())
    }
}

/// Summed size of an object's entry values.
pub open spec fn sv_entries_size(es: Seq<(Seq<char>, SpecValue)>) -> nat
    decreases es,
{
    if es.len() == 0 {
        0
    } else {
        sv_size(es.first().1) + sv_entries_size(es.drop_first())
    }
}

/// A value found in an object is no larger than the object's entries.
pub proof fn lemma_obj_get_size(es: Seq<(Seq<char>, SpecValue)>, k: Seq<char>)
    ensures
        sv_obj_get(es, k) matches Some(v) ==> sv_size(v) <= sv_entries_size(es),
    decreases es.len(),
{
    if es.len() > 0 {
        if es.first().0 == k {
        } else {
            lemma_obj_get_size(es.drop_first(), k);
        }
    }
}

/// The field pass: every schema field must be present; a null value
/// passes only for an optional field; a non-null value must match the
/// field's type.  The first failing field, in schema order, names the
/// error.
pub open spec fn spec_validate_fields(
    fields: Seq<SpecField>,
    values: Seq<(Seq<char>, SpecValue)>,
) -> Result<(), SpecVErr>
    decreases fields,
{
    if fields.len() == 0 {
        Ok(())
    } else {
        let f = fields.first();
        match sv_obj_get(values, f.name) {
            None => Err(SpecVErr::MissingField(f.name)),
            Some(v) => if f.required && v is Null {
                Err(SpecVErr::RequiredFieldMissing(f.name))
            } else if !(v is Null) && !spec_type_valid(f.field_type, v) {
                Err(SpecVErr::InvalidType(f.name))
            } else {
                spec_validate_fields(fields.drop_first(), values)
            },
        }
    }
}

/// The nested pass: for each declared property in `rem`, a key absent
/// from the values is skipped; a present one must be an object, its
/// schema name must resolve, and the nested object is validated
/// against that schema with the full declaration map inherited.
pub open spec fn spec_validate_props(
    reg: Seq<(Seq<char>, crate::schema::SpecSchema)>,
    rem: Seq<(Seq<char>, Seq<char>)>,
    full: Seq<(Seq<char>, Seq<char>)>,
    values: Seq<(Seq<char>, SpecValue)>,
) -> Result<(), SpecVErr>
    decreases sv_entries_size(values), rem.len(),
    via check_validate_props_decreases
{
    if rem.len() == 0 {
        Ok(())
    } else {
        let p = rem.first();
        match sv_obj_get(values, p.0) {
            None => spec_validate_props(reg, rem.drop_first(), full, values),
            Some(nested) => match reg_get(reg, p.1) {
                None => Err(SpecVErr::SchemaNotFound(p.1)),
                Some(schema) => match nested {
                    SpecValue::Object(nes) => match spec_validate_fields(schema.fields, nes) {
                        Err(e) => Err(e),
                        Ok(_) => match spec_validate_props(reg, full, full, nes) {
                            Err(e) => Err(e),
                            Ok(_) => spec_validate_props(reg, rem.drop_first(), full, values),
                        },
                    },
                    _ => Err(SpecVErr::ValueStoreError(ValueStoreError::NotAnObject)),
                },
            },
        }
    }
}

#[via_fn]
proof fn check_validate_props_decreases(
    reg: Seq<(Seq<char>, crate::schema::SpecSchema)>,
    rem: Seq<(Seq<char>, Seq<char>)>,
    full: Seq<(Seq<char>, Seq<char>)>,
    values: Seq<(Seq<char>, SpecValue)>,
) {
    if rem.len() > 0 {
        lemma_obj_get_size(values, rem.first().0);
    }
}

/// A whole pair of schema and store: the field pass, then the nested
/// pass over the store's declaration map.
pub open spec fn spec_validate(
    reg: Seq<(Seq<char>, crate::schema::SpecSchema)>,
    fields: Seq<SpecField>,
    props: Seq<(Seq<char>, Seq<char>)>,
    values: Seq<(Seq<char>, SpecValue)>,
) -> Result<(), SpecVErr> {
    match spec_validate_fields(fields, values) {
        Err(e) => Err(e),
        Ok(_) => spec_validate_props(reg, props, props, values),
    }
}

/// Top-level validation: the store must carry a schema name, the name
/// must resolve, and schema and store must pass `spec_validate`.
pub open spec fn spec_validate_store(
    reg: Seq<(Seq<char>, crate::schema::SpecSchema)>,
    store: crate::value_store::SpecStore,
) -> Result<(), SpecVErr> {
    match store.schema_name {
        None => Err(SpecVErr::SchemaIdentifierMissing),
        Some(n) => match reg_get(reg, n) {
            None => Err(SpecVErr::SchemaNotFound(n)),
            Some(sch) => spec_validate(reg, sch.fields, store.props, store.values),
        },
    }
}

/// The validator: a live handle on the registry, so schemas can be
/// redefined at runtime without recompiling callers.
pub struct Validator<'a> {
    pub registry: &'a Registry,
}

impl<'a> Validator<'a> {
    /// A validator over a registry.
    pub fn new(registry: &'a Registry) -> (r: Validator<'a>)
        ensures
            r.registry == registry,
    {
        Validator { registry }
    }

    /// The field pass of one schema against one store.
    #[verifier::loop_isolation(false)]
    pub fn validate_fields(&self, schema: &Schema, value: &ValueStore) -> (r: Result<
        (),
        ValidatorError,
    >)
        ensures
            match r {
                Ok(_) => spec_validate_fields(schema@.fields, value@.values) == Ok::<
                    (),
                    SpecVErr,
                >(()),
                Err(e) => spec_validate_fields(schema@.fields, value@.values) == Err::<
                    (),
                    SpecVErr,
                >(e@),
            },
    {
        let n = schema.fields.len();
        let mut i: usize = 0;
        proof {
            crate::fields::lemma_spec_fields_len(schema.fields@);
            assert(schema@.fields.skip(0) =~= schema@.fields);
        }
        while i < n
            invariant
                i <= n,
                spec_validate_fields(schema@.fields, value@.values) == spec_validate_fields(
                    schema@.fields.skip(i as int),
                    value@.values,
                ),
            decreases n - i,
        {
            proof {
                crate::fields::lemma_spec_fields_index(schema.fields@, i as int);
                assert(schema@.fields.skip(i as int).first() == schema@.fields[i as int]);
                assert(schema@.fields.skip(i as int).drop_first() =~= schema@.fields.skip(i + 1));
            }
            let field = &schema.fields[i];
            let field_value = match value.get(field.name()) {
                Some(v) => v,
                None => {
                    return Err(ValidatorError::MissingField(field.name.clone()));
                },
            };
            if field.required() && field_value.is_null() {
                return Err(ValidatorError::RequiredFieldMissing(field.name.clone()));
            }
            if !field_value.is_null() && !field.field_type().is_valid(field_value) {
                return Err(ValidatorError::InvalidType(field.name.clone()));
            }
            i = i + 1;
        }
        proof {
            assert(schema@.fields.skip(n as int) =~= Seq::<SpecField>::empty());
        }
        Ok(())
    }

    /// The nested pass over the store's declared object properties.
    #[verifier::loop_isolation(false)]
    pub fn validate_inner_object(&self, value: &ValueStore) -> (r: Result<(), ValidatorError>)
        ensures
            match r {
                Ok(_) => spec_validate_props(
                    self.registry@,
                    value@.props,
                    value@.props,
                    value@.values,
                ) == Ok::<(), SpecVErr>(()),
                Err(e) => spec_validate_props(
                    self.registry@,
                    value@.props,
                    value@.props,
                    value@.values,
                ) == Err::<(), SpecVErr>(e@),
            },
        decreases sv_entries_size(value@.values), 0nat,
    {
        let props = &value.object_properties_schemas;
        let n = props.len();
        let mut i: usize = 0;
        proof {
            lemma_spec_props_len(props@);
            assert(value@.props.skip(0) =~= value@.props);
        }
        while i < n
            invariant
                i <= n,
                spec_validate_props(self.registry@, value@.props, value@.props, value@.values)
                    == spec_validate_props(
                    self.registry@,
                    value@.props.skip(i as int),
                    value@.props,
                    value@.values,
                ),
            decreases n - i,
        {
            proof {
                lemma_spec_props_index(props@, i as int);
                assert(value@.props.skip(i as int).first() == value@.props[i as int]);
                assert(value@.props.skip(i as int).drop_first() =~= value@.props.skip(i + 1));
            }
            let field_name = &props[i].0;
            let schema_name = &props[i].1;
            match value.get(field_name.as_str()) {
                None => {},
                Some(nested) => {
                    let schema = match self.registry.get_schema(schema_name.as_str()) {
                        Some(s) => s,
                        None => {
                            return Err(ValidatorError::SchemaNotFound(schema_name.clone()));
                        },
                    };
                    let nested_entries = match nested {
                        Value::Object(nes) => clone_entries(nes),
                        _ => {
                            return Err(
                                ValidatorError::ValueStoreError(ValueStoreError::NotAnObject),
                            );
                        },
                    };
                    let temp = ValueStore {
                        schema_name: Some(schema_name.clone()),
                        object_properties_schemas: clone_props(&value.object_properties_schemas),
                        values: nested_entries,
                    };
                    proof {
                        lemma_obj_get_size(value@.values, value@.props[i as int].0);
                    }
                    match self._validate(schema, &temp) {
                        Ok(_) => {},
                        Err(e) => {
                            return Err(e);
                        },
                    }
                },
            }
            i = i + 1;
        }
        proof {
            assert(value@.props.skip(n as int) =~= Seq::<(Seq<char>, Seq<char>)>::empty());
        }
        Ok(())
    }

    /// One schema/store pair: fields, then nested properties.
    pub fn _validate(&self, schema: &Schema, value: &ValueStore) -> (r: Result<
        (),
        ValidatorError,
    >)
        ensures
            match r {
                Ok(_) => spec_validate(
                    self.registry@,
                    schema@.fields,
                    value@.props,
                    value@.values,
                ) == Ok::<(), SpecVErr>(()),
                Err(e) => spec_validate(
                    self.registry@,
                    schema@.fields,
                    value@.props,
                    value@.values,
                ) == Err::<(), SpecVErr>(e@),
            },
        decreases sv_entries_size(value@.values), 1nat,
    {
        self.validate_fields(schema, value)?;
        self.validate_inner_object(value)?;
        Ok(())
    }

    /// Validate a store against the schema it names.
    pub fn validate(&self, value: &ValueStore) -> (r: Result<(), ValidatorError>)
        ensures
            match r {
                Ok(_) => spec_validate_store(self.registry@, value@) == Ok::<(), SpecVErr>(()),
                Err(e) => spec_validate_store(self.registry@, value@) == Err::<(), SpecVErr>(e@),
            },
    {
        let schema_name = match value.schema_name() {
            Some(n) => n.clone(),
            None => {
                return Err(ValidatorError::SchemaIdentifierMissing);
            },
        };
        let schema = match self.registry.get_schema(schema_name.as_str()) {
            Some(s) => s,
            None => {
                return Err(ValidatorError::SchemaNotFound(schema_name));
            },
        };
        self._validate(schema, value)
    }
}

} // verus!
