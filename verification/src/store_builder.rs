//! The fluent builder for stores.  Unlike the store's own upsert, the
//! builder inserts if absent: the first write to a key wins, later
//! writes to the same key are no-ops, so construction is declarative
//! and order-independent.

use vstd::prelude::*;

use crate::value::{
    clone_entries, lemma_obj_get_first, lemma_spec_entries_len,
    lemma_spec_entries_push, spec_entries, spec_items, spec_val, sv_keys_unique, sv_obj_get,
    SpecValue, Value,
};
use crate::value_store::{
    find_entry, find_prop, lemma_spec_props_push, sp_get, spec_opt_name, spec_props, SpecStore,
    ValueStore, ValueStoreError,
};

verus! {

/// Insert-if-absent on a modelled entry list.
pub open spec fn sb_put(
    es: Seq<(Seq<char>, SpecValue)>,
    k: Seq<char>,
    v: SpecValue,
) -> Seq<(Seq<char>, SpecValue)> {
    if sv_obj_get(es, k) is Some {
        es
    } else {
        es.push((k, v))
    }
}

/// Insert-if-absent on a modelled property list.
pub open spec fn sp_put(
    ps: Seq<(Seq<char>, Seq<char>)>,
    k: Seq<char>,
    s: Seq<char>,
) -> Seq<(Seq<char>, Seq<char>)> {
    if sp_get(ps, k) is Some {
        ps
    } else {
        ps.push((k, s))
    }
}

/// Builder state: the same three parts as the finished store.
#[derive(Debug)]
pub struct Builder {
    pub schema_name: Option<String>,
    pub object_properties_schemas: Vec<(String, String)>,
    pub values: Vec<(String, Value)>,
}

impl View for Builder {
    type V = SpecStore;

    open spec fn view(&self) -> SpecStore {
        SpecStore {
            schema_name: spec_opt_name(self.schema_name),
            props: spec_props(self.object_properties_schemas@),
            values: spec_entries(self.values@),
        }
    }
}

impl ValueStore {
    /// Start building a store.
    pub fn builder() -> (r: Builder)
        ensures
            r@.schema_name is None,
            r@.props == Seq::<(Seq<char>, Seq<char>)>::empty(),
            r@.values == Seq::<(Seq<char>, SpecValue)>::empty(),
            sv_keys_unique(r@.values),
    {
        Builder { schema_name: None, object_properties_schemas: Vec::new(), values: Vec::new() }
    }
}

/// Insert-if-absent into an entry list; keeps keys unique.
fn put_if_absent(values: &mut Vec<(String, Value)>, key: &str, value: Value)
    ensures
        spec_entries(final(values)@) == sb_put(spec_entries(old(values)@), key@, spec_val(value)),
        sv_keys_unique(spec_entries(old(values)@)) ==> sv_keys_unique(
            spec_entries(final(values)@),
        ),
{
    match find_entry(values, key) {
        Some(_) => {},
        None => {
            let ghost prev = values@;
            let ghost vv = spec_val(value);
            values.push((key.to_owned(), value));
            proof {
                lemma_spec_entries_push(prev, values@.last());
                lemma_spec_entries_len(prev);
                assert forall|a: int, b: int|
                    0 <= a < b < spec_entries(values@).len() && sv_keys_unique(
                        spec_entries(prev),
                    ) implies (#[trigger] spec_entries(values@)[a]).0 != (#[trigger] spec_entries(
                    values@,
                )[b]).0 by {
                    if b < spec_entries(prev).len() {
                    } else {
                        assert(spec_entries(values@)[b].0 == key@);
                        lemma_obj_get_first(spec_entries(prev), a, spec_entries(prev)[a].0);
                    }
                }
            }
        },
    }
}

/// Insert-if-absent into a property list.
fn put_prop_if_absent(props: &mut Vec<(String, String)>, key: &str, schema: &str)
    ensures
        spec_props(final(props)@) == sp_put(spec_props(old(props)@), key@, schema@),
{
    match find_prop(props, key) {
        Some(_) => {},
        None => {
            let ghost prev = props@;
            props.push((key.to_owned(), schema.to_owned()));
            proof {
                lemma_spec_props_push(prev, props@.last());
            }
        },
    }
}

impl Builder {
    /// First write wins: set the key unless it already has a value.
    pub fn insert(self, key: &str, value: Value) -> (r: Self)
        ensures
            r@.schema_name == self@.schema_name,
            r@.props == self@.props,
            r@.values == sb_put(self@.values, key@, spec_val(value)),
            sv_keys_unique(self@.values) ==> sv_keys_unique(r@.values),
    {
        let mut b = self;
        put_if_absent(&mut b.values, key, value);
        b
    }

    /// Tag the store with a schema name.
    pub fn with_schema(self, schema: &str) -> (r: Self)
        ensures
            r@.schema_name == Some(schema@),
            r@.props == self@.props,
            r@.values == self@.values,
    {
        Builder { schema_name: Some(schema.to_owned()), ..self }
    }

    /// Set a string value unless the key is taken.
    pub fn string(self, key: &str, value: &str) -> (r: Self)
        ensures
            r@.schema_name == self@.schema_name,
            r@.props == self@.props,
            r@.values == sb_put(self@.values, key@, SpecValue::String(value@)),
            sv_keys_unique(self@.values) ==> sv_keys_unique(r@.values),
    {
        self.insert(key, Value::String(value.to_owned()))
    }

    /// Set a boolean value unless the key is taken.
    pub fn bool(self, key: &str, value: bool) -> (r: Self)
        ensures
            r@.schema_name == self@.schema_name,
            r@.props == self@.props,
            r@.values == sb_put(self@.values, key@, SpecValue::Boolean(value)),
            sv_keys_unique(self@.values) ==> sv_keys_unique(r@.values),
    {
        self.insert(key, Value::Boolean(value))
    }

    /// Set an explicit null unless the key is taken.
    pub fn null(self, key: &str) -> (r: Self)
        ensures
            r@.schema_name == self@.schema_name,
            r@.props == self@.props,
            r@.values == sb_put(self@.values, key@, SpecValue::Null),
            sv_keys_unique(self@.values) ==> sv_keys_unique(r@.values),
    {
        self.insert(key, Value::Null)
    }

    /// Set a number value unless the key is taken.
    pub fn number(self, key: &str, value: u64) -> (r: Self)
        ensures
            r@.schema_name == self@.schema_name,
            r@.props == self@.props,
            r@.values == sb_put(self@.values, key@, SpecValue::Number(value)),
            sv_keys_unique(self@.values) ==> sv_keys_unique(r@.values),
    {
        self.insert(key, Value::Number(value))
    }

    /// Set an array value unless the key is taken; optionally declare
    /// a nested schema for the key.
    pub fn array(self, key: &str, value: Vec<Value>, schema: Option<&str>) -> (r: Self)
        ensures
            r@.schema_name == self@.schema_name,
            r@.values == sb_put(self@.values, key@, SpecValue::Array(spec_items(value@))),
            r@.props == (match schema {
                Some(s) => sp_put(self@.props, key@, s@),
                None => self@.props,
            }),
            sv_keys_unique(self@.values) ==> sv_keys_unique(r@.values),
    {
        let mut b = self;
        put_if_absent(&mut b.values, key, Value::Array(value));
        if let Some(s) = schema {
            put_prop_if_absent(&mut b.object_properties_schemas, key, s);
        }
        b
    }

    /// Set an object (or any) value unless the key is taken;
    /// optionally declare a nested schema for the key.
    pub fn object(self, key: &str, value: Value, schema: Option<&str>) -> (r: Self)
        ensures
            r@.schema_name == self@.schema_name,
            r@.values == sb_put(self@.values, key@, spec_val(value)),
            r@.props == (match schema {
                Some(s) => sp_put(self@.props, key@, s@),
                None => self@.props,
            }),
            sv_keys_unique(self@.values) ==> sv_keys_unique(r@.values),
    {
        let mut b = self;
        put_if_absent(&mut b.values, key, value);
        if let Some(s) = schema {
            put_prop_if_absent(&mut b.object_properties_schemas, key, s);
        }
        b
    }

    /// Replace the whole entry bag.
    pub fn with_values(self, values: Vec<(String, Value)>) -> (r: Self)
        ensures
            r@.schema_name == self@.schema_name,
            r@.props == self@.props,
            r@.values == spec_entries(values@),
    {
        Builder { values, ..self }
    }

    /// Replace the whole entry bag from an object value; anything else
    /// is rejected.
    pub fn with_value(self, value: &Value) -> (r: Result<Self, ValueStoreError>)
        ensures
            match r {
                Ok(b) => value@ matches SpecValue::Object(es) && b@ == (SpecStore {
                    values: es,
                    ..self@
                }),
                Err(e) => !(value@ is Object) && e == ValueStoreError::NotAnObject,
            },
    {
        match value {
            Value::Object(es) => Ok(Builder { values: clone_entries(es), ..self }),
            _ => Err(ValueStoreError::NotAnObject),
        }
    }

    /// Replace the declared nested-schema pairs.
    pub fn with_object_properties_schemas(self, object_properties_schemas: Vec<(String, String)>)
        -> (r: Self)
        ensures
            r@.schema_name == self@.schema_name,
            r@.props == spec_props(object_properties_schemas@),
            r@.values == self@.values,
    {
        Builder { object_properties_schemas, ..self }
    }

    /// Finalize: the store holds exactly what was built.
    pub fn build(self) -> (r: ValueStore)
        ensures
            r@ == self@,
            sv_keys_unique(self@.values) ==> r.wf(),
    {
        ValueStore {
            schema_name: self.schema_name,
            object_properties_schemas: self.object_properties_schemas,
            values: self.values,
        }
    }
}

} // verus!
