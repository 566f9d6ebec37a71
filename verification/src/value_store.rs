//! A named, schema-tagged bag of key/value pairs with declared
//! sub-schemas for its object-typed properties.  Keys are unique; a
//! store's insert is an unconditional upsert, unlike the builder's
//! insert-if-absent.

use vstd::prelude::*;

use crate::value::{
    clone_entries, lemma_obj_get_after_push, lemma_obj_get_after_remove,
    lemma_obj_get_after_update, lemma_obj_get_first, lemma_obj_get_none,
    lemma_obj_get_removed_absent, lemma_entries_remove_commutes, lemma_entries_update_commutes,
    lemma_spec_entries_index, lemma_spec_entries_len, lemma_spec_entries_push, spec_entries,
    spec_val, str_eq, sv_keys_unique, sv_obj_get, SpecValue, Value,
};

verus! {

/// Errors of value narrowing and of conversions into a store.
#[derive(Debug, Clone, Copy, PartialEq, Eq, Structural)]
pub enum ValueStoreError {
    NotAnObject,
    NotAString,
    NotANumber,
    NotABool,
    NotAnArray,
    NotANull,
    CannotConvertFromValue,
    NumberOutOfRange,
}

/// Model of a store: its schema tag, its nested-schema declarations
/// and its key/value entries.
pub struct SpecStore {
    pub schema_name: Option<Seq<char>>,
    pub props: Seq<(Seq<char>, Seq<char>)>,
    pub values: Seq<(Seq<char>, SpecValue)>,
}

/// Model of an optional name.
pub open spec fn spec_opt_name(o: Option<String>) -> Option<Seq<char>> {
    match o {
        Some(s) => Some(s@),
        None => None,
    }
}

/// Model of a property/schema-name list, pair by pair.
pub open spec fn spec_props(ps: Seq<(String, String)>) -> Seq<(Seq<char>, Seq<char>)>
    decreases ps,
{
    if ps.len() == 0 {
        Seq::empty()
    } else {
        spec_props(ps.drop_last()).push((ps.last().0@, ps.last().1@))
    }
}

/// The model of a property list has the list's length.
pub proof fn lemma_spec_props_len(ps: Seq<(String, String)>)
    ensures
        spec_props(ps).len() == ps.len(),
    decreases ps.len(),
{
    if ps.len() > 0 {
        lemma_spec_props_len(ps.drop_last());
    }
}

/// The model of a property list indexes pointwise.
pub proof fn lemma_spec_props_index(ps: Seq<(String, String)>, i: int)
    requires
        0 <= i < ps.len(),
    ensures
        spec_props(ps).len() == ps.len(),
        spec_props(ps)[i] == (ps[i].0@, ps[i].1@),
    decreases ps.len(),
{
    lemma_spec_props_len(ps);
    lemma_spec_props_len(ps.drop_last());
    if i < ps.len() - 1 {
        assert(ps.drop_last()[i] == ps[i]);
        lemma_spec_props_index(ps.drop_last(), i);
    }
}

/// Appending a pair extends the model of a property list.
pub proof fn lemma_spec_props_push(ps: Seq<(String, String)>, p: (String, String))
    ensures
        spec_props(ps.push(p)) == spec_props(ps).push((p.0@, p.1@)),
{
    assert(ps.push(p).drop_last() =~= ps);
}

/// Lookup of a declared schema name for a property key: first match.
pub open spec fn sp_get(ps: Seq<(Seq<char>, Seq<char>)>, k: Seq<char>) -> Option<Seq<char>>
    decreases ps,
{
    if ps.len() == 0 {
        None
    } else if ps.first().0 == k {
        Some(ps.first().1)
    } else {
        sp_get(ps.drop_first(), k)
    }
}

/// A first-match witness pins down a property lookup.
pub proof fn lemma_sp_get_first(ps: Seq<(Seq<char>, Seq<char>)>, i: int, k: Seq<char>)
    requires
        0 <= i < ps.len(),
        ps[i].0 == k,
        forall|j: int| 0 <= j < i ==> (#[trigger] ps[j]).0 != k,
    ensures
        sp_get(ps, k) == Some(ps[i].1),
    decreases i,
{
    if i > 0 {
        assert(ps.drop_first()[i - 1] == ps[i]);
        assert(forall|j: int| 0 <= j < i - 1 ==> (#[trigger] ps.drop_first()[j]).0 != k);
        lemma_sp_get_first(ps.drop_first(), i - 1, k);
    }
}

/// If no pair has the key, the property lookup is absent.
pub proof fn lemma_sp_get_none(ps: Seq<(Seq<char>, Seq<char>)>, k: Seq<char>)
    requires
        forall|j: int| 0 <= j < ps.len() ==> (#[trigger] ps[j]).0 != k,
    ensures
        sp_get(ps, k) is None,
    decreases ps.len(),
{
    if ps.len() > 0 {
        assert(forall|j: int| 0 <= j < ps.len() - 1 ==> (#[trigger] ps.drop_first()[j]).0 != k);
        lemma_sp_get_none(ps.drop_first(), k);
    }
}

/// Find the first entry with a given key; the scan's result fixes the
/// modelled lookup.
pub fn find_entry(values: &Vec<(String, Value)>, key: &str) -> (r: Option<usize>)
    ensures
        match r {
            Some(i) => i < values@.len() && spec_entries(values@)[i as int].0 == key@ && (forall|
                j: int,
            |
                0 <= j < i ==> (#[trigger] spec_entries(values@)[j]).0 != key@) && sv_obj_get(
                spec_entries(values@),
                key@,
            ) == Some(spec_entries(values@)[i as int].1),
            None => sv_obj_get(spec_entries(values@), key@) is None,
        },
{
    let n = values.len();
    let mut i: usize = 0;
    proof {
        lemma_spec_entries_len(values@);
    }
    while i < n
        invariant
            i <= n,
            n == values@.len(),
            spec_entries(values@).len() == n,
            forall|j: int| 0 <= j < i ==> (#[trigger] spec_entries(values@)[j]).0 != key@,
        decreases n - i,
    {
        proof {
            lemma_spec_entries_index(values@, i as int);
        }
        if str_eq(values[i].0.as_str(), key) {
            proof {
                lemma_obj_get_first(spec_entries(values@), i as int, key@);
            }
            return Some(i);
        }
        i = i + 1;
    }
    proof {
        lemma_obj_get_none(spec_entries(values@), key@);
    }
    None
}

/// Find the first declared property with a given key.
pub fn find_prop(props: &Vec<(String, String)>, key: &str) -> (r: Option<usize>)
    ensures
        match r {
            Some(i) => i < props@.len() && spec_props(props@)[i as int].0 == key@ && sp_get(
                spec_props(props@),
                key@,
            ) == Some(spec_props(props@)[i as int].1),
            None => sp_get(spec_props(props@), key@) is None,
        },
{
    let n = props.len();
    let mut i: usize = 0;
    proof {
        lemma_spec_props_len(props@);
    }
    while i < n
        invariant
            i <= n,
            n == props@.len(),
            spec_props(props@).len() == n,
            forall|j: int| 0 <= j < i ==> (#[trigger] spec_props(props@)[j]).0 != key@,
        decreases n - i,
    {
        proof {
            lemma_spec_props_index(props@, i as int);
        }
        if str_eq(props[i].0.as_str(), key) {
            proof {
                lemma_sp_get_first(spec_props(props@), i as int, key@);
            }
            return Some(i);
        }
        i = i + 1;
    }
    proof {
        lemma_sp_get_none(spec_props(props@), key@);
    }
    None
}

/// Copy a property list.
pub fn clone_props(props: &Vec<(String, String)>) -> (r: Vec<(String, String)>)
    ensures
        spec_props(r@) == spec_props(props@),
        r@.len() == props@.len(),
{
    let mut out: Vec<(String, String)> = Vec::new();
    let n = props.len();
    let mut i: usize = 0;
    while i < n
        invariant
            i <= n,
            n == props@.len(),
            spec_props(out@) == spec_props(props@.subrange(0, i as int)),
            out@.len() == i,
        decreases n - i,
    {
        let k = props[i].0.clone();
        let v = props[i].1.clone();
        let ghost prev = out@;
        out.push((k, v));
        proof {
            lemma_spec_props_push(prev, (k, v));
            assert(props@.subrange(0, i + 1) =~= props@.subrange(0, i as int).push(
                props@[i as int],
            ));
            lemma_spec_props_push(props@.subrange(0, i as int), props@[i as int]);
        }
        i = i + 1;
    }
    proof {
        assert(props@.subrange(0, props@.len() as int) =~= props@);
    }
    out
}

/// The schema handle a store exposes for validation: its own schema
/// name and the declared nested-schema pairs.
pub struct SchemaDescriptor {
    pub main: String,
    pub properties: Vec<(String, String)>,
}

impl SchemaDescriptor {
    /// The name of the schema validating the store itself.
    pub fn main(&self) -> (r: &str)
        ensures
            r@ == self.main@,
    {
        self.main.as_str()
    }

    /// The declared property-key/schema-name pairs.
    pub fn properties(&self) -> (r: &Vec<(String, String)>)
        ensures
            r@ == self.properties@,
    {
        &self.properties
    }
}

/// A named, schema-tagged bag of key/value pairs.
#[derive(Debug)]
pub struct ValueStore {
    pub schema_name: Option<String>,
    pub object_properties_schemas: Vec<(String, String)>,
    pub values: Vec<(String, Value)>,
}

impl View for ValueStore {
    type V = SpecStore;

    open spec fn view(&self) -> SpecStore {
        SpecStore {
            schema_name: spec_opt_name(self.schema_name),
            props: spec_props(self.object_properties_schemas@),
            values: spec_entries(self.values@),
        }
    }
}

impl ValueStore {
    /// Keys of the entries are pairwise distinct.
    pub open spec fn wf(&self) -> bool {
        sv_keys_unique(self@.values)
    }

    /// An empty store, optionally already tagged with a schema name.
    pub fn new(schema_name: Option<String>) -> (r: Self)
        ensures
            r@.schema_name == spec_opt_name(schema_name),
            r@.props == Seq::<(Seq<char>, Seq<char>)>::empty(),
            r@.values == Seq::<(Seq<char>, SpecValue)>::empty(),
            r.wf(),
    {
        ValueStore { schema_name, object_properties_schemas: Vec::new(), values: Vec::new() }
    }

    /// Replace the declared nested-schema pairs.
    pub fn with_object_properties_schemas(self, object_properties_schemas: Vec<(String, String)>)
        -> (r: Self)
        ensures
            r@.schema_name == self@.schema_name,
            r@.props == spec_props(object_properties_schemas@),
            r@.values == self@.values,
            self.wf() ==> r.wf(),
    {
        ValueStore { object_properties_schemas, ..self }
    }

    /// The store's schema tag.
    pub fn schema_name(&self) -> (r: &Option<String>)
        ensures
            spec_opt_name(*r) == self@.schema_name,
    {
        &self.schema_name
    }

    /// The declared nested-schema pairs.
    pub fn object_properties_schemas(&self) -> (r: &Vec<(String, String)>)
        ensures
            spec_props(r@) == self@.props,
    {
        &self.object_properties_schemas
    }

    /// The schema handle for validation; absent without a schema tag.
    pub fn schema_descriptor(&self) -> (r: Option<SchemaDescriptor>)
        ensures
            match r {
                Some(d) => self@.schema_name == Some(d.main@) && spec_props(d.properties@)
                    == self@.props,
                None => self@.schema_name is None,
            },
    {
        match &self.schema_name {
            Some(n) => Some(
                SchemaDescriptor {
                    main: n.clone(),
                    properties: clone_props(&self.object_properties_schemas),
                },
            ),
            None => None,
        }
    }

    /// The whole entry bag as one object value.
    pub fn as_value(&self) -> (r: Value)
        ensures
            r@ == SpecValue::Object(self@.values),
    {
        Value::Object(clone_entries(&self.values))
    }

    /// All entries, in insertion order.
    pub fn get_all(&self) -> (r: &Vec<(String, Value)>)
        ensures
            spec_entries(r@) == self@.values,
    {
        &self.values
    }

    /// The value stored under a key.
    pub fn get(&self, key: &str) -> (r: Option<&Value>)
        ensures
            match r {
                Some(v) => sv_obj_get(self@.values, key@) == Some(v@),
                None => sv_obj_get(self@.values, key@) is None,
            },
    {
        match find_entry(&self.values, key) {
            Some(i) => {
                proof {
                    lemma_spec_entries_index(self.values@, i as int);
                }
                Some(&self.values[i].1)
            },
            None => None,
        }
    }

    /// Unconditional upsert: the key now maps to the value; every
    /// other key is untouched.
    pub fn insert(&mut self, key: String, value: Value)
        ensures
            final(self)@.schema_name == old(self)@.schema_name,
            final(self)@.props == old(self)@.props,
            sv_obj_get(final(self)@.values, key@) == Some(spec_val(value)),
            forall|k2: Seq<char>| k2 != key@ ==> sv_obj_get(final(self)@.values, k2)
                == sv_obj_get(old(self)@.values, k2),
            old(self).wf() ==> final(self).wf(),
            sv_obj_get(old(self)@.values, key@) is None ==> final(self)@.values == old(
                self,
            )@.values.push((key@, spec_val(value))),
    {
        let ghost vv = spec_val(value);
        match find_entry(&self.values, &key) {
            Some(i) => {
                let ghost prev = self.values@;
                proof {
                    lemma_spec_entries_index(prev, i as int);
                }
                self.values[i] = (key, value);
                proof {
                    let ghost kk = self.values@[i as int].0@;
                    lemma_entries_update_commutes(prev, i as int, self.values@[i as int]);
                    lemma_obj_get_after_update(spec_entries(prev), i as int, kk, vv);
                    assert forall|a: int, b: int|
                        0 <= a < b < spec_entries(self.values@).len() && sv_keys_unique(
                            spec_entries(prev),
                        ) implies (#[trigger] spec_entries(self.values@)[a]).0 != (
                    #[trigger] spec_entries(self.values@)[b]).0 by {
                        assert(spec_entries(self.values@)[a].0 == spec_entries(prev)[a].0);
                        assert(spec_entries(self.values@)[b].0 == spec_entries(prev)[b].0);
                    }
                }
            },
            None => {
                let ghost prev = self.values@;
                let ghost kk = key@;
                self.values.push((key, value));
                proof {
                    lemma_spec_entries_push(prev, self.values@.last());
                    lemma_obj_get_after_push(spec_entries(prev), kk, vv);
                    lemma_spec_entries_len(prev);
                    assert forall|a: int, b: int|
                        0 <= a < b < spec_entries(self.values@).len() && sv_keys_unique(
                            spec_entries(prev),
                        ) implies (#[trigger] spec_entries(self.values@)[a]).0 != (
                    #[trigger] spec_entries(self.values@)[b]).0 by {
                        if b < spec_entries(prev).len() {
                        } else {
                            assert(spec_entries(self.values@)[b].0 == kk);
                            lemma_obj_get_first(spec_entries(prev), a, spec_entries(prev)[a].0);
                        }
                    }
                }
            },
        }
    }

    /// Remove the entry stored under a key, if any.
    pub fn remove(&mut self, key: &str)
        ensures
            final(self)@.schema_name == old(self)@.schema_name,
            final(self)@.props == old(self)@.props,
            forall|k2: Seq<char>| k2 != key@ ==> sv_obj_get(final(self)@.values, k2)
                == sv_obj_get(old(self)@.values, k2),
            old(self).wf() ==> final(self).wf() && sv_obj_get(final(self)@.values, key@) is None,
            sv_obj_get(old(self)@.values, key@) is None ==> final(self)@.values == old(
                self,
            )@.values,
    {
        match find_entry(&self.values, key) {
            Some(i) => {
                let ghost prev = self.values@;
                self.values.remove(i);
                proof {
                    lemma_spec_entries_len(prev);
                    lemma_entries_remove_commutes(prev, i as int);
                    lemma_obj_get_after_remove(spec_entries(prev), i as int, key@);
                    if sv_keys_unique(spec_entries(prev)) {
                        lemma_obj_get_removed_absent(spec_entries(prev), i as int, key@);
                        assert forall|a: int, b: int|
                            0 <= a < b < spec_entries(self.values@).len() implies (
                        #[trigger] spec_entries(self.values@)[a]).0 != (#[trigger] spec_entries(
                            self.values@,
                        )[b]).0 by {
                            assert(spec_entries(self.values@) == spec_entries(prev).remove(
                                i as int,
                            ));
                            if a < i {
                                assert(spec_entries(self.values@)[a] == spec_entries(prev)[a]);
                            } else {
                                assert(spec_entries(self.values@)[a] == spec_entries(prev)[a + 1]);
                            }
                            if b < i {
                                assert(spec_entries(self.values@)[b] == spec_entries(prev)[b]);
                            } else {
                                assert(spec_entries(self.values@)[b] == spec_entries(prev)[b + 1]);
                            }
                        }
                    }
                }
            },
            None => {},
        }
    }

    /// Fluent upsert of a string value.
    pub fn string(self, key: &str, value: String) -> (r: Self)
        ensures
            r@.schema_name == self@.schema_name,
            r@.props == self@.props,
            sv_obj_get(r@.values, key@) == Some(SpecValue::String(value@)),
            forall|k2: Seq<char>| k2 != key@ ==> sv_obj_get(r@.values, k2) == sv_obj_get(
                self@.values,
                k2,
            ),
            self.wf() ==> r.wf(),
    {
        let mut s = self;
        s.insert(key.to_owned(), Value::String(value));
        s
    }

    /// Fluent upsert of a number value.
    pub fn number(self, key: &str, value: u64) -> (r: Self)
        ensures
            r@.schema_name == self@.schema_name,
            r@.props == self@.props,
            sv_obj_get(r@.values, key@) == Some(SpecValue::Number(value)),
            forall|k2: Seq<char>| k2 != key@ ==> sv_obj_get(r@.values, k2) == sv_obj_get(
                self@.values,
                k2,
            ),
            self.wf() ==> r.wf(),
    {
        let mut s = self;
        s.insert(key.to_owned(), Value::Number(value));
        s
    }

    /// Fluent upsert of an arbitrary value.
    pub fn object(self, key: &str, value: Value) -> (r: Self)
        ensures
            r@.schema_name == self@.schema_name,
            r@.props == self@.props,
            sv_obj_get(r@.values, key@) == Some(spec_val(value)),
            forall|k2: Seq<char>| k2 != key@ ==> sv_obj_get(r@.values, k2) == sv_obj_get(
                self@.values,
                k2,
            ),
            self.wf() ==> r.wf(),
    {
        let mut s = self;
        s.insert(key.to_owned(), value);
        s
    }

    /// Fluent upsert of an array value.
    pub fn array(self, key: &str, value: Vec<Value>) -> (r: Self)
        ensures
            r@.schema_name == self@.schema_name,
            r@.props == self@.props,
            sv_obj_get(r@.values, key@) == Some(SpecValue::Array(crate::value::spec_items(
                value@,
            ))),
            forall|k2: Seq<char>| k2 != key@ ==> sv_obj_get(r@.values, k2) == sv_obj_get(
                self@.values,
                k2,
            ),
            self.wf() ==> r.wf(),
    {
        let mut s = self;
        s.insert(key.to_owned(), Value::Array(value));
        s
    }
}

// ---------------------------------------------------------------------
// Serialized form: the store as one object value, rendered to text
// ---------------------------------------------------------------------
/// The key under which the schema tag is serialized.
pub open spec fn key_schema_name() -> Seq<char> {
    seq!['s', 'c', 'h', 'e', 'm', 'a', '_', 'n', 'a', 'm', 'e']
}

/// The key under which the nested-schema pairs are serialized.
pub open spec fn key_props() -> Seq<char> {
    seq![
        'o',
        'b',
        'j',
        'e',
        'c',
        't',
        '_',
        'p',
        'r',
        'o',
        'p',
        'e',
        'r',
        't',
        'i',
        'e',
        's',
        '_',
        's',
        'c',
        'h',
        'e',
        'm',
        'a',
        's',
    ]
}

/// The key under which the entry bag is serialized.
pub open spec fn key_values() -> Seq<char> {
    seq!['v', 'a', 'l', 'u', 'e', 's']
}

/// The property pairs as string-valued object entries.
pub open spec fn props_as_entries(ps: Seq<(Seq<char>, Seq<char>)>) -> Seq<(Seq<char>, SpecValue)>
    decreases ps,
{
    if ps.len() == 0 {
        Seq::empty()
    } else {
        props_as_entries(ps.drop_last()).push((ps.last().0, SpecValue::String(ps.last().1)))
    }
}

/// Property pairs read back from object entries; a non-string value
/// stands for an empty schema name.
pub open spec fn props_from_entries(es: Seq<(Seq<char>, SpecValue)>) -> Seq<(Seq<char>, Seq<char>)>
    decreases es,
{
    if es.len() == 0 {
        Seq::empty()
    } else {
        props_from_entries(es.drop_last()).push(
            (
                es.last().0,
                match es.last().1 {
                    SpecValue::String(s) => s,
                    _ => Seq::empty(),
                },
            ),
        )
    }
}

/// The whole store as one object value: its schema tag, its declared
/// nested schemas and its entries, under three fixed keys.
pub open spec fn store_repr(s: SpecStore) -> SpecValue {
    SpecValue::Object(
        seq![
            (
                key_schema_name(),
                match s.schema_name {
                    Some(n) => SpecValue::String(n),
                    None => SpecValue::Null,
                },
            ),
            (key_props(), SpecValue::Object(props_as_entries(s.props))),
            (key_values(), SpecValue::Object(s.values)),
        ],
    )
}

/// Reading a store out of a generic value: the value must be an
/// object holding a `values` object; the schema tag and the declared
/// nested schemas are optional.
pub open spec fn spec_store_of_value(v: SpecValue) -> Result<SpecStore, ValueStoreError> {
    match v {
        SpecValue::Object(es) => match sv_obj_get(es, key_values()) {
            Some(SpecValue::Object(vals)) => Ok(
                SpecStore {
                    schema_name: match sv_obj_get(es, key_schema_name()) {
                        Some(SpecValue::String(n)) => Some(n),
                        _ => None,
                    },
                    props: match sv_obj_get(es, key_props()) {
                        Some(SpecValue::Object(pes)) => props_from_entries(pes),
                        _ => Seq::empty(),
                    },
                    values: vals,
                },
            ),
            _ => Err(ValueStoreError::CannotConvertFromValue),
        },
        _ => Err(ValueStoreError::NotAnObject),
    }
}

/// The property pairs as an object value.
fn props_to_value(props: &Vec<(String, String)>) -> (r: Value)
    ensures
        r@ == SpecValue::Object(props_as_entries(spec_props(props@))),
{
    let mut out: Vec<(String, Value)> = Vec::new();
    let n = props.len();
    let mut i: usize = 0;
    proof {
        lemma_spec_props_len(props@);
    }
    while i < n
        invariant
            i <= n,
            n == props@.len(),
            spec_entries(out@) == props_as_entries(spec_props(props@.subrange(0, i as int))),
        decreases n - i,
    {
        let k = props[i].0.clone();
        let v = props[i].1.clone();
        let ghost prev = out@;
        out.push((k, Value::String(v)));
        proof {
            lemma_spec_entries_push(prev, out@.last());
            assert(props@.subrange(0, i + 1) =~= props@.subrange(0, i as int).push(
                props@[i as int],
            ));
            lemma_spec_props_push(props@.subrange(0, i as int), props@[i as int]);
            assert(spec_props(props@.subrange(0, i + 1)).drop_last() =~= spec_props(
                props@.subrange(0, i as int),
            ));
        }
        i = i + 1;
    }
    proof {
        assert(props@.subrange(0, props@.len() as int) =~= props@);
    }
    Value::Object(out)
}

/// Property pairs read back from an object's entries.
fn props_of_entries(pes: &Vec<(String, Value)>) -> (r: Vec<(String, String)>)
    ensures
        spec_props(r@) == props_from_entries(spec_entries(pes@)),
{
    let mut out: Vec<(String, String)> = Vec::new();
    let n = pes.len();
    let mut i: usize = 0;
    while i < n
        invariant
            i <= n,
            n == pes@.len(),
            spec_props(out@) == props_from_entries(spec_entries(pes@.subrange(0, i as int))),
        decreases n - i,
    {
        let k = pes[i].0.clone();
        let s = match &pes[i].1 {
            Value::String(s) => s.clone(),
            _ => String::new(),
        };
        let ghost prev = out@;
        out.push((k, s));
        proof {
            lemma_spec_props_push(prev, out@.last());
            assert(pes@.subrange(0, i + 1) =~= pes@.subrange(0, i as int).push(pes@[i as int]));
            lemma_spec_entries_push(pes@.subrange(0, i as int), pes@[i as int]);
            assert(spec_entries(pes@.subrange(0, i + 1)).drop_last() =~= spec_entries(
                pes@.subrange(0, i as int),
            ));
        }
        i = i + 1;
    }
    proof {
        assert(pes@.subrange(0, pes@.len() as int) =~= pes@);
    }
    out
}

impl ValueStore {
    /// The store as one object value under the three fixed keys.
    pub fn repr_value(&self) -> (r: Value)
        ensures
            r@ == store_repr(self@),
    {
        proof {
            reveal_strlit("schema_name");
            reveal_strlit("object_properties_schemas");
            reveal_strlit("values");
            assert(("schema_name")@ =~= key_schema_name());
            assert(("object_properties_schemas")@ =~= key_props());
            assert(("values")@ =~= key_values());
        }
        let mut entries: Vec<(String, Value)> = Vec::new();
        let sn = match &self.schema_name {
            Some(n) => Value::String(n.clone()),
            None => Value::Null,
        };
        entries.push(("schema_name".to_owned(), sn));
        entries.push(
            ("object_properties_schemas".to_owned(), props_to_value(
                &self.object_properties_schemas,
            )),
        );
        entries.push(("values".to_owned(), Value::Object(clone_entries(&self.values))));
        proof {
            let target = (match store_repr(self@) {
                SpecValue::Object(es) => es,
                _ => Seq::empty(),
            });
            assert(spec_entries(entries@) =~= target) by {
                assert(entries@.len() == 3);
                lemma_spec_entries_index(entries@, 0);
                lemma_spec_entries_index(entries@, 1);
                lemma_spec_entries_index(entries@, 2);
            }
        }
        Value::Object(entries)
    }

    /// Render the whole store, schema metadata included, to text.
    pub fn to_text(&self) -> (r: String)
        ensures
            r@ == crate::codec::render_value(store_repr(self@)),
    {
        let v = self.repr_value();
        crate::codec::value_to_text(&v)
    }

    /// Read a store out of a generic value.
    pub fn try_from_value(value: &Value) -> (r: Result<ValueStore, ValueStoreError>)
        ensures
            match r {
                Ok(vs) => spec_store_of_value(value@) == Ok::<SpecStore, ValueStoreError>(vs@),
                Err(e) => spec_store_of_value(value@) == Err::<SpecStore, _>(e),
            },
    {
        proof {
            reveal_strlit("schema_name");
            reveal_strlit("object_properties_schemas");
            reveal_strlit("values");
            assert(("schema_name")@ =~= key_schema_name());
            assert(("object_properties_schemas")@ =~= key_props());
            assert(("values")@ =~= key_values());
        }
        match value {
            Value::Object(es) => {
                let vals = match find_entry(es, "values") {
                    Some(i) => {
                        proof {
                            lemma_spec_entries_index(es@, i as int);
                        }
                        match &es[i].1 {
                            Value::Object(ves) => clone_entries(ves),
                            _ => {
                                return Err(ValueStoreError::CannotConvertFromValue);
                            },
                        }
                    },
                    None => {
                        return Err(ValueStoreError::CannotConvertFromValue);
                    },
                };
                let schema_name = match find_entry(es, "schema_name") {
                    Some(i) => {
                        proof {
                            lemma_spec_entries_index(es@, i as int);
                        }
                        match &es[i].1 {
                            Value::String(s) => Some(s.clone()),
                            _ => None,
                        }
                    },
                    None => None,
                };
                let props = match find_entry(es, "object_properties_schemas") {
                    Some(i) => {
                        proof {
                            lemma_spec_entries_index(es@, i as int);
                        }
                        match &es[i].1 {
                            Value::Object(pes) => props_of_entries(pes),
                            _ => Vec::new(),
                        }
                    },
                    None => Vec::new(),
                };
                Ok(ValueStore { schema_name, object_properties_schemas: props, values: vals })
            },
            _ => Err(ValueStoreError::NotAnObject),
        }
    }

    /// Parse a rendered store back from text.
    pub fn from_text(s: &str) -> (r: Result<ValueStore, ValueStoreError>)
        ensures
            match r {
                Ok(vs) => (crate::codec::parse_text(s@) matches Some(v) && spec_store_of_value(v)
                    == Ok::<SpecStore, ValueStoreError>(vs@)),
                Err(e) => (crate::codec::parse_text(s@) is None && e
                    == ValueStoreError::NotAnObject) || (crate::codec::parse_text(s@)
                    matches Some(v) && spec_store_of_value(v) == Err::<SpecStore, _>(e)),
            },
    {
        match crate::codec::value_from_text(s) {
            Some(v) => Self::try_from_value(&v),
            None => Err(ValueStoreError::NotAnObject),
        }
    }

    /// A store carrying just the entries of an object value.
    pub fn from_value_shallow(value: &Value) -> (r: Result<ValueStore, ValueStoreError>)
        ensures
            match r {
                Ok(vs) => value@ matches SpecValue::Object(es) && vs@ == (SpecStore {
                    schema_name: None,
                    props: Seq::empty(),
                    values: es,
                }),
                Err(e) => !(value@ is Object) && e == ValueStoreError::NotAnObject,
            },
    {
        match value {
            Value::Object(es) => Ok(
                ValueStore {
                    schema_name: None,
                    object_properties_schemas: Vec::new(),
                    values: clone_entries(es),
                },
            ),
            _ => Err(ValueStoreError::NotAnObject),
        }
    }

    /// A store over an object value's entries, with the given schema
    /// tag and nested-schema pairs.
    pub fn from_object_value(
        schema_name: Option<String>,
        value: &Value,
        object_properties_schemas: Vec<(String, String)>,
    ) -> (r: Result<ValueStore, ValueStoreError>)
        ensures
            match r {
                Ok(vs) => value@ matches SpecValue::Object(es) && vs@ == (SpecStore {
                    schema_name: spec_opt_name(schema_name),
                    props: spec_props(object_properties_schemas@),
                    values: es,
                }),
                Err(e) => !(value@ is Object) && e == ValueStoreError::NotAnObject,
            },
    {
        let vs = Self::from_value_shallow(value)?;
        Ok(ValueStore { schema_name, object_properties_schemas, ..vs })
    }
}

/// Reading property pairs back from their serialized entries is the
/// identity.
proof fn lemma_props_inverse(ps: Seq<(Seq<char>, Seq<char>)>)
    ensures
        props_from_entries(props_as_entries(ps)) == ps,
    decreases ps.len(),
{
    if ps.len() > 0 {
        lemma_props_inverse(ps.drop_last());
        assert(props_as_entries(ps).drop_last() =~= props_as_entries(ps.drop_last()));
        assert(props_from_entries(props_as_entries(ps)) =~= ps);
    }
}

/// Law: a store's serialized form parses back to exactly the store.
/// Rendering `store_repr` to text, parsing the text, and reading the
/// store out of the parsed value loses nothing.
pub proof fn lemma_store_text_roundtrip(s: SpecStore)
    ensures
        crate::codec::parse_text(crate::codec::render_value(store_repr(s))) == Some(
            store_repr(s),
        ),
        spec_store_of_value(store_repr(s)) == Ok::<SpecStore, ValueStoreError>(s),
{
    crate::codec::lemma_value_text_roundtrip(store_repr(s));
    let es = (match store_repr(s) {
        SpecValue::Object(es) => es,
        _ => Seq::empty(),
    });
    assert(key_schema_name().len() == 11);
    assert(key_props().len() == 25);
    assert(key_values().len() == 6);
    assert(es.len() == 3);
    assert(es[0].0 == key_schema_name());
    assert(es[1].0 == key_props());
    assert(es[2].0 == key_values());
    assert(es.first() == es[0]);
    assert(es.drop_first().first() == es[1]);
    assert(es.drop_first().drop_first().first() == es[2]);
    assert(key_schema_name() != key_values() && key_props() != key_values());
    assert(key_schema_name() != key_props());
    assert(sv_obj_get(es.drop_first().drop_first(), key_values()) == Some(es[2].1));
    assert(sv_obj_get(es.drop_first(), key_values()) == sv_obj_get(
        es.drop_first().drop_first(),
        key_values(),
    ));
    assert(sv_obj_get(es, key_values()) == Some(es[2].1));
    assert(sv_obj_get(es, key_schema_name()) == Some(es[0].1));
    assert(sv_obj_get(es.drop_first(), key_props()) == Some(es[1].1));
    assert(sv_obj_get(es, key_props()) == Some(es[1].1));
    lemma_props_inverse(s.props);
}

} // verus!
