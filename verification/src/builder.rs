//! The staged builder for values.  It starts untyped, commits to a
//! scalar, an array or an object on the first type-selecting call, and
//! nests through closures that receive and return a same-shape
//! sub-builder.  Object stages insert-if-absent: the first write to a
//! key wins.

use vstd::prelude::*;

use crate::store_builder::sb_put;
use crate::value::{
    lemma_spec_entries_push, lemma_spec_items_push, spec_entries, spec_items, spec_val,
    SpecValue, Value,
};
use crate::value_store::find_entry;

verus! {

/// Marker for the object stage.
pub struct Obj;

/// Marker for the array stage.
pub struct Arr;

/// Marker for the untyped stage.
pub struct Any;

/// What the builder holds so far.
#[derive(Debug)]
pub enum BuilderValue {
    Unset,
    String(String),
    Number(u64),
    Array(Vec<Value>),
    Object(Vec<(String, Value)>),
    Null,
}

/// Model of the builder's content: absent until a type-selecting call
/// was made.
pub open spec fn bv_model(bv: BuilderValue) -> Option<SpecValue> {
    match bv {
        BuilderValue::Unset => None,
        BuilderValue::String(s) => Some(SpecValue::String(s@)),
        BuilderValue::Number(n) => Some(SpecValue::Number(n)),
        BuilderValue::Array(items) => Some(SpecValue::Array(spec_items(items@))),
        BuilderValue::Object(es) => Some(SpecValue::Object(spec_entries(es@))),
        BuilderValue::Null => Some(SpecValue::Null),
    }
}

/// The staged builder; the marker type names the stage.
#[derive(Debug)]
pub struct Builder<T> {
    pub marker: core::marker::PhantomData<T>,
    pub value: BuilderValue,
}

impl Value {
    /// Start building a value, still untyped.
    pub fn builder() -> (r: Builder<Any>)
        ensures
            r.value is Unset,
    {
        Builder { marker: core::marker::PhantomData, value: BuilderValue::Unset }
    }
}

impl<T> Builder<T> {
    /// Finalize: absent when nothing was ever set.
    pub fn build(self) -> (r: Option<Value>)
        ensures
            match r {
                Some(v) => bv_model(self.value) == Some(v@),
                None => bv_model(self.value) is None,
            },
    {
        match self.value {
            BuilderValue::Unset => None,
            BuilderValue::String(s) => Some(Value::String(s)),
            BuilderValue::Number(n) => Some(Value::Number(n)),
            BuilderValue::Array(a) => Some(Value::Array(a)),
            BuilderValue::Object(o) => Some(Value::Object(o)),
            BuilderValue::Null => Some(Value::Null),
        }
    }
}

impl Builder<Any> {
    /// Commit to building an array.
    pub fn array(self) -> (r: Builder<Arr>)
        ensures
            r.value matches BuilderValue::Array(items) && spec_items(items@) == Seq::<
                SpecValue,
            >::empty(),
    {
        Builder { marker: core::marker::PhantomData, value: BuilderValue::Array(Vec::new()) }
    }

    /// Commit to building an object.
    pub fn object(self) -> (r: Builder<Obj>)
        ensures
            r.value matches BuilderValue::Object(es) && spec_entries(es@) == Seq::<
                (Seq<char>, SpecValue),
            >::empty(),
    {
        Builder { marker: core::marker::PhantomData, value: BuilderValue::Object(Vec::new()) }
    }

    /// Hold a string scalar.
    pub fn string(self, value: &str) -> (r: Self)
        ensures
            bv_model(r.value) == Some(SpecValue::String(value@)),
    {
        Builder { marker: core::marker::PhantomData, value: BuilderValue::String(value.to_owned()) }
    }

    /// Hold a number scalar.
    pub fn number(self, value: u64) -> (r: Self)
        ensures
            bv_model(r.value) == Some(SpecValue::Number(value)),
    {
        Builder { marker: core::marker::PhantomData, value: BuilderValue::Number(value) }
    }

    /// Hold an explicit null.
    pub fn null(self) -> (r: Self)
        ensures
            bv_model(r.value) == Some(SpecValue::Null),
    {
        Builder { marker: core::marker::PhantomData, value: BuilderValue::Null }
    }
}

/// The items held by an array-stage builder.
pub open spec fn bv_items(bv: BuilderValue) -> Seq<SpecValue>
    recommends
        bv is Array,
{
    match bv {
        BuilderValue::Array(items) => spec_items(items@),
        _ => Seq::empty(),
    }
}

/// The entries held by an object-stage builder.
pub open spec fn bv_entries(bv: BuilderValue) -> Seq<(Seq<char>, SpecValue)>
    recommends
        bv is Object,
{
    match bv {
        BuilderValue::Object(es) => spec_entries(es@),
        _ => Seq::empty(),
    }
}

impl Builder<Arr> {
    /// Append a number to the array.
    pub fn push_number(self, value: u64) -> (r: Self)
        ensures
            self.value is Array ==> r.value is Array && bv_items(r.value) == bv_items(
                self.value,
            ).push(SpecValue::Number(value)),
            !(self.value is Array) ==> r.value == self.value,
    {
        let mut b = self;
        if let BuilderValue::Array(ref mut arr) = b.value {
            let ghost prev = arr@;
            arr.push(Value::Number(value));
            proof {
                lemma_spec_items_push(prev, arr@.last());
            }
        }
        b
    }

    /// Append a string to the array.
    pub fn push_string(self, value: &str) -> (r: Self)
        ensures
            self.value is Array ==> r.value is Array && bv_items(r.value) == bv_items(
                self.value,
            ).push(SpecValue::String(value@)),
            !(self.value is Array) ==> r.value == self.value,
    {
        let mut b = self;
        if let BuilderValue::Array(ref mut arr) = b.value {
            let ghost prev = arr@;
            arr.push(Value::String(value.to_owned()));
            proof {
                lemma_spec_items_push(prev, arr@.last());
            }
        }
        b
    }

    /// Append an explicit null to the array.
    pub fn push_null(self) -> (r: Self)
        ensures
            self.value is Array ==> r.value is Array && bv_items(r.value) == bv_items(
                self.value,
            ).push(SpecValue::Null),
            !(self.value is Array) ==> r.value == self.value,
    {
        let mut b = self;
        if let BuilderValue::Array(ref mut arr) = b.value {
            let ghost prev = arr@;
            arr.push(Value::Null);
            proof {
                lemma_spec_items_push(prev, arr@.last());
            }
        }
        b
    }

    /// Append a nested array, built by the closure from a fresh
    /// array-stage builder; a closure that sets nothing appends
    /// nothing.
    pub fn push_array<F: FnOnce(Builder<Arr>) -> Builder<Arr>>(self, f: F) -> (r: Self)
        requires
            forall|b0: Builder<Arr>|
                (b0.value is Array && bv_items(b0.value) == Seq::<SpecValue>::empty())
                    ==> #[trigger] call_requires(f, (b0,)),
        ensures
            self.value is Array ==> exists|b0: Builder<Arr>, b1: Builder<Arr>|
                {
                    &&& b0.value is Array
                    &&& bv_items(b0.value) == Seq::<SpecValue>::empty()
                    &&& #[trigger] call_ensures(f, (b0,), b1)
                    &&& r.value is Array
                    &&& bv_items(r.value) == (match bv_model(b1.value) {
                        Some(v) => bv_items(self.value).push(v),
                        None => bv_items(self.value),
                    })
                },
            !(self.value is Array) ==> r.value == self.value,
    {
        let mut b = self;
        if let BuilderValue::Array(ref mut arr) = b.value {
            let inner_builder = Builder::<Arr> {
                marker: core::marker::PhantomData,
                value: BuilderValue::Array(Vec::new()),
            };
            let ghost b0 = inner_builder;
            let inner = f(inner_builder);
            let ghost b1 = inner;
            let ghost prev = arr@;
            match inner.build() {
                Some(v) => {
                    let ghost vv = v@;
                    arr.push(v);
                    proof {
                        lemma_spec_items_push(prev, arr@.last());
                    }
                },
                None => {},
            }
        }
        b
    }

    /// Append a nested object, built by the closure from a fresh
    /// object-stage builder; a closure that sets nothing appends
    /// nothing.
    pub fn push_object<F: FnOnce(Builder<Obj>) -> Builder<Obj>>(self, f: F) -> (r: Self)
        requires
            forall|b0: Builder<Obj>|
                (b0.value is Object && bv_entries(b0.value) == Seq::<
                    (Seq<char>, SpecValue),
                >::empty()) ==> #[trigger] call_requires(f, (b0,)),
        ensures
            self.value is Array ==> exists|b0: Builder<Obj>, b1: Builder<Obj>|
                {
                    &&& b0.value is Object
                    &&& bv_entries(b0.value) == Seq::<(Seq<char>, SpecValue)>::empty()
                    &&& #[trigger] call_ensures(f, (b0,), b1)
                    &&& r.value is Array
                    &&& bv_items(r.value) == (match bv_model(b1.value) {
                        Some(v) => bv_items(self.value).push(v),
                        None => bv_items(self.value),
                    })
                },
            !(self.value is Array) ==> r.value == self.value,
    {
        let mut b = self;
        if let BuilderValue::Array(ref mut arr) = b.value {
            let inner_builder = Builder::<Obj> {
                marker: core::marker::PhantomData,
                value: BuilderValue::Object(Vec::new()),
            };
            let inner = f(inner_builder);
            let ghost prev = arr@;
            match inner.build() {
                Some(v) => {
                    arr.push(v);
                    proof {
                        lemma_spec_items_push(prev, arr@.last());
                    }
                },
                None => {},
            }
        }
        b
    }
}

impl Builder<Obj> {
    /// Set a number under the key unless the key is taken.
    pub fn push_number(self, key: &str, value: u64) -> (r: Self)
        ensures
            self.value is Object ==> r.value is Object && bv_entries(r.value) == sb_put(
                bv_entries(self.value),
                key@,
                SpecValue::Number(value),
            ),
            !(self.value is Object) ==> r.value == self.value,
    {
        let mut b = self;
        if let BuilderValue::Object(ref mut es) = b.value {
            obj_put_if_absent(es, key, Value::Number(value));
        }
        b
    }

    /// Set a string under the key unless the key is taken.
    pub fn push_string(self, key: &str, value: &str) -> (r: Self)
        ensures
            self.value is Object ==> r.value is Object && bv_entries(r.value) == sb_put(
                bv_entries(self.value),
                key@,
                SpecValue::String(value@),
            ),
            !(self.value is Object) ==> r.value == self.value,
    {
        let mut b = self;
        if let BuilderValue::Object(ref mut es) = b.value {
            obj_put_if_absent(es, key, Value::String(value.to_owned()));
        }
        b
    }

    /// Set an explicit null under the key unless the key is taken.
    pub fn push_null(self, key: &str) -> (r: Self)
        ensures
            self.value is Object ==> r.value is Object && bv_entries(r.value) == sb_put(
                bv_entries(self.value),
                key@,
                SpecValue::Null,
            ),
            !(self.value is Object) ==> r.value == self.value,
    {
        let mut b = self;
        if let BuilderValue::Object(ref mut es) = b.value {
            obj_put_if_absent(es, key, Value::Null);
        }
        b
    }

    /// Set a nested array under the key unless the key is taken; the
    /// closure builds it from a fresh array-stage builder.
    pub fn push_array<F: FnOnce(Builder<Arr>) -> Builder<Arr>>(self, key: &str, f: F) -> (r: Self)
        requires
            forall|b0: Builder<Arr>|
                (b0.value is Array && bv_items(b0.value) == Seq::<SpecValue>::empty())
                    ==> #[trigger] call_requires(f, (b0,)),
        ensures
            self.value is Object ==> exists|b0: Builder<Arr>, b1: Builder<Arr>|
                {
                    &&& b0.value is Array
                    &&& bv_items(b0.value) == Seq::<SpecValue>::empty()
                    &&& #[trigger] call_ensures(f, (b0,), b1)
                    &&& r.value is Object
                    &&& bv_entries(r.value) == (match bv_model(b1.value) {
                        Some(v) => sb_put(bv_entries(self.value), key@, v),
                        None => bv_entries(self.value),
                    })
                },
            !(self.value is Object) ==> r.value == self.value,
    {
        let mut b = self;
        if let BuilderValue::Object(ref mut es) = b.value {
            let inner_builder = Builder::<Arr> {
                marker: core::marker::PhantomData,
                value: BuilderValue::Array(Vec::new()),
            };
            let inner = f(inner_builder);
            match inner.build() {
                Some(v) => {
                    obj_put_if_absent(es, key, v);
                },
                None => {},
            }
        }
        b
    }

    /// Set a nested object under the key unless the key is taken; the
    /// closure builds it from a fresh object-stage builder.
    pub fn push_object<F: FnOnce(Builder<Obj>) -> Builder<Obj>>(self, key: &str, f: F) -> (r: Self)
        requires
            forall|b0: Builder<Obj>|
                (b0.value is Object && bv_entries(b0.value) == Seq::<
                    (Seq<char>, SpecValue),
                >::empty()) ==> #[trigger] call_requires(f, (b0,)),
        ensures
            self.value is Object ==> exists|b0: Builder<Obj>, b1: Builder<Obj>|
                {
                    &&& b0.value is Object
                    &&& bv_entries(b0.value) == Seq::<(Seq<char>, SpecValue)>::empty()
                    &&& #[trigger] call_ensures(f, (b0,), b1)
                    &&& r.value is Object
                    &&& bv_entries(r.value) == (match bv_model(b1.value) {
                        Some(v) => sb_put(bv_entries(self.value), key@, v),
                        None => bv_entries(self.value),
                    })
                },
            !(self.value is Object) ==> r.value == self.value,
    {
        let mut b = self;
        if let BuilderValue::Object(ref mut es) = b.value {
            let inner_builder = Builder::<Obj> {
                marker: core::marker::PhantomData,
                value: BuilderValue::Object(Vec::new()),
            };
            let inner = f(inner_builder);
            match inner.build() {
                Some(v) => {
                    obj_put_if_absent(es, key, v);
                },
                None => {},
            }
        }
        b
    }

    /// The entries built so far, as a plain list.
    pub fn into_map(self) -> (r: Vec<(String, Value)>)
        ensures
            spec_entries(r@) == bv_entries(self.value),
    {
        match self.value {
            BuilderValue::Object(es) => es,
            _ => Vec::new(),
        }
    }
}

/// Insert-if-absent into an entry list.
fn obj_put_if_absent(es: &mut Vec<(String, Value)>, key: &str, value: Value)
    ensures
        spec_entries(final(es)@) == sb_put(spec_entries(old(es)@), key@, spec_val(value)),
{
    match find_entry(es, key) {
        Some(_) => {},
        None => {
            let ghost prev = es@;
            es.push((key.to_owned(), value));
            proof {
                lemma_spec_entries_push(prev, es@.last());
            }
        },
    }
}

} // verus!
