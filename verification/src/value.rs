//! The recursive tagged-union value type that carries all metadata:
//! strings, non-negative numbers, booleans, null, arrays and objects.
//! Objects are association lists of key/value pairs; lookups return the
//! first entry with a matching key.

use vstd::prelude::*;

verus! {

/// Mathematical model of a [`Value`] tree: the same shape, with strings
/// as character sequences and collections as `Seq`.
pub enum SpecValue {
    String(Seq<char>),
    Number(u64),
    Object(Seq<(Seq<char>, SpecValue)>),
    Array(Seq<SpecValue>),
    Boolean(bool),
    Null,
}

/// The universal data carrier for item and location metadata.
/// A tree by construction: no cycles are possible.
#[derive(Debug)]
pub enum Value {
    String(String),
    Number(u64),
    Object(Vec<(String, Value)>),
    Array(Vec<Value>),
    Boolean(bool),
    Null,
}

/// Model of one value.
pub open spec fn spec_val(v: Value) -> SpecValue
    decreases v,
{
    match v {
        Value::String(s) => SpecValue::String(s@),
        Value::Number(n) => SpecValue::Number(n),
        Value::Object(entries) => SpecValue::Object(spec_entries(entries@)),
        Value::Array(items) => SpecValue::Array(spec_items(items@)),
        Value::Boolean(b) => SpecValue::Boolean(b),
        Value::Null => SpecValue::Null,
    }
}

/// Model of an object's entry list, entry by entry.
pub open spec fn spec_entries(es: Seq<(String, Value)>) -> Seq<(Seq<char>, SpecValue)>
    decreases es,
{
    if es.len() == 0 {
        Seq::empty()
    } else {
        spec_entries(es.drop_last()).push((es.last().0@, spec_val(es.last().1)))
    }
}

/// Model of an array's item list.
pub open spec fn spec_items(vs: Seq<Value>) -> Seq<SpecValue>
    decreases vs,
{
    if vs.len() == 0 {
        Seq::empty()
    } else {
        spec_items(vs.drop_last()).push(spec_val(vs.last()))
    }
}

impl View for Value {
    type V = SpecValue;

    open spec fn view(&self) -> SpecValue {
        spec_val(*self)
    }
}

/// Lookup in a modelled object: the first entry whose key matches.
pub open spec fn sv_obj_get(es: Seq<(Seq<char>, SpecValue)>, k: Seq<char>) -> Option<SpecValue>
    decreases es,
{
    if es.len() == 0 {
        None
    } else if es.first().0 == k {
        Some(es.first().1)
    } else {
        sv_obj_get(es.drop_first(), k)
    }
}

impl Value {
    /// Narrow to the text of a string value.
    pub fn as_str(&self) -> (r: Option<String>)
        ensures
            match self@ {
                SpecValue::String(s) => r matches Some(t) && t@ == s,
                _ => r is None,
            },
    {
        if let Value::String(s) = self {
            Some(s.clone())
        } else {
            None
        }
    }

    /// Narrow to the numeric payload of a number value.
    pub fn as_i64(&self) -> (r: Option<u64>)
        ensures
            r == (match self@ {
                SpecValue::Number(n) => Some(n),
                _ => None::<u64>,
            }),
    {
        if let Value::Number(n) = self {
            Some(*n)
        } else {
            None
        }
    }

    /// Narrow to the entry list of an object value.
    pub fn as_object(&self) -> (r: Option<&Vec<(String, Value)>>)
        ensures
            match r {
                Some(m) => self@ == SpecValue::Object(spec_entries(m@)),
                None => !(self@ is Object),
            },
    {
        if let Value::Object(m) = self {
            Some(m)
        } else {
            None
        }
    }

    /// Narrow to the item list of an array value.
    pub fn as_array(&self) -> (r: Option<&Vec<Value>>)
        ensures
            match r {
                Some(a) => self@ == SpecValue::Array(spec_items(a@)),
                None => !(self@ is Array),
            },
    {
        if let Value::Array(a) = self {
            Some(a)
        } else {
            None
        }
    }

    /// Narrow to the payload of a boolean value.
    pub fn as_bool(&self) -> (r: Option<bool>)
        ensures
            r == (match self@ {
                SpecValue::Boolean(b) => Some(b),
                _ => None::<bool>,
            }),
    {
        if let Value::Boolean(b) = self {
            Some(*b)
        } else {
            None
        }
    }

    /// Tag predicate for the null value.
    pub fn is_null(&self) -> (r: bool)
        ensures
            r == (self@ is Null),
    {
        matches!(self, Value::Null)
    }

    /// Tag predicate for object values.
    pub fn is_object(&self) -> (r: bool)
        ensures
            r == (self@ is Object),
    {
        matches!(self, Value::Object(_))
    }

    /// Fallible conversion of a signed number from a generic JSON-like
    /// source; negative numbers are outside the representable range.
    pub fn number_from_i64(n: i64) -> (r: Result<Value, crate::value_store::ValueStoreError>)
        ensures
            n >= 0 ==> (r matches Ok(v) && v@ == SpecValue::Number(n as u64)),
            n < 0 ==> (r matches Err(e)
                && e == crate::value_store::ValueStoreError::NumberOutOfRange),
    {
        if n >= 0 {
            Ok(Value::Number(n as u64))
        } else {
            Err(crate::value_store::ValueStoreError::NumberOutOfRange)
        }
    }
}

/// Character-for-character string comparison with an exact contract.
#[verifier::loop_isolation(false)]
pub fn str_eq(a: &str, b: &str) -> (r: bool)
    ensures
        r == (a@ == b@),
{
    let n = a.unicode_len();
    if n != b.unicode_len() {
        proof {
            assert(a@.len() != b@.len());
        }
        return false;
    }
    let mut i: usize = 0;
    while i < n
        invariant
            i <= n,
            forall|k: int| 0 <= k < i ==> a@[k] == b@[k],
        decreases n - i,
    {
        if a.get_char(i) != b.get_char(i) {
            return false;
        }
        i = i + 1;
    }
    proof {
        assert(a@ =~= b@);
    }
    true
}

/// Appending an entry extends the model of an entry list by its model.
pub proof fn lemma_spec_entries_push(s: Seq<(String, Value)>, e: (String, Value))
    ensures
        spec_entries(s.push(e)) == spec_entries(s).push((e.0@, spec_val(e.1))),
{
    assert(s.push(e).drop_last() =~= s);
}

/// Appending an item extends the model of an item list by its model.
pub proof fn lemma_spec_items_push(s: Seq<Value>, v: Value)
    ensures
        spec_items(s.push(v)) == spec_items(s).push(spec_val(v)),
{
    assert(s.push(v).drop_last() =~= s);
}

/// The model of an entry list has the list's length.
pub proof fn lemma_spec_entries_len(es: Seq<(String, Value)>)
    ensures
        spec_entries(es).len() == es.len(),
    decreases es.len(),
{
    if es.len() > 0 {
        lemma_spec_entries_len(es.drop_last());
    }
}

/// The model of an entry list indexes pointwise.
pub proof fn lemma_spec_entries_index(es: Seq<(String, Value)>, i: int)
    requires
        0 <= i < es.len(),
    ensures
        spec_entries(es).len() == es.len(),
        spec_entries(es)[i] == (es[i].0@, spec_val(es[i].1)),
    decreases es.len(),
{
    lemma_spec_entries_len(es);
    lemma_spec_entries_len(es.drop_last());
    if i < es.len() - 1 {
        assert(es.drop_last()[i] == es[i]);
        lemma_spec_entries_index(es.drop_last(), i);
    }
}

/// Updating one entry then modelling equals modelling then updating.
pub proof fn lemma_entries_update_commutes(es: Seq<(String, Value)>, i: int, e: (String, Value))
    ensures
        0 <= i < es.len() ==> spec_entries(es.update(i, e)) == spec_entries(es).update(
            i,
            (e.0@, spec_val(e.1)),
        ),
{
    if 0 <= i < es.len() {
        lemma_spec_entries_len(es);
        lemma_spec_entries_len(es.update(i, e));
        assert(spec_entries(es.update(i, e)) =~= spec_entries(es).update(
            i,
            (e.0@, spec_val(e.1)),
        )) by {
            assert forall|k: int| 0 <= k < es.len() implies spec_entries(es.update(i, e))[k]
                == spec_entries(es).update(i, (e.0@, spec_val(e.1)))[k] by {
                lemma_spec_entries_index(es.update(i, e), k);
                lemma_spec_entries_index(es, k);
            }
        }
    }
}

/// Removing one entry then modelling equals modelling then removing.
pub proof fn lemma_entries_remove_commutes(es: Seq<(String, Value)>, i: int)
    ensures
        0 <= i < es.len() ==> spec_entries(es.remove(i)) == spec_entries(es).remove(i),
{
    if 0 <= i < es.len() {
        lemma_spec_entries_len(es);
        lemma_spec_entries_len(es.remove(i));
        assert(spec_entries(es.remove(i)) =~= spec_entries(es).remove(i)) by {
            assert forall|k: int| 0 <= k < es.len() - 1 implies spec_entries(es.remove(i))[k]
                == spec_entries(es).remove(i)[k] by {
                lemma_spec_entries_index(es.remove(i), k);
                if k < i {
                    lemma_spec_entries_index(es, k);
                } else {
                    lemma_spec_entries_index(es, k + 1);
                }
            }
        }
    }
}

/// A first-match witness pins down the result of an object lookup.
pub proof fn lemma_obj_get_first(es: Seq<(Seq<char>, SpecValue)>, i: int, k: Seq<char>)
    requires
        0 <= i < es.len(),
        es[i].0 == k,
        forall|j: int| 0 <= j < i ==> (#[trigger] es[j]).0 != k,
    ensures
        sv_obj_get(es, k) == Some(es[i].1),
    decreases i,
{
    if i > 0 {
        assert(es.first().0 != k);
        assert(es.drop_first()[i - 1] == es[i]);
        assert(forall|j: int| 0 <= j < i - 1 ==> (#[trigger] es.drop_first()[j]).0 != k);
        lemma_obj_get_first(es.drop_first(), i - 1, k);
    }
}

/// If no entry has the key, the lookup is absent.
pub proof fn lemma_obj_get_none(es: Seq<(Seq<char>, SpecValue)>, k: Seq<char>)
    requires
        forall|j: int| 0 <= j < es.len() ==> (#[trigger] es[j]).0 != k,
    ensures
        sv_obj_get(es, k) is None,
    decreases es.len(),
{
    if es.len() > 0 {
        assert(forall|j: int| 0 <= j < es.len() - 1 ==> (#[trigger] es.drop_first()[j]).0 != k);
        lemma_obj_get_none(es.drop_first(), k);
    }
}

/// Updating the value behind the first match updates the lookup for
/// that key and no other.
pub proof fn lemma_obj_get_after_update(
    es: Seq<(Seq<char>, SpecValue)>,
    i: int,
    k: Seq<char>,
    v: SpecValue,
)
    requires
        0 <= i < es.len(),
        es[i].0 == k,
        forall|j: int| 0 <= j < i ==> (#[trigger] es[j]).0 != k,
    ensures
        sv_obj_get(es.update(i, (k, v)), k) == Some(v),
        forall|k2: Seq<char>| k2 != k ==> sv_obj_get(es.update(i, (k, v)), k2) == sv_obj_get(
            es,
            k2,
        ),
    decreases es.len(),
{
    let es2 = es.update(i, (k, v));
    assert(forall|j: int| 0 <= j < i ==> (#[trigger] es2[j]).0 != k);
    lemma_obj_get_first(es2, i, k);
    assert forall|k2: Seq<char>| k2 != k implies sv_obj_get(es2, k2) == sv_obj_get(es, k2) by {
        lemma_obj_get_update_other(es, i, k, v, k2);
    }
}

/// Helper: lookups for other keys ignore the updated entry.
proof fn lemma_obj_get_update_other(
    es: Seq<(Seq<char>, SpecValue)>,
    i: int,
    k: Seq<char>,
    v: SpecValue,
    k2: Seq<char>,
)
    requires
        0 <= i < es.len(),
        es[i].0 == k,
        k2 != k,
    ensures
        sv_obj_get(es.update(i, (k, v)), k2) == sv_obj_get(es, k2),
    decreases es.len(),
{
    let es2 = es.update(i, (k, v));
    if i == 0 {
        assert(es2.first().0 == k);
        assert(es.first() == es[0]);
        assert(es2.drop_first() =~= es.drop_first());
    } else {
        assert(es2.first() == es.first());
        assert(es2.drop_first() =~= es.drop_first().update(i - 1, (k, v)));
        assert(es.drop_first()[i - 1] == es[i]);
        lemma_obj_get_update_other(es.drop_first(), i - 1, k, v, k2);
    }
}

/// Appending a fresh key makes it found; other keys are untouched.
pub proof fn lemma_obj_get_after_push(es: Seq<(Seq<char>, SpecValue)>, k: Seq<char>, v: SpecValue)
    ensures
        sv_obj_get(es, k) is None ==> sv_obj_get(es.push((k, v)), k) == Some(v),
        forall|k2: Seq<char>| k2 != k ==> sv_obj_get(es.push((k, v)), k2) == sv_obj_get(es, k2),
    decreases es.len(),
{
    if es.len() == 0 {
        assert(es.push((k, v)).first() == (k, v));
        assert(es.push((k, v)).drop_first() =~= Seq::<(Seq<char>, SpecValue)>::empty());
        assert forall|k2: Seq<char>| k2 != k implies sv_obj_get(es.push((k, v)), k2)
            == sv_obj_get(es, k2) by {
            assert(sv_obj_get(Seq::<(Seq<char>, SpecValue)>::empty(), k2) is None);
            assert(sv_obj_get(es.push((k, v)), k2) == sv_obj_get(
                es.push((k, v)).drop_first(),
                k2,
            ));
            assert(sv_obj_get(es, k2) is None);
        }
    } else {
        assert(es.push((k, v)).first() == es.first());
        assert(es.push((k, v)).drop_first() =~= es.drop_first().push((k, v)));
        lemma_obj_get_after_push(es.drop_first(), k, v);
        assert forall|k2: Seq<char>| k2 != k implies sv_obj_get(es.push((k, v)), k2)
            == sv_obj_get(es, k2) by {
            if es.first().0 == k2 {
                assert(sv_obj_get(es.push((k, v)), k2) == Some(es.push((k, v)).first().1));
                assert(sv_obj_get(es, k2) == Some(es.first().1));
            } else {
                assert(sv_obj_get(es.push((k, v)), k2) == sv_obj_get(
                    es.drop_first().push((k, v)),
                    k2,
                ));
                assert(sv_obj_get(es, k2) == sv_obj_get(es.drop_first(), k2));
            }
        }
    }
}

/// Removing the first match for a key leaves other keys untouched.
pub proof fn lemma_obj_get_after_remove(es: Seq<(Seq<char>, SpecValue)>, i: int, k: Seq<char>)
    requires
        0 <= i < es.len(),
        es[i].0 == k,
    ensures
        forall|k2: Seq<char>| k2 != k ==> sv_obj_get(es.remove(i), k2) == sv_obj_get(es, k2),
    decreases es.len(),
{
    assert forall|k2: Seq<char>| k2 != k implies sv_obj_get(es.remove(i), k2) == sv_obj_get(
        es,
        k2,
    ) by {
        lemma_obj_get_remove_other(es, i, k, k2);
    }
}

/// Helper: one other key, one removal.
proof fn lemma_obj_get_remove_other(
    es: Seq<(Seq<char>, SpecValue)>,
    i: int,
    k: Seq<char>,
    k2: Seq<char>,
)
    requires
        0 <= i < es.len(),
        es[i].0 == k,
        k2 != k,
    ensures
        sv_obj_get(es.remove(i), k2) == sv_obj_get(es, k2),
    decreases es.len(),
{
    let es2 = es.remove(i);
    if i == 0 {
        assert(es.first() == es[0]);
        assert(es2 =~= es.drop_first());
    } else {
        assert(es2.first() == es.first());
        assert(es2.drop_first() =~= es.drop_first().remove(i - 1));
        assert(es.drop_first()[i - 1] == es[i]);
        if es.first().0 != k2 {
            lemma_obj_get_remove_other(es.drop_first(), i - 1, k, k2);
        }
    }
}

/// Keys unique in a modelled object.
pub open spec fn sv_keys_unique(es: Seq<(Seq<char>, SpecValue)>) -> bool {
    forall|i: int, j: int|
        0 <= i < j < es.len() ==> (#[trigger] es[i]).0 != (#[trigger] es[j]).0
}

/// Under unique keys, removing the match for a key makes it absent.
pub proof fn lemma_obj_get_removed_absent(es: Seq<(Seq<char>, SpecValue)>, i: int, k: Seq<char>)
    requires
        0 <= i < es.len(),
        es[i].0 == k,
        sv_keys_unique(es),
    ensures
        sv_obj_get(es.remove(i), k) is None,
{
    let es2 = es.remove(i);
    assert forall|j: int| 0 <= j < es2.len() implies (#[trigger] es2[j]).0 != k by {
        if j < i {
            assert(es2[j] == es[j]);
        } else {
            assert(es2[j] == es[j + 1]);
        }
    }
    lemma_obj_get_none(es2, k);
}

/// Deep copy with an exact contract: the copy has the same model.
#[verifier::loop_isolation(false)]
pub fn clone_value(v: &Value) -> (r: Value)
    ensures
        r@ == v@,
    decreases *v,
{
    match v {
        Value::String(s) => Value::String(s.clone()),
        Value::Number(n) => Value::Number(*n),
        Value::Boolean(b) => Value::Boolean(*b),
        Value::Null => Value::Null,
        Value::Array(items) => {
            let mut out: Vec<Value> = Vec::new();
            let mut i: usize = 0;
            while i < items.len()
                invariant
                    i <= items.len(),
                    spec_items(out@) == spec_items(items@.subrange(0, i as int)),
                    out@.len() == i,
                decreases items.len() - i,
            {
                proof {
                    assert(decreases_to!(*v => (*v)->Array_0));
                    assert(decreases_to!(*items => items@));
                    assert(decreases_to!(items@ => items@[i as int]));
                }
                let c = clone_value(&items[i]);
                let ghost prev = out@;
                out.push(c);
                proof {
                    lemma_spec_items_push(prev, c);
                    assert(items@.subrange(0, i + 1) =~= items@.subrange(0, i as int).push(
                        items@[i as int],
                    ));
                    lemma_spec_items_push(items@.subrange(0, i as int), items@[i as int]);
                }
                i = i + 1;
            }
            proof {
                assert(items@.subrange(0, items@.len() as int) =~= items@);
            }
            Value::Array(out)
        },
        Value::Object(entries) => {
            let mut out: Vec<(String, Value)> = Vec::new();
            let mut i: usize = 0;
            while i < entries.len()
                invariant
                    i <= entries.len(),
                    spec_entries(out@) == spec_entries(entries@.subrange(0, i as int)),
                    out@.len() == i,
                decreases entries.len() - i,
            {
                proof {
                    assert(decreases_to!(*v => (*v)->Object_0));
                    assert(decreases_to!(*entries => entries@));
                    assert(decreases_to!(entries@ => entries@[i as int]));
                    assert(decreases_to!(entries@[i as int] => entries@[i as int].1));
                }
                let k = entries[i].0.clone();
                let c = clone_value(&entries[i].1);
                let ghost prev = out@;
                out.push((k, c));
                proof {
                    lemma_spec_entries_push(prev, (k, c));
                    assert(entries@.subrange(0, i + 1) =~= entries@.subrange(0, i as int).push(
                        entries@[i as int],
                    ));
                    lemma_spec_entries_push(entries@.subrange(0, i as int), entries@[i as int]);
                }
                i = i + 1;
            }
            proof {
                assert(entries@.subrange(0, entries@.len() as int) =~= entries@);
            }
            Value::Object(out)
        },
    }
}

/// Deep copy of an object's entry list.
#[verifier::loop_isolation(false)]
pub fn clone_entries(entries: &Vec<(String, Value)>) -> (r: Vec<(String, Value)>)
    ensures
        spec_entries(r@) == spec_entries(entries@),
        r@.len() == entries@.len(),
{
    let mut out: Vec<(String, Value)> = Vec::new();
    let mut i: usize = 0;
    while i < entries.len()
        invariant
            i <= entries.len(),
            spec_entries(out@) == spec_entries(entries@.subrange(0, i as int)),
            out@.len() == i,
        decreases entries.len() - i,
    {
        let k = entries[i].0.clone();
        let c = clone_value(&entries[i].1);
        let ghost prev = out@;
        out.push((k, c));
        proof {
            lemma_spec_entries_push(prev, (k, c));
            assert(entries@.subrange(0, i + 1) =~= entries@.subrange(0, i as int).push(
                entries@[i as int],
            ));
            lemma_spec_entries_push(entries@.subrange(0, i as int), entries@[i as int]);
        }
        i = i + 1;
    }
    proof {
        assert(entries@.subrange(0, entries@.len() as int) =~= entries@);
    }
    out
}

impl Clone for Value {
    /// Deep copy; the clone models the same value.
    fn clone(&self) -> (r: Self)
        ensures
            r@ == self@,
    {
        clone_value(self)
    }
}

} // verus!
