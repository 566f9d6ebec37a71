//! A named, ordered list of fields, mutable by index, optionally
//! carrying the identifier under which it was persisted.

use vstd::prelude::*;

use crate::fields::{lemma_spec_fields_index, lemma_spec_fields_push, lemma_spec_fields_len,
    spec_fields, Field, FieldType, SpecField};
use crate::value::{spec_val, str_eq, Value};

verus! {

/// Model of a schema.
pub struct SpecSchema {
    pub id: Option<i64>,
    pub name: Seq<char>,
    pub fields: Seq<SpecField>,
}

/// A named ordered field list; `id` is set once storage assigns one.
#[derive(Debug)]
pub struct Schema {
    pub id: Option<i64>,
    pub name: String,
    pub fields: Vec<Field>,
}

impl View for Schema {
    type V = SpecSchema;

    open spec fn view(&self) -> SpecSchema {
        SpecSchema { id: self.id, name: self.name@, fields: spec_fields(self.fields@) }
    }
}

/// Lookup by name in a modelled field list: the first match.
pub open spec fn spec_get_field(fs: Seq<SpecField>, name: Seq<char>) -> Option<SpecField>
    decreases fs,
{
    if fs.len() == 0 {
        None
    } else if fs.first().name == name {
        Some(fs.first())
    } else {
        spec_get_field(fs.drop_first(), name)
    }
}

impl Schema {
    /// Factory: an unpersisted schema with an initial field list.
    pub fn create(name: &str, fields: Vec<Field>) -> (r: Self)
        ensures
            r@ == (SpecSchema { id: None, name: name@, fields: spec_fields(fields@) }),
    {
        Schema { id: None, name: name.to_owned(), fields }
    }

    /// The ordered field list.
    pub fn fields(&self) -> (r: &Vec<Field>)
        ensures
            spec_fields(r@) == self@.fields,
    {
        &self.fields
    }

    /// The schema's name.
    pub fn name(&self) -> (r: String)
        ensures
            r@ == self@.name,
    {
        self.name.clone()
    }

    /// Linear scan returning the first field with the given name.
    pub fn get_field(&self, name: &str) -> (r: Option<&Field>)
        ensures
            match r {
                Some(f) => spec_get_field(self@.fields, name@) == Some(f@),
                None => spec_get_field(self@.fields, name@) is None,
            },
    {
        let n = self.fields.len();
        let mut i: usize = 0;
        proof {
            lemma_spec_fields_len(self.fields@);
            assert(self@.fields.skip(0) =~= self@.fields);
        }
        while i < n
            invariant
                i <= n,
                n == self.fields@.len(),
                spec_fields(self.fields@).len() == n,
                spec_get_field(self@.fields, name@) == spec_get_field(
                    self@.fields.skip(i as int),
                    name@,
                ),
                forall|k: int| 0 <= k < i ==> (#[trigger] spec_fields(self.fields@)[k]).name
                    != name@,
            decreases n - i,
        {
            proof {
                lemma_spec_fields_index(self.fields@, i as int);
            }
            if str_eq(self.fields[i].name.as_str(), name) {
                proof {
                    assert(self@.fields.skip(i as int).first() == self@.fields[i as int]);
                }
                return Some(&self.fields[i]);
            }
            proof {
                assert(self@.fields.skip(i as int).first() == self@.fields[i as int]);
                assert(self@.fields.skip(i as int).drop_first() =~= self@.fields.skip(i + 1));
            }
            i = i + 1;
        }
        proof {
            assert(self@.fields.skip(n as int) =~= Seq::<SpecField>::empty());
        }
        None
    }

    /// Append a field at the end.
    pub fn push_field(&mut self, field: Field)
        ensures
            final(self)@ == (SpecSchema {
                fields: old(self)@.fields.push(field@),
                ..old(self)@
            }),
    {
        let ghost prev = self.fields@;
        let ghost fv = field@;
        self.fields.push(field);
        proof {
            lemma_spec_fields_push(prev, self.fields@.last());
        }
    }

    /// Remove the field at `index`; absent result when out of range.
    pub fn remove_field(&mut self, index: usize) -> (r: Option<()>)
        ensures
            index < old(self)@.fields.len() ==> r == Some(()) && final(self)@ == (SpecSchema {
                fields: old(self)@.fields.remove(index as int),
                ..old(self)@
            }),
            index >= old(self)@.fields.len() ==> r is None && *final(self) == *old(self),
    {
        proof {
            lemma_spec_fields_len(self.fields@);
        }
        if index < self.fields.len() {
            let ghost prev = self.fields@;
            self.fields.remove(index);
            proof {
                lemma_remove_commutes(prev, index as int);
            }
            Some(())
        } else {
            None
        }
    }

    /// Rename the field at `index`; absent result when out of range.
    pub fn rename_field(&mut self, index: usize, new_name: &str) -> (r: Option<()>)
        ensures
            index < old(self)@.fields.len() ==> r == Some(()) && final(self)@ == (SpecSchema {
                fields: old(self)@.fields.update(
                    index as int,
                    (SpecField { name: new_name@, ..old(self)@.fields[index as int] }),
                ),
                ..old(self)@
            }),
            index >= old(self)@.fields.len() ==> r is None && *final(self) == *old(self),
    {
        proof {
            lemma_spec_fields_len(self.fields@);
        }
        if index < self.fields.len() {
            let ghost prev = self.fields@;
            proof {
                lemma_spec_fields_index(prev, index as int);
            }
            self.fields[index].set_name(new_name);
            proof {
                lemma_update_commutes(prev, index as int, self.fields@[index as int]);
            }
            Some(())
        } else {
            None
        }
    }

    /// Retype the field at `index`; absent result when out of range.
    pub fn change_type_field(&mut self, index: usize, new_field_type: FieldType) -> (r: Option<()>)
        ensures
            index < old(self)@.fields.len() ==> r == Some(()) && final(self)@ == (SpecSchema {
                fields: old(self)@.fields.update(
                    index as int,
                    (SpecField {
                        field_type: new_field_type,
                        ..old(self)@.fields[index as int]
                    }),
                ),
                ..old(self)@
            }),
            index >= old(self)@.fields.len() ==> r is None && *final(self) == *old(self),
    {
        proof {
            lemma_spec_fields_len(self.fields@);
        }
        if index < self.fields.len() {
            let ghost prev = self.fields@;
            proof {
                lemma_spec_fields_index(prev, index as int);
            }
            self.fields[index].set_field_type(new_field_type);
            proof {
                lemma_update_commutes(prev, index as int, self.fields@[index as int]);
            }
            Some(())
        } else {
            None
        }
    }

    /// Replace the default of the field at `index`; absent when out of
    /// range.
    pub fn change_default_field(&mut self, index: usize, default_value: Value) -> (r: Option<()>)
        ensures
            index < old(self)@.fields.len() ==> r == Some(()) && final(self)@ == (SpecSchema {
                fields: old(self)@.fields.update(
                    index as int,
                    (SpecField {
                        default: spec_val(default_value),
                        ..old(self)@.fields[index as int]
                    }),
                ),
                ..old(self)@
            }),
            index >= old(self)@.fields.len() ==> r is None && *final(self) == *old(self),
    {
        proof {
            lemma_spec_fields_len(self.fields@);
        }
        if index < self.fields.len() {
            let ghost prev = self.fields@;
            proof {
                lemma_spec_fields_index(prev, index as int);
            }
            self.fields[index].set_default(default_value);
            proof {
                lemma_update_commutes(prev, index as int, self.fields@[index as int]);
            }
            Some(())
        } else {
            None
        }
    }

    /// Mark the field at `index` required or optional; absent when out
    /// of range.
    pub fn set_required_field(&mut self, index: usize, required: bool) -> (r: Option<()>)
        ensures
            index < old(self)@.fields.len() ==> r == Some(()) && final(self)@ == (SpecSchema {
                fields: old(self)@.fields.update(
                    index as int,
                    (SpecField { required, ..old(self)@.fields[index as int] }),
                ),
                ..old(self)@
            }),
            index >= old(self)@.fields.len() ==> r is None && *final(self) == *old(self),
    {
        proof {
            lemma_spec_fields_len(self.fields@);
        }
        if index < self.fields.len() {
            let ghost prev = self.fields@;
            proof {
                lemma_spec_fields_index(prev, index as int);
            }
            self.fields[index].set_required(required);
            proof {
                lemma_update_commutes(prev, index as int, self.fields@[index as int]);
            }
            Some(())
        } else {
            None
        }
    }

    /// Record the identifier storage assigned to this schema.
    pub fn set_id(&mut self, id: i64)
        ensures
            final(self)@ == (SpecSchema { id: Some(id), ..old(self)@ }),
    {
        self.id = Some(id);
    }

    /// The persisted identifier, if one was assigned.
    pub fn id(&self) -> (r: Option<i64>)
        ensures
            r == self@.id,
    {
        self.id
    }
}

impl Clone for Schema {
    /// Deep copy; the copy models the same schema.
    fn clone(&self) -> (r: Self)
        ensures
            r@ == self@,
    {
        Schema {
            id: self.id,
            name: self.name.clone(),
            fields: crate::fields::clone_fields(&self.fields),
        }
    }
}

/// Updating one element then modelling equals modelling then updating.
proof fn lemma_update_commutes(fs: Seq<Field>, i: int, f: Field)
    requires
        0 <= i < fs.len(),
    ensures
        spec_fields(fs.update(i, f)) == spec_fields(fs).update(i, f@),
    decreases fs.len(),
{
    lemma_spec_fields_len(fs);
    lemma_spec_fields_len(fs.update(i, f));
    if i == fs.len() - 1 {
        assert(fs.update(i, f).drop_last() =~= fs.drop_last());
        assert(fs.update(i, f).last() == f);
        assert(spec_fields(fs.update(i, f)) =~= spec_fields(fs).update(i, f@)) by {
            lemma_pointwise(fs, fs.update(i, f), i, f);
        }
    } else {
        assert(fs.update(i, f).drop_last() =~= fs.drop_last().update(i, f));
        lemma_update_commutes(fs.drop_last(), i, f);
        assert(fs.update(i, f).last() == fs.last());
        assert(spec_fields(fs.update(i, f)) =~= spec_fields(fs).update(i, f@));
    }
}

/// Pointwise characterization used for the last-index update case.
proof fn lemma_pointwise(fs: Seq<Field>, gs: Seq<Field>, i: int, f: Field)
    requires
        0 <= i < fs.len(),
        gs == fs.update(i, f),
    ensures
        forall|k: int| 0 <= k < fs.len() ==> spec_fields(gs)[k] == spec_fields(fs).update(
            i,
            f@,
        )[k],
{
    lemma_spec_fields_len(fs);
    lemma_spec_fields_len(gs);
    assert forall|k: int| 0 <= k < fs.len() implies spec_fields(gs)[k] == spec_fields(
        fs,
    ).update(i, f@)[k] by {
        lemma_spec_fields_index(gs, k);
        lemma_spec_fields_index(fs, k);
    }
}

/// Removing one element then modelling equals modelling then removing.
proof fn lemma_remove_commutes(fs: Seq<Field>, i: int)
    requires
        0 <= i < fs.len(),
    ensures
        spec_fields(fs.remove(i)) == spec_fields(fs).remove(i),
{
    lemma_spec_fields_len(fs);
    lemma_spec_fields_len(fs.remove(i));
    assert(spec_fields(fs.remove(i)) =~= spec_fields(fs).remove(i)) by {
        assert forall|k: int| 0 <= k < fs.len() - 1 implies spec_fields(fs.remove(i))[k]
            == spec_fields(fs).remove(i)[k] by {
            lemma_spec_fields_index(fs.remove(i), k);
            if k < i {
                lemma_spec_fields_index(fs, k);
            } else {
                lemma_spec_fields_index(fs, k + 1);
            }
        }
    }
}

} // verus!
