//! Schema slots: a named, typed, optionally-required field with a
//! default value, and the five-way type tag with its structural check.

use vstd::prelude::*;

use crate::value::{spec_val, SpecValue, Value};

verus! {

/// The type tag a schema field may demand of a value.
#[derive(Debug, Clone, Copy, PartialEq, Eq, Structural)]
pub enum FieldType {
    String,
    Number,
    Boolean,
    Array,
    Object,
}

/// Structural tag match: a value satisfies a type exactly when its tag
/// is the one the type names; null satisfies no type.
pub open spec fn spec_type_valid(t: FieldType, v: SpecValue) -> bool {
    match (t, v) {
        (FieldType::String, SpecValue::String(_)) => true,
        (FieldType::Number, SpecValue::Number(_)) => true,
        (FieldType::Boolean, SpecValue::Boolean(_)) => true,
        (FieldType::Array, SpecValue::Array(_)) => true,
        (FieldType::Object, SpecValue::Object(_)) => true,
        _ => false,
    }
}

impl FieldType {
    /// Structural tag match only; required/optional handling is the
    /// validator's business, not this method's.
    pub fn is_valid(&self, value: &Value) -> (r: bool)
        ensures
            r == spec_type_valid(*self, value@),
    {
        match (self, value) {
            (FieldType::String, Value::String(_)) => true,
            (FieldType::Number, Value::Number(_)) => true,
            (FieldType::Boolean, Value::Boolean(_)) => true,
            (FieldType::Array, Value::Array(_)) => true,
            (FieldType::Object, Value::Object(_)) => true,
            _ => false,
        }
    }
}

/// Model of one schema field.
pub struct SpecField {
    pub name: Seq<char>,
    pub field_type: FieldType,
    pub required: bool,
    pub default: SpecValue,
}

/// One named, typed, optionally-required schema slot with a default.
#[derive(Debug)]
pub struct Field {
    pub name: String,
    pub field_type: FieldType,
    pub required: bool,
    pub default: Value,
}

impl View for Field {
    type V = SpecField;

    open spec fn view(&self) -> SpecField {
        SpecField {
            name: self.name@,
            field_type: self.field_type,
            required: self.required,
            default: spec_val(self.default),
        }
    }
}

/// Model of a field list, field by field.
pub open spec fn spec_fields(fs: Seq<Field>) -> Seq<SpecField>
    decreases fs,
{
    if fs.len() == 0 {
        Seq::empty()
    } else {
        spec_fields(fs.drop_last()).push(fs.last()@)
    }
}

/// Appending a field extends the model of a field list by its model.
pub proof fn lemma_spec_fields_push(fs: Seq<Field>, f: Field)
    ensures
        spec_fields(fs.push(f)) == spec_fields(fs).push(f@),
{
    assert(fs.push(f).drop_last() =~= fs);
}

/// The model of a field list has the list's length.
pub proof fn lemma_spec_fields_len(fs: Seq<Field>)
    ensures
        spec_fields(fs).len() == fs.len(),
    decreases fs.len(),
{
    if fs.len() > 0 {
        lemma_spec_fields_len(fs.drop_last());
    }
}

/// The model of a field list indexes pointwise.
pub proof fn lemma_spec_fields_index(fs: Seq<Field>, i: int)
    requires
        0 <= i < fs.len(),
    ensures
        spec_fields(fs).len() == fs.len(),
        spec_fields(fs)[i] == fs[i]@,
    decreases fs.len(),
{
    lemma_spec_fields_len(fs);
    lemma_spec_fields_len(fs.drop_last());
    if i < fs.len() - 1 {
        assert(fs.drop_last()[i] == fs[i]);
        lemma_spec_fields_index(fs.drop_last(), i);
    }
}

impl Field {
    /// Whether the field must hold a non-null value.
    pub fn required(&self) -> (r: bool)
        ensures
            r == self@.required,
    {
        self.required
    }

    /// The field's default value.
    pub fn default_value(&self) -> (r: &Value)
        ensures
            r@ == self@.default,
    {
        &self.default
    }

    /// The field's name.
    pub fn name(&self) -> (r: &str)
        ensures
            r@ == self@.name,
    {
        self.name.as_str()
    }

    /// The field's type tag.
    pub fn field_type(&self) -> (r: &FieldType)
        ensures
            *r == self@.field_type,
    {
        &self.field_type
    }

    /// Factory: a field with every part given.
    pub fn create(name: &str, field_type: FieldType, required: bool, default: Value) -> (r: Self)
        ensures
            r@ == (SpecField { name: name@, field_type, required, default: spec_val(default) }),
    {
        Field { name: name.to_owned(), field_type, required, default }
    }

    /// Rename the field.
    pub fn set_name(&mut self, name: &str)
        ensures
            final(self)@ == (SpecField { name: name@, ..old(self)@ }),
    {
        self.name = name.to_owned();
    }

    /// Change the field's type tag.
    pub fn set_field_type(&mut self, field_type: FieldType)
        ensures
            final(self)@ == (SpecField { field_type, ..old(self)@ }),
    {
        self.field_type = field_type;
    }

    /// Change whether the field is required.
    pub fn set_required(&mut self, required: bool)
        ensures
            final(self)@ == (SpecField { required, ..old(self)@ }),
    {
        self.required = required;
    }

    /// Replace the field's default value.
    pub fn set_default(&mut self, default: Value)
        ensures
            final(self)@ == (SpecField { default: spec_val(default), ..old(self)@ }),
    {
        self.default = default;
    }
}

impl Clone for Field {
    /// Deep copy; the copy models the same field.
    fn clone(&self) -> (r: Self)
        ensures
            r@ == self@,
    {
        Field {
            name: self.name.clone(),
            field_type: self.field_type,
            required: self.required,
            default: crate::value::clone_value(&self.default),
        }
    }
}

/// Deep copy of a field list.
pub fn clone_fields(fields: &Vec<Field>) -> (r: Vec<Field>)
    ensures
        spec_fields(r@) == spec_fields(fields@),
        r@.len() == fields@.len(),
{
    let mut out: Vec<Field> = Vec::new();
    let n = fields.len();
    let mut i: usize = 0;
    while i < n
        invariant
            i <= n,
            n == fields@.len(),
            spec_fields(out@) == spec_fields(fields@.subrange(0, i as int)),
            out@.len() == i,
        decreases n - i,
    {
        let f = fields[i].clone();
        let ghost prev = out@;
        out.push(f);
        proof {
            lemma_spec_fields_push(prev, out@.last());
            assert(fields@.subrange(0, i + 1) =~= fields@.subrange(0, i as int).push(
                fields@[i as int],
            ));
            lemma_spec_fields_push(fields@.subrange(0, i as int), fields@[i as int]);
        }
        i = i + 1;
    }
    proof {
        assert(fields@.subrange(0, fields@.len() as int) =~= fields@);
    }
    out
}

} // verus!
