//! The serialized form of a schema's field list — an array of field
//! objects rendered to text for the storage layer — together with the
//! payload types of the schema-storage boundary and the decision half
//! of persisting a registered schema.

use vstd::prelude::*;

use crate::codec::{parse_text, render_value, value_from_text, value_to_text};
use crate::fields::{lemma_spec_fields_len, spec_fields, Field, FieldType,
    SpecField};
use crate::registry::{reg_get, Registry};
use crate::schema::Schema;
use crate::value::{
    lemma_spec_entries_index, lemma_spec_items_push, spec_entries,
    spec_items, str_eq, sv_obj_get, SpecValue, Value,
};
use crate::value_store::{find_entry, ValueStoreError};

verus! {

/// The key under which a field's name is serialized.
pub open spec fn key_name() -> Seq<char> {
    seq!['n', 'a', 'm', 'e']
}

/// The key under which a field's type tag is serialized.
pub open spec fn key_field_type() -> Seq<char> {
    seq!['f', 'i', 'e', 'l', 'd', '_', 't', 'y', 'p', 'e']
}

/// The key under which a field's required flag is serialized.
pub open spec fn key_required() -> Seq<char> {
    seq!['r', 'e', 'q', 'u', 'i', 'r', 'e', 'd']
}

/// The key under which a field's default value is serialized.
pub open spec fn key_default() -> Seq<char> {
    seq!['d', 'e', 'f', 'a', 'u', 'l', 't']
}

/// The lowercase tag of a field type.
pub open spec fn type_tag(t: FieldType) -> Seq<char> {
    match t {
        FieldType::String => seq!['s', 't', 'r', 'i', 'n', 'g'],
        FieldType::Number => seq!['n', 'u', 'm', 'b', 'e', 'r'],
        FieldType::Boolean => seq!['b', 'o', 'o', 'l', 'e', 'a', 'n'],
        FieldType::Array => seq!['a', 'r', 'r', 'a', 'y'],
        FieldType::Object => seq!['o', 'b', 'j', 'e', 'c', 't'],
    }
}

/// The field type named by a tag, if any.
pub open spec fn type_of_tag(n: Seq<char>) -> Option<FieldType> {
    if n == type_tag(FieldType::String) {
        Some(FieldType::String)
    } else if n == type_tag(FieldType::Number) {
        Some(FieldType::Number)
    } else if n == type_tag(FieldType::Boolean) {
        Some(FieldType::Boolean)
    } else if n == type_tag(FieldType::Array) {
        Some(FieldType::Array)
    } else if n == type_tag(FieldType::Object) {
        Some(FieldType::Object)
    } else {
        None
    }
}

/// One field as an object value under four fixed keys.
pub open spec fn field_repr(f: SpecField) -> SpecValue {
    SpecValue::Object(
        seq![
            (key_name(), SpecValue::String(f.name)),
            (key_field_type(), SpecValue::String(type_tag(f.field_type))),
            (key_required(), SpecValue::Boolean(f.required)),
            (key_default(), f.default),
        ],
    )
}

/// A field list as an array of field objects.
pub open spec fn fields_repr_items(fs: Seq<SpecField>) -> Seq<SpecValue>
    decreases fs,
{
    if fs.len() == 0 {
        Seq::empty()
    } else {
        fields_repr_items(fs.drop_last()).push(field_repr(fs.last()))
    }
}

/// The whole serialized field list.
pub open spec fn fields_repr(fs: Seq<SpecField>) -> SpecValue {
    SpecValue::Array(fields_repr_items(fs))
}

/// Reading one field back out of a generic value.
pub open spec fn spec_field_of(v: SpecValue) -> Result<SpecField, ValueStoreError> {
    match v {
        SpecValue::Object(es) => {
            match (
                sv_obj_get(es, key_name()),
                sv_obj_get(es, key_field_type()),
                sv_obj_get(es, key_required()),
                sv_obj_get(es, key_default()),
            ) {
                (
                    Some(SpecValue::String(n)),
                    Some(SpecValue::String(t)),
                    Some(SpecValue::Boolean(req)),
                    Some(d),
                ) => match type_of_tag(t) {
                    Some(ft) => Ok(
                        SpecField { name: n, field_type: ft, required: req, default: d },
                    ),
                    None => Err(ValueStoreError::CannotConvertFromValue),
                },
                _ => Err(ValueStoreError::CannotConvertFromValue),
            }
        },
        _ => Err(ValueStoreError::NotAnObject),
    }
}

/// Reading a field list back out of an array's items.
pub open spec fn spec_fields_of_items(items: Seq<SpecValue>) -> Result<
    Seq<SpecField>,
    ValueStoreError,
>
    decreases items,
{
    if items.len() == 0 {
        Ok(Seq::empty())
    } else {
        match spec_fields_of_items(items.drop_last()) {
            Err(e) => Err(e),
            Ok(fs) => match spec_field_of(items.last()) {
                Err(e) => Err(e),
                Ok(f) => Ok(fs.push(f)),
            },
        }
    }
}

/// Reading a field list back out of a generic value.
pub open spec fn spec_fields_of(v: SpecValue) -> Result<Seq<SpecField>, ValueStoreError> {
    match v {
        SpecValue::Array(items) => spec_fields_of_items(items),
        _ => Err(ValueStoreError::NotAnArray),
    }
}

/// One field as a value.
fn field_to_value(f: &Field) -> (r: Value)
    ensures
        r@ == field_repr(f@),
{
    proof {
        reveal_strlit("name");
        reveal_strlit("field_type");
        reveal_strlit("required");
        reveal_strlit("default");
        reveal_strlit("string");
        reveal_strlit("number");
        reveal_strlit("boolean");
        reveal_strlit("array");
        reveal_strlit("object");
        assert(("name")@ =~= key_name());
        assert(("field_type")@ =~= key_field_type());
        assert(("required")@ =~= key_required());
        assert(("default")@ =~= key_default());
        assert(("string")@ =~= type_tag(FieldType::String));
        assert(("number")@ =~= type_tag(FieldType::Number));
        assert(("boolean")@ =~= type_tag(FieldType::Boolean));
        assert(("array")@ =~= type_tag(FieldType::Array));
        assert(("object")@ =~= type_tag(FieldType::Object));
    }
    let tag: &str = match f.field_type {
        FieldType::String => "string",
        FieldType::Number => "number",
        FieldType::Boolean => "boolean",
        FieldType::Array => "array",
        FieldType::Object => "object",
    };
    let mut entries: Vec<(String, Value)> = Vec::new();
    entries.push(("name".to_owned(), Value::String(f.name.clone())));
    entries.push(("field_type".to_owned(), Value::String(tag.to_owned())));
    entries.push(("required".to_owned(), Value::Boolean(f.required)));
    entries.push(("default".to_owned(), crate::value::clone_value(&f.default)));
    proof {
        let target = (match field_repr(f@) {
            SpecValue::Object(es) => es,
            _ => Seq::empty(),
        });
        assert(spec_entries(entries@) =~= target) by {
            assert(entries@.len() == 4);
            lemma_spec_entries_index(entries@, 0);
            lemma_spec_entries_index(entries@, 1);
            lemma_spec_entries_index(entries@, 2);
            lemma_spec_entries_index(entries@, 3);
        }
    }
    Value::Object(entries)
}

/// A field list as a value.
pub fn fields_to_value(fields: &Vec<Field>) -> (r: Value)
    ensures
        r@ == fields_repr(spec_fields(fields@)),
{
    let mut items: Vec<Value> = Vec::new();
    let n = fields.len();
    let mut i: usize = 0;
    proof {
        lemma_spec_fields_len(fields@);
    }
    while i < n
        invariant
            i <= n,
            n == fields@.len(),
            spec_items(items@) == fields_repr_items(spec_fields(fields@.subrange(0, i as int))),
        decreases n - i,
    {
        let v = field_to_value(&fields[i]);
        let ghost prev = items@;
        items.push(v);
        proof {
            lemma_spec_items_push(prev, items@.last());
            assert(fields@.subrange(0, i + 1) =~= fields@.subrange(0, i as int).push(
                fields@[i as int],
            ));
            crate::fields::lemma_spec_fields_push(fields@.subrange(0, i as int), fields@[i as int]);
            assert(spec_fields(fields@.subrange(0, i + 1)).drop_last() =~= spec_fields(
                fields@.subrange(0, i as int),
            ));
        }
        i = i + 1;
    }
    proof {
        assert(fields@.subrange(0, fields@.len() as int) =~= fields@);
    }
    Value::Array(items)
}

/// Render a field list to its storage text.
pub fn fields_to_text(fields: &Vec<Field>) -> (r: String)
    ensures
        r@ == render_value(fields_repr(spec_fields(fields@))),
{
    let v = fields_to_value(fields);
    value_to_text(&v)
}

/// Read one field back out of a value.
fn field_from_value(v: &Value) -> (r: Result<Field, ValueStoreError>)
    ensures
        match r {
            Ok(f) => spec_field_of(v@) == Ok::<SpecField, ValueStoreError>(f@),
            Err(e) => spec_field_of(v@) == Err::<SpecField, ValueStoreError>(e),
        },
{
    proof {
        reveal_strlit("name");
        reveal_strlit("field_type");
        reveal_strlit("required");
        reveal_strlit("default");
        reveal_strlit("string");
        reveal_strlit("number");
        reveal_strlit("boolean");
        reveal_strlit("array");
        reveal_strlit("object");
        assert(("name")@ =~= key_name());
        assert(("field_type")@ =~= key_field_type());
        assert(("required")@ =~= key_required());
        assert(("default")@ =~= key_default());
        assert(("string")@ =~= type_tag(FieldType::String));
        assert(("number")@ =~= type_tag(FieldType::Number));
        assert(("boolean")@ =~= type_tag(FieldType::Boolean));
        assert(("array")@ =~= type_tag(FieldType::Array));
        assert(("object")@ =~= type_tag(FieldType::Object));
    }
    let es = match v {
        Value::Object(es) => es,
        _ => {
            return Err(ValueStoreError::NotAnObject);
        },
    };
    let name = match find_entry(es, "name") {
        Some(i) => {
            proof {
                lemma_spec_entries_index(es@, i as int);
            }
            match &es[i].1 {
                Value::String(s) => s.clone(),
                _ => {
                    return Err(ValueStoreError::CannotConvertFromValue);
                },
            }
        },
        None => {
            return Err(ValueStoreError::CannotConvertFromValue);
        },
    };
    let tag = match find_entry(es, "field_type") {
        Some(i) => {
            proof {
                lemma_spec_entries_index(es@, i as int);
            }
            match &es[i].1 {
                Value::String(s) => s.clone(),
                _ => {
                    return Err(ValueStoreError::CannotConvertFromValue);
                },
            }
        },
        None => {
            return Err(ValueStoreError::CannotConvertFromValue);
        },
    };
    let required = match find_entry(es, "required") {
        Some(i) => {
            proof {
                lemma_spec_entries_index(es@, i as int);
            }
            match &es[i].1 {
                Value::Boolean(b) => *b,
                _ => {
                    return Err(ValueStoreError::CannotConvertFromValue);
                },
            }
        },
        None => {
            return Err(ValueStoreError::CannotConvertFromValue);
        },
    };
    let default = match find_entry(es, "default") {
        Some(i) => {
            proof {
                lemma_spec_entries_index(es@, i as int);
            }
            crate::value::clone_value(&es[i].1)
        },
        None => {
            return Err(ValueStoreError::CannotConvertFromValue);
        },
    };
    let field_type = if str_eq(tag.as_str(), "string") {
        FieldType::String
    } else if str_eq(tag.as_str(), "number") {
        FieldType::Number
    } else if str_eq(tag.as_str(), "boolean") {
        FieldType::Boolean
    } else if str_eq(tag.as_str(), "array") {
        FieldType::Array
    } else if str_eq(tag.as_str(), "object") {
        FieldType::Object
    } else {
        return Err(ValueStoreError::CannotConvertFromValue);
    };
    Ok(Field { name, field_type, required, default })
}

/// Read a field list back out of a value.
#[verifier::loop_isolation(false)]
pub fn fields_from_value(v: &Value) -> (r: Result<Vec<Field>, ValueStoreError>)
    ensures
        match r {
            Ok(fs) => spec_fields_of(v@) == Ok::<Seq<SpecField>, ValueStoreError>(
                spec_fields(fs@),
            ),
            Err(e) => spec_fields_of(v@) == Err::<Seq<SpecField>, ValueStoreError>(e),
        },
{
    let items = match v {
        Value::Array(items) => items,
        _ => {
            return Err(ValueStoreError::NotAnArray);
        },
    };
    proof {
        assert(v@ == SpecValue::Array(spec_items(items@)));
    }
    let mut out: Vec<Field> = Vec::new();
    let n = items.len();
    let mut i: usize = 0;
    while i < n
        invariant
            i <= n,
            n == items@.len(),
            spec_fields_of_items(spec_items(items@.subrange(0, i as int))) == Ok::<
                Seq<SpecField>,
                ValueStoreError,
            >(spec_fields(out@)),
        decreases n - i,
    {
        proof {
            assert(items@.subrange(0, i + 1) =~= items@.subrange(0, i as int).push(
                items@[i as int],
            ));
            lemma_spec_items_push(items@.subrange(0, i as int), items@[i as int]);
            assert(spec_items(items@.subrange(0, i + 1)).drop_last() =~= spec_items(
                items@.subrange(0, i as int),
            ));
        }
        match field_from_value(&items[i]) {
            Ok(f) => {
                let ghost prev = out@;
                out.push(f);
                proof {
                    crate::fields::lemma_spec_fields_push(prev, out@.last());
                }
            },
            Err(e) => {
                proof {
                    assert(spec_fields_of_items(spec_items(items@.subrange(0, i + 1)))
                        == Err::<Seq<SpecField>, ValueStoreError>(e));
                    lemma_items_err_prefix(items@, i + 1, e);
                }
                return Err(e);
            },
        }
        i = i + 1;
    }
    proof {
        assert(items@.subrange(0, items@.len() as int) =~= items@);
    }
    Ok(out)
}

/// Parse a rendered field list back from its storage text.
pub fn fields_from_text(s: &str) -> (r: Result<Vec<Field>, ValueStoreError>)
    ensures
        match r {
            Ok(fs) => (parse_text(s@) matches Some(v) && spec_fields_of(v) == Ok::<
                Seq<SpecField>,
                ValueStoreError,
            >(spec_fields(fs@))),
            Err(e) => (parse_text(s@) is None && e == ValueStoreError::NotAnArray) || (parse_text(
                s@,
            ) matches Some(v) && spec_fields_of(v) == Err::<Seq<SpecField>, ValueStoreError>(e)),
        },
{
    match value_from_text(s) {
        Some(v) => fields_from_value(&v),
        None => Err(ValueStoreError::NotAnArray),
    }
}

/// A schema rebuilt from one persisted row: its assigned identifier,
/// its name and its parsed field list.
pub fn schema_from_row(id: i64, name: &str, fields_text: &str) -> (r: Result<
    Schema,
    ValueStoreError,
>)
    ensures
        match r {
            Ok(s) => s@.id == Some(id) && s@.name == name@ && (parse_text(fields_text@)
                matches Some(v) && spec_fields_of(v) == Ok::<Seq<SpecField>, ValueStoreError>(
                s@.fields,
            )),
            Err(e) => (parse_text(fields_text@) is None && e == ValueStoreError::NotAnArray) || (
            parse_text(fields_text@) matches Some(v) && spec_fields_of(v) == Err::<
                Seq<SpecField>,
                ValueStoreError,
            >(e)),
        },
{
    let fields = fields_from_text(fields_text)?;
    let mut schema = Schema::create(name, fields);
    schema.set_id(id);
    Ok(schema)
}

/// Law: a field list's serialized form parses back to exactly the
/// list.  Rendering, parsing the text, and reading the fields out of
/// the parsed value loses nothing.
pub proof fn lemma_fields_text_roundtrip(fs: Seq<SpecField>)
    ensures
        parse_text(render_value(fields_repr(fs))) == Some(fields_repr(fs)),
        spec_fields_of(fields_repr(fs)) == Ok::<Seq<SpecField>, ValueStoreError>(fs),
{
    crate::codec::lemma_value_text_roundtrip(fields_repr(fs));
    lemma_fields_of_items_inverse(fs);
}

/// A failing prefix decides the whole read-back.
proof fn lemma_items_err_prefix(items: Seq<Value>, k: int, e: ValueStoreError)
    requires
        0 <= k <= items.len(),
        spec_fields_of_items(spec_items(items.subrange(0, k))) == Err::<
            Seq<SpecField>,
            ValueStoreError,
        >(e),
    ensures
        spec_fields_of_items(spec_items(items)) == Err::<Seq<SpecField>, ValueStoreError>(e),
    decreases items.len() - k,
{
    if k < items.len() {
        assert(items.subrange(0, k + 1) =~= items.subrange(0, k).push(items[k]));
        lemma_spec_items_push(items.subrange(0, k), items[k]);
        assert(spec_items(items.subrange(0, k + 1)).drop_last() =~= spec_items(
            items.subrange(0, k),
        ));
        lemma_items_err_prefix(items, k + 1, e);
    } else {
        assert(items.subrange(0, k) =~= items);
    }
}

/// Reading items back one by one is the identity.
proof fn lemma_fields_of_items_inverse(fs: Seq<SpecField>)
    ensures
        spec_fields_of_items(fields_repr_items(fs)) == Ok::<Seq<SpecField>, ValueStoreError>(fs),
    decreases fs.len(),
{
    if fs.len() == 0 {
        assert(fs =~= Seq::<SpecField>::empty());
        assert(fields_repr_items(fs) =~= Seq::<SpecValue>::empty());
        assert(spec_fields_of_items(Seq::<SpecValue>::empty()) == Ok::<
            Seq<SpecField>,
            ValueStoreError,
        >(Seq::empty()));
    } else {
        lemma_fields_of_items_inverse(fs.drop_last());
        assert(fields_repr_items(fs).len() == fields_repr_items(fs.drop_last()).len() + 1);
        assert(fields_repr_items(fs).drop_last() =~= fields_repr_items(fs.drop_last()));
        assert(fields_repr_items(fs).last() == field_repr(fs.last()));
        lemma_field_of_inverse(fs.last());
        assert(fs.drop_last().push(fs.last()) =~= fs);
    }
}

/// Reading one field back is the identity.
proof fn lemma_field_of_inverse(f: SpecField)
    ensures
        spec_field_of(field_repr(f)) == Ok::<SpecField, ValueStoreError>(f),
{
    let es = (match field_repr(f) {
        SpecValue::Object(es) => es,
        _ => Seq::empty(),
    });
    assert(key_name().len() == 4);
    assert(key_field_type().len() == 10);
    assert(key_required().len() == 8);
    assert(key_default().len() == 7);
    assert(es.len() == 4);
    assert(es.first() == es[0]);
    assert(es.drop_first().first() == es[1]);
    assert(es.drop_first().drop_first().first() == es[2]);
    assert(es.drop_first().drop_first().drop_first().first() == es[3]);
    assert(sv_obj_get(es, key_name()) == Some(es[0].1));
    assert(sv_obj_get(es.drop_first(), key_field_type()) == Some(es[1].1));
    assert(sv_obj_get(es, key_field_type()) == Some(es[1].1));
    assert(sv_obj_get(es.drop_first().drop_first(), key_required()) == Some(es[2].1));
    assert(sv_obj_get(es.drop_first(), key_required()) == Some(es[2].1));
    assert(sv_obj_get(es, key_required()) == Some(es[2].1));
    assert(sv_obj_get(es.drop_first().drop_first().drop_first(), key_default()) == Some(es[3].1));
    assert(sv_obj_get(es.drop_first().drop_first(), key_default()) == Some(es[3].1));
    assert(sv_obj_get(es.drop_first(), key_default()) == Some(es[3].1));
    assert(sv_obj_get(es, key_default()) == Some(es[3].1));
    lemma_type_tags_distinct(f.field_type);
}

/// The five type tags are pairwise distinct, so a tag names exactly
/// its own type.
proof fn lemma_type_tags_distinct(t: FieldType)
    ensures
        type_of_tag(type_tag(t)) == Some(t),
{
    assert(type_tag(FieldType::String)[0] == 's');
    assert(type_tag(FieldType::Number)[0] == 'n');
    assert(type_tag(FieldType::Boolean)[0] == 'b');
    assert(type_tag(FieldType::Array)[0] == 'a');
    assert(type_tag(FieldType::Object)[0] == 'o');
    assert(type_tag(FieldType::String).len() == 6);
    assert(type_tag(FieldType::Number).len() == 6);
    assert(type_tag(FieldType::Boolean).len() == 7);
    assert(type_tag(FieldType::Array).len() == 5);
    assert(type_tag(FieldType::Object).len() == 6);
}

/// The storage action that persisting a registered schema requires:
/// an update when storage already assigned it an identifier, else a
/// creation whose new identifier the caller reports back.
#[derive(Debug)]
pub enum FinalizeAction {
    Update { id: i64, name: String, fields_text: String },
    Create { name: String, fields_text: String },
}

/// Failure of a registry-level operation.
#[derive(Debug)]
pub enum RegistryError {
    SchemaNotFound(String),
}

impl Registry {
    /// Decide how a registered schema is persisted; the caller issues
    /// the storage call and, after a creation, records the new
    /// identifier on the schema itself.
    pub fn finalize_action(&self, name: &str) -> (r: Result<FinalizeAction, RegistryError>)
        ensures
            match r {
                Ok(a) => (reg_get(self@, name@) matches Some(sch) && (match a {
                    FinalizeAction::Update { id, name: n, fields_text } => sch.id == Some(id)
                        && n@ == name@ && fields_text@ == render_value(fields_repr(sch.fields)),
                    FinalizeAction::Create { name: n, fields_text } => sch.id is None && n@
                        == name@ && fields_text@ == render_value(fields_repr(sch.fields)),
                })),
                Err(e) => reg_get(self@, name@) is None && (e matches RegistryError::SchemaNotFound(
                    n,
                ) && n@ == name@),
            },
    {
        let schema = match self.get_schema(name) {
            Some(s) => s,
            None => {
                return Err(RegistryError::SchemaNotFound(name.to_owned()));
            },
        };
        let fields_text = fields_to_text(&schema.fields);
        match schema.id() {
            Some(id) => Ok(FinalizeAction::Update { id, name: name.to_owned(), fields_text }),
            None => Ok(FinalizeAction::Create { name: name.to_owned(), fields_text }),
        }
    }
}

/// What a fetch from schema storage hands back: every row, or the
/// one row asked for.
#[derive(Debug)]
pub enum Schemas {
    Bulk(Vec<Schema>),
    Single(Schema),
}

/// Payload for creating a schema row.
#[derive(Debug)]
pub struct SchemaRegisterPayload {
    pub name: String,
    pub fields: Vec<Field>,
}

impl SchemaRegisterPayload {
    /// The schema's name.
    pub fn name(&self) -> (r: &str)
        ensures
            r@ == self.name@,
    {
        self.name.as_str()
    }

    /// The field list, serialized for the text column.
    pub fn fields(&self) -> (r: String)
        ensures
            r@ == render_value(fields_repr(spec_fields(self.fields@))),
    {
        fields_to_text(&self.fields)
    }
}

/// Payload for updating a schema row.
#[derive(Debug)]
pub struct SchemaUpdatePayload {
    pub id: i64,
    pub name: Option<String>,
    pub fields: Option<Vec<Field>>,
}

impl SchemaUpdatePayload {
    /// The row to update.
    pub fn id(&self) -> (r: i64)
        ensures
            r == self.id,
    {
        self.id
    }

    /// The new name, if the name changes.
    pub fn name(&self) -> (r: Option<&str>)
        ensures
            match r {
                Some(n) => self.name matches Some(m) && n@ == m@,
                None => self.name is None,
            },
    {
        match &self.name {
            Some(n) => Some(n.as_str()),
            None => None,
        }
    }

    /// The new field list, serialized, if the fields change.
    pub fn fields(&self) -> (r: Option<String>)
        ensures
            match r {
                Some(t) => self.fields matches Some(fs) && t@ == render_value(
                    fields_repr(spec_fields(fs@)),
                ),
                None => self.fields is None,
            },
    {
        match &self.fields {
            Some(fs) => Some(fields_to_text(fs)),
            None => None,
        }
    }
}

/// Payload for fetching one schema row or all of them.
#[derive(Debug)]
pub struct SchemaGetPayload {
    pub id: Option<i64>,
}

impl SchemaGetPayload {
    /// The row to fetch; absent to fetch all rows.
    pub fn id(&self) -> (r: Option<i64>)
        ensures
            r == self.id,
    {
        self.id
    }
}

/// Payload for deleting a schema row.
#[derive(Debug)]
pub struct SchemaDeletePayload {
    pub id: i64,
}

impl SchemaDeletePayload {
    /// The row to delete.
    pub fn id(&self) -> (r: i64)
        ensures
            r == self.id,
    {
        self.id
    }
}

} // verus!
