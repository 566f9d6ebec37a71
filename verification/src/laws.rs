//! Library-wide laws, each proved once and for all inputs.  The
//! round-trip laws for the textual encoding live beside the codec
//! (`lemma_value_text_roundtrip`) and the store
//! (`lemma_store_text_roundtrip`).

use vstd::prelude::*;

use crate::fields::{spec_type_valid, FieldType, SpecField};
use crate::ledger::{more_recent, spec_last, spec_last_total, Record};
use crate::schema::SpecSchema;
use crate::store_builder::sb_put;
use crate::validator::{spec_validate_fields, spec_validate_props, SpecVErr};
use crate::value::{lemma_obj_get_after_push, sv_obj_get, SpecValue};

verus! {

/// Law: the builder's first write to a key wins.  Writing a key that
/// is already set changes nothing, so the first value written under a
/// key is the one found in the built store.
pub proof fn lemma_builder_first_write_wins(
    es: Seq<(Seq<char>, SpecValue)>,
    k: Seq<char>,
    v1: SpecValue,
    v2: SpecValue,
)
    ensures
        sb_put(sb_put(es, k, v1), k, v2) == sb_put(es, k, v1),
        sv_obj_get(es, k) is None ==> sv_obj_get(sb_put(es, k, v1), k) == Some(v1),
        sv_obj_get(es, k) matches Some(v0) ==> sv_obj_get(sb_put(es, k, v1), k) == Some(v0),
{
    if sv_obj_get(es, k) is None {
        lemma_obj_get_after_push(es, k, v1);
    }
}

/// Law: a value satisfies a field type exactly when its tag is the
/// one the type names, and the null value satisfies no type at all.
pub proof fn lemma_null_never_valid(t: FieldType)
    ensures
        !spec_type_valid(t, SpecValue::Null),
{
}

/// One field's check against a store, in isolation.
pub open spec fn spec_field_passes(f: SpecField, values: Seq<(Seq<char>, SpecValue)>) -> bool {
    match sv_obj_get(values, f.name) {
        None => false,
        Some(v) => !(f.required && v is Null) && ((v is Null) || spec_type_valid(f.field_type, v)),
    }
}

/// Law: a field absent from the store fails the field pass with
/// `MissingField`, provided every earlier field passes.  Absence is
/// distinct from a present null.
pub proof fn lemma_validator_missing_field(
    fields: Seq<SpecField>,
    values: Seq<(Seq<char>, SpecValue)>,
    i: int,
)
    requires
        0 <= i < fields.len(),
        sv_obj_get(values, fields[i].name) is None,
        forall|j: int| 0 <= j < i ==> spec_field_passes(#[trigger] fields[j], values),
    ensures
        spec_validate_fields(fields, values) == Err::<(), SpecVErr>(
            SpecVErr::MissingField(fields[i].name),
        ),
    decreases i,
{
    if i == 0 {
        assert(fields.first() == fields[0]);
    } else {
        assert(fields.first() == fields[0]);
        assert(spec_field_passes(fields[0], values));
        assert(forall|j: int| 0 <= j < i - 1 ==> spec_field_passes(
            #[trigger] fields.drop_first()[j],
            values,
        ));
        assert(fields.drop_first()[i - 1] == fields[i]);
        lemma_validator_missing_field(fields.drop_first(), values, i - 1);
    }
}

/// Law: a required field present but null fails the field pass with
/// `RequiredFieldMissing`, provided every earlier field passes.
pub proof fn lemma_validator_required_null(
    fields: Seq<SpecField>,
    values: Seq<(Seq<char>, SpecValue)>,
    i: int,
)
    requires
        0 <= i < fields.len(),
        sv_obj_get(values, fields[i].name) == Some(SpecValue::Null),
        fields[i].required,
        forall|j: int| 0 <= j < i ==> spec_field_passes(#[trigger] fields[j], values),
    ensures
        spec_validate_fields(fields, values) == Err::<(), SpecVErr>(
            SpecVErr::RequiredFieldMissing(fields[i].name),
        ),
    decreases i,
{
    if i == 0 {
        assert(fields.first() == fields[0]);
    } else {
        assert(fields.first() == fields[0]);
        assert(spec_field_passes(fields[0], values));
        assert(forall|j: int| 0 <= j < i - 1 ==> spec_field_passes(
            #[trigger] fields.drop_first()[j],
            values,
        ));
        assert(fields.drop_first()[i - 1] == fields[i]);
        lemma_validator_required_null(fields.drop_first(), values, i - 1);
    }
}

/// Law: declaring a nested schema for a key the store does not set
/// changes nothing about validation — the declared entry is skipped,
/// not failed.
pub proof fn lemma_nested_skip_if_absent(
    reg: Seq<(Seq<char>, SpecSchema)>,
    rem: Seq<(Seq<char>, Seq<char>)>,
    full: Seq<(Seq<char>, Seq<char>)>,
    values: Seq<(Seq<char>, SpecValue)>,
    k: Seq<char>,
    sname: Seq<char>,
)
    requires
        sv_obj_get(values, k) is None,
    ensures
        spec_validate_props(reg, rem.push((k, sname)), full, values) == spec_validate_props(
            reg,
            rem,
            full,
            values,
        ),
    decreases rem.len(),
{
    let w = rem.push((k, sname));
    if rem.len() == 0 {
        assert(w.first() == (k, sname));
        assert(w.drop_first() =~= Seq::<(Seq<char>, Seq<char>)>::empty());
        assert(spec_validate_props(reg, w, full, values) == spec_validate_props(
            reg,
            w.drop_first(),
            full,
            values,
        ));
    } else {
        assert(w.first() == rem.first());
        assert(w.drop_first() =~= rem.drop_first().push((k, sname)));
        lemma_nested_skip_if_absent(reg, rem.drop_first(), full, values, k, sname);
    }
}

/// Law: the most recent record of an item belongs to the item and is
/// one of the stored rows; without any row of the item there is none.
pub proof fn lemma_spec_last_props(rs: Seq<Record>, item_id: i64)
    ensures
        match spec_last(rs, item_id) {
            Some(b) => b.item_id == item_id && (exists|j: int|
                0 <= j < rs.len() && rs[j] == b),
            None => forall|j: int| 0 <= j < rs.len() ==> (#[trigger] rs[j]).item_id != item_id,
        },
    decreases rs.len(),
{
    if rs.len() > 0 {
        lemma_spec_last_props(rs.drop_last(), item_id);
        match spec_last(rs, item_id) {
            Some(b) => {
                if rs.last().item_id == item_id && b == rs.last() {
                    assert(rs[rs.len() - 1] == b);
                } else {
                    assert(spec_last(rs.drop_last(), item_id) == Some(b));
                    let j = choose|j: int|
                        0 <= j < rs.drop_last().len() && rs.drop_last()[j] == b;
                    assert(rs.drop_last()[j] == rs[j]);
                    assert(rs[j] == b);
                }
            },
            None => {
                assert(rs.last().item_id != item_id);
                assert forall|j: int| 0 <= j < rs.len() implies (#[trigger] rs[j]).item_id
                    != item_id by {
                    if j < rs.len() - 1 {
                        assert(rs.drop_last()[j] == rs[j]);
                    } else {
                        assert(rs[j] == rs.last());
                    }
                }
            },
        }
    }
}

/// Law: the ledger total is a running balance.  A record dated after
/// every stored row of its item becomes the item's most recent row,
/// so the running total read back is exactly the total the appending
/// movement computed.
pub proof fn lemma_new_record_becomes_last(rs: Seq<Record>, rec: Record)
    requires
        forall|j: int|
            0 <= j < rs.len() && (#[trigger] rs[j]).item_id == rec.item_id ==> more_recent(
                rec,
                rs[j],
            ),
    ensures
        spec_last(rs.push(rec), rec.item_id) == Some(rec),
        spec_last_total(rs.push(rec), rec.item_id) == rec.total,
{
    assert(rs.push(rec).last() == rec);
    assert(rs.push(rec).drop_last() =~= rs);
    lemma_spec_last_props(rs, rec.item_id);
    match spec_last(rs, rec.item_id) {
        Some(b) => {
            let j = choose|j: int| 0 <= j < rs.len() && rs[j] == b;
            assert(more_recent(rec, b));
        },
        None => {},
    }
}

} // verus!
