//! The laws the key subsystem guarantees, stated and proved over the
//! encoding and classification specifications.

use vstd::prelude::*;

use crate::descriptor::TopicDescriptor;
use crate::encode::enc_fields_from;
use crate::encode::enc_value;
use crate::encode::header_bytes;
use crate::encode::key_encoding;
use crate::encode::key_vals;
use crate::holder::DeriveError;
use crate::holder::HolderField;
use crate::holder::HolderFieldType;
use crate::holder::KeyHolderSchema;
use crate::holder::derive_status;
use crate::holder::field_ty_var_len;
use crate::holder::fields_var_len;
use crate::holder::holder_index;
use crate::holder::holder_tys;
use crate::holder::lemma_derive_status_resolves_key_fields;
use crate::holder::lemma_fields_var_len_exists;
use crate::holder::lemma_holder_index_char;
use crate::holder::lemma_holder_index_prefix;
use crate::holder::resolve_field;
use crate::schema::ElementType;
use crate::schema::FieldDescriptor;
use crate::schema::FieldType;
use crate::schema::KeyMarker;
use crate::schema::key_fields_of;
use crate::value::FieldValue;
use crate::value::InstanceValue;

verus! {

/// Determinism: the key encoding is a pure function of the registry and
/// the instance's key field values. Two instances whose key values
/// agree — in particular, two logically identical instances — encode to
/// byte-identical sequences, however often the encoding is repeated.
pub proof fn lemma_key_encoding_deterministic(
    reg: Seq<KeyHolderSchema>,
    i: int,
    a: InstanceValue,
    b: InstanceValue,
)
    requires
        key_vals(reg[i], a) == key_vals(reg[i], b),
    ensures
        key_encoding(reg, i, a) == key_encoding(reg, i, b),
{
}

/// Empty key: a type whose derived holder schema has no fields encodes
/// every instance as exactly the 4-byte encapsulation header, with no
/// payload.
pub proof fn lemma_empty_key_encodes_header_only(
    reg: Seq<KeyHolderSchema>,
    i: int,
    inst: InstanceValue,
)
    requires
        0 <= i < reg.len(),
        reg[i].fields@.len() == 0,
    ensures
        key_encoding(reg, i, inst) == header_bytes(),
        key_encoding(reg, i, inst).len() == 4,
{
    assert(enc_fields_from(reg, i, 0, key_vals(reg[i], inst), 0) =~= Seq::<u8>::empty());
    assert(header_bytes() + Seq::<u8>::empty() =~= header_bytes());
}

/// Empty key, at the descriptor: a type whose holder schema has no
/// fields — the same condition under which `has_key` answers false —
/// encodes every instance as the bare encapsulation header.
pub proof fn lemma_descriptor_empty_key(d: TopicDescriptor, inst: InstanceValue)
    requires
        d.wf(),
        d.top_schema().fields@.len() == 0,
    ensures
        d.key_encoding_of(inst) == header_bytes(),
{
    lemma_empty_key_encodes_header_only(d.registry_view(), d.top_index(), inst);
}

/// Digest trigger, one direction: a holder schema with a key field of
/// dynamic text or sequence type is classified variable in length, so
/// the forced-digest flag is set.
pub proof fn lemma_dynamic_key_field_forces_digest(reg: Seq<KeyHolderSchema>, i: int, k: int)
    requires
        0 <= i < reg.len(),
        0 <= k < reg[i].fields@.len(),
        reg[i].fields@[k].ty == HolderFieldType::Text || reg[i].fields@[k].ty is PrimSequence,
    ensures
        fields_var_len(reg, i, 0),
{
    lemma_fields_var_len_exists(reg, i, 0);
    assert(field_ty_var_len(reg, i, (reg[i].fields@[k]).ty));
}

/// Digest trigger, the other direction: a holder schema whose fields
/// are all fixed-width — primitives, enum ordinals, fixed arrays of
/// primitives — is never classified variable in length, so the
/// forced-digest flag stays clear.
pub proof fn lemma_fixed_width_key_fields_never_digest(reg: Seq<KeyHolderSchema>, i: int)
    requires
        0 <= i < reg.len(),
        forall|k: int|
            0 <= k < reg[i].fields@.len() ==> match (#[trigger] reg[i].fields@[k]).ty {
                HolderFieldType::Primitive(_) => true,
                HolderFieldType::EnumOrdinal => true,
                HolderFieldType::PrimArray(_, _) => true,
                _ => false,
            },
    ensures
        !fields_var_len(reg, i, 0),
{
    lemma_fields_var_len_exists(reg, i, 0);
    assert forall|m: int| 0 <= m < reg[i].fields@.len() implies !field_ty_var_len(
        reg,
        i,
        (#[trigger] reg[i].fields@[m]).ty,
    ) by {
        match reg[i].fields@[m].ty {
            HolderFieldType::Primitive(_) => {},
            HolderFieldType::EnumOrdinal => {},
            HolderFieldType::PrimArray(_, _) => {},
            _ => {
                assert(false);
            },
        }
    }
}

/// A key-marked source field of dynamic text or sequence type survives
/// derivation as a dynamic holder field.
pub proof fn lemma_dynamic_source_key_in_holder(
    reg: Seq<KeyHolderSchema>,
    fields: Seq<FieldDescriptor>,
    i: int,
    hs: Seq<HolderField>,
    k: int,
)
    requires
        derive_status(reg, fields, i) == Ok::<Seq<HolderField>, DeriveError>(hs),
        0 <= k < i,
        fields[k].marker == KeyMarker::Key,
        fields[k].ty == FieldType::Text || fields[k].ty matches FieldType::Sequence(
            ElementType::Primitive(_),
        ),
    ensures
        exists|m: int|
            0 <= m < hs.len() && ((#[trigger] hs[m]).ty == HolderFieldType::Text
                || hs[m].ty is PrimSequence),
    decreases i,
{
    match derive_status(reg, fields, i - 1) {
        Err(_) => {
            assert(false);
        },
        Ok(prev) => {
            let f = fields[i - 1];
            if k == i - 1 {
                match resolve_field(reg, f) {
                    Err(_) => {
                        assert(false);
                    },
                    Ok(t) => {
                        let hf = HolderField { src_index: (i - 1) as usize, ty: t };
                        assert(hs == prev.push(hf));
                        assert(hs[prev.len() as int] == hf);
                        assert(t == HolderFieldType::Text || t is PrimSequence);
                        assert(0 <= prev.len() < hs.len() && (hs[prev.len() as int].ty
                            == HolderFieldType::Text || hs[prev.len() as int].ty
                            is PrimSequence));
                    },
                }
            } else {
                lemma_dynamic_source_key_in_holder(reg, fields, i - 1, prev, k);
                let m = choose|m: int|
                    0 <= m < prev.len() && ((#[trigger] prev[m]).ty == HolderFieldType::Text
                        || prev[m].ty is PrimSequence);
                assert(hs[m] == prev[m]);
                assert(0 <= m < hs.len() && (hs[m].ty == HolderFieldType::Text || hs[m].ty
                    is PrimSequence));
            }
        },
    }
}

/// When every key-marked source field is fixed-width — a key enum, a
/// primitive, or a fixed array of primitives — every derived holder
/// field is fixed-width too.
pub proof fn lemma_fixed_width_source_keys_in_holder(
    reg: Seq<KeyHolderSchema>,
    fields: Seq<FieldDescriptor>,
    i: int,
    hs: Seq<HolderField>,
)
    requires
        0 <= i,
        derive_status(reg, fields, i) == Ok::<Seq<HolderField>, DeriveError>(hs),
        forall|k: int|
            0 <= k < i && (#[trigger] fields[k]).marker != KeyMarker::NotKey ==> (fields[k].marker
                == KeyMarker::KeyEnum || fields[k].ty is Primitive || fields[k].ty
                matches FieldType::FixedArray(ElementType::Primitive(_), _)),
    ensures
        forall|m: int|
            0 <= m < hs.len() ==> match (#[trigger] hs[m]).ty {
                HolderFieldType::Primitive(_) => true,
                HolderFieldType::EnumOrdinal => true,
                HolderFieldType::PrimArray(_, _) => true,
                _ => false,
            },
    decreases i,
{
    if i > 0 {
        match derive_status(reg, fields, i - 1) {
            Err(_) => {
                assert(false);
            },
            Ok(prev) => {
                lemma_fixed_width_source_keys_in_holder(reg, fields, i - 1, prev);
                let f = fields[i - 1];
                if f.marker != KeyMarker::NotKey {
                    match resolve_field(reg, f) {
                        Err(_) => {
                            assert(false);
                        },
                        Ok(t) => {
                            let hf = HolderField { src_index: (i - 1) as usize, ty: t };
                            assert(hs == prev.push(hf));
                            assert forall|m: int| 0 <= m < hs.len() implies match (
                            #[trigger] hs[m]).ty {
                                HolderFieldType::Primitive(_) => true,
                                HolderFieldType::EnumOrdinal => true,
                                HolderFieldType::PrimArray(_, _) => true,
                                _ => false,
                            } by {
                                if m < prev.len() {
                                    assert(hs[m] == prev[m]);
                                } else {
                                    assert(hs[m] == hf);
                                }
                            }
                        },
                    }
                }
            },
        }
    }
}

/// Digest trigger, stated at the source schema: a type derived with a
/// key-marked field of dynamic text or sequence type has its
/// forced-digest flag set.
pub proof fn lemma_descriptor_dynamic_key_forces_digest(
    d: TopicDescriptor,
    reg0: Seq<KeyHolderSchema>,
    fields: Seq<FieldDescriptor>,
    k: int,
)
    requires
        d.wf(),
        derive_status(reg0, fields, fields.len() as int) == Ok::<Seq<HolderField>, DeriveError>(
            d.top_schema().fields@,
        ),
        0 <= k < fields.len(),
        fields[k].marker == KeyMarker::Key,
        fields[k].ty == FieldType::Text || fields[k].ty matches FieldType::Sequence(
            ElementType::Primitive(_),
        ),
    ensures
        fields_var_len(d.registry_view(), d.top_index(), 0),
{
    let hs = d.top_schema().fields@;
    lemma_dynamic_source_key_in_holder(reg0, fields, fields.len() as int, hs, k);
    let m = choose|m: int|
        0 <= m < hs.len() && ((#[trigger] hs[m]).ty == HolderFieldType::Text || hs[m].ty
            is PrimSequence);
    lemma_dynamic_key_field_forces_digest(d.registry_view(), d.top_index(), m);
}

/// Digest trigger, the other direction at the source schema: a type
/// whose key-marked fields are all fixed-width never has its
/// forced-digest flag set.
pub proof fn lemma_descriptor_fixed_width_keys_never_digest(
    d: TopicDescriptor,
    reg0: Seq<KeyHolderSchema>,
    fields: Seq<FieldDescriptor>,
)
    requires
        d.wf(),
        derive_status(reg0, fields, fields.len() as int) == Ok::<Seq<HolderField>, DeriveError>(
            d.top_schema().fields@,
        ),
        forall|k: int|
            0 <= k < fields.len() && (#[trigger] fields[k]).marker != KeyMarker::NotKey ==> (
            fields[k].marker == KeyMarker::KeyEnum || fields[k].ty is Primitive
                || fields[k].ty matches FieldType::FixedArray(ElementType::Primitive(_), _)),
    ensures
        !fields_var_len(d.registry_view(), d.top_index(), 0),
{
    lemma_fixed_width_source_keys_in_holder(
        reg0,
        fields,
        fields.len() as int,
        d.top_schema().fields@,
    );
    lemma_fixed_width_key_fields_never_digest(d.registry_view(), d.top_index());
}

/// Encoding reads only the entries up to the current schema and the
/// extracted key values, so two registries that agree there encode
/// alike.
pub proof fn lemma_enc_fields_agrees(
    rega: Seq<KeyHolderSchema>,
    regb: Seq<KeyHolderSchema>,
    i: int,
    k: int,
    vals: Seq<FieldValue>,
    off: nat,
)
    requires
        0 <= i < rega.len(),
        i < regb.len(),
        forall|j: int| 0 <= j < i ==> rega[j] == regb[j],
        rega[i].fields@.len() == regb[i].fields@.len(),
        forall|f: int|
            0 <= f < rega[i].fields@.len() ==> (#[trigger] rega[i].fields@[f]).ty
                == regb[i].fields@[f].ty,
    ensures
        enc_fields_from(rega, i, k, vals, off) == enc_fields_from(regb, i, k, vals, off),
    decreases i, rega[i].fields@.len() - k + 1, 1int,
{
    if 0 <= k < rega[i].fields@.len() && vals.len() == rega[i].fields@.len() {
        lemma_enc_value_agrees(rega, regb, i, rega[i].fields@[k].ty, vals[k], off);
        let b = enc_value(rega, i, rega[i].fields@[k].ty, vals[k], off);
        lemma_enc_fields_agrees(rega, regb, i, k + 1, vals, off + b.len());
    }
}

/// Companion of `lemma_enc_fields_agrees` for one key value.
pub proof fn lemma_enc_value_agrees(
    rega: Seq<KeyHolderSchema>,
    regb: Seq<KeyHolderSchema>,
    i: int,
    ty: HolderFieldType,
    v: FieldValue,
    off: nat,
)
    requires
        0 <= i < rega.len(),
        i < regb.len(),
        forall|j: int| 0 <= j < i ==> rega[j] == regb[j],
    ensures
        enc_value(rega, i, ty, v, off) == enc_value(regb, i, ty, v, off),
    decreases i, 0int, 0int,
{
    match (ty, v) {
        (HolderFieldType::Nested(id), FieldValue::Struct(inner)) => {
            let ja = holder_index(rega, id);
            let jb = holder_index(regb, id);
            lemma_holder_index_char(rega, id);
            lemma_holder_index_char(regb, id);
            if 0 <= ja < i {
                lemma_holder_index_prefix(rega, regb, id, i);
                assert(rega[ja] == regb[ja]);
                lemma_enc_fields_agrees(rega, regb, ja, 0, key_vals(rega[ja], inner), off);
            } else {
                if 0 <= jb < i {
                    lemma_holder_index_prefix(regb, rega, id, i);
                    assert(false);
                }
            }
        },
        _ => {},
    }
}

/// Order stability: the key encoding follows the key-field declaration
/// order alone. Take two holder schemas derived against the same nested
/// registry whose field types agree position for position — as happens
/// when only the non-key fields of the source type were changed or
/// reordered, which alters nothing but the recorded source positions.
/// Instances whose extracted key values agree then encode to identical
/// key bytes.
pub proof fn lemma_key_layout_order_stable(
    common: Seq<KeyHolderSchema>,
    h1: KeyHolderSchema,
    h2: KeyHolderSchema,
    inst1: InstanceValue,
    inst2: InstanceValue,
)
    requires
        h1.fields@.len() == h2.fields@.len(),
        forall|f: int|
            0 <= f < h1.fields@.len() ==> (#[trigger] h1.fields@[f]).ty == h2.fields@[f].ty,
        key_vals(h1, inst1) == key_vals(h2, inst2),
    ensures
        key_encoding(common.push(h1), common.len() as int, inst1) == key_encoding(
            common.push(h2),
            common.len() as int,
            inst2,
        ),
{
    let ra = common.push(h1);
    let rb = common.push(h2);
    let n = common.len() as int;
    assert(ra[n] == h1);
    assert(rb[n] == h2);
    assert forall|j: int| 0 <= j < n implies ra[j] == rb[j] by {
        assert(ra[j] == common[j]);
        assert(rb[j] == common[j]);
    }
    lemma_enc_fields_agrees(ra, rb, n, 0, key_vals(h1, inst1), 0);
}

/// Order stability, stated at the source schema: two source field lists
/// with the same key-marked fields — so differing only in non-key
/// fields, their order included — derive holder schemas that encode
/// instances with agreeing key values to identical key bytes.
pub proof fn lemma_source_order_stable(
    common: Seq<KeyHolderSchema>,
    f1: Seq<FieldDescriptor>,
    f2: Seq<FieldDescriptor>,
    h1: KeyHolderSchema,
    h2: KeyHolderSchema,
    inst1: InstanceValue,
    inst2: InstanceValue,
)
    requires
        key_fields_of(f1) == key_fields_of(f2),
        derive_status(common, f1, f1.len() as int) == Ok::<Seq<HolderField>, DeriveError>(
            h1.fields@,
        ),
        derive_status(common, f2, f2.len() as int) == Ok::<Seq<HolderField>, DeriveError>(
            h2.fields@,
        ),
        key_vals(h1, inst1) == key_vals(h2, inst2),
    ensures
        key_encoding(common.push(h1), common.len() as int, inst1) == key_encoding(
            common.push(h2),
            common.len() as int,
            inst2,
        ),
{
    lemma_derive_status_resolves_key_fields(common, f1, f1.len() as int);
    lemma_derive_status_resolves_key_fields(common, f2, f2.len() as int);
    assert(f1.take(f1.len() as int) =~= f1);
    assert(f2.take(f2.len() as int) =~= f2);
    assert(holder_tys(h1.fields@) == holder_tys(h2.fields@));
    assert(h1.fields@.len() == h2.fields@.len());
    assert forall|f: int| 0 <= f < h1.fields@.len() implies (#[trigger] h1.fields@[f]).ty
        == h2.fields@[f].ty by {
        assert(holder_tys(h1.fields@)[f] == h1.fields@[f].ty);
        assert(holder_tys(h2.fields@)[f] == h2.fields@[f].ty);
    }
    lemma_key_layout_order_stable(common, h1, h2, inst1, inst2);
}

} // verus!
