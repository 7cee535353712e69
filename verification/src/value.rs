//! Runtime values of structured types, and conformance of an instance to
//! a derived key holder schema: the conditions under which the key
//! portion of the instance can be encoded.

use vstd::prelude::*;

use crate::holder::HolderFieldType;
use crate::holder::KeyHolderSchema;
use crate::holder::SchemaRegistry;
use crate::holder::holder_index;
use crate::schema::PrimKind;

verus! {

/// A primitive value, carrying its kind.
#[derive(Clone, Copy, PartialEq, Eq, Structural, Debug)]
pub enum PrimValue {
    Bool(bool),
    I8(i8),
    I16(i16),
    I32(i32),
    I64(i64),
    U8(u8),
    U16(u16),
    U32(u32),
    U64(u64),
}

/// The value of one field of an instance.
#[derive(Debug)]
pub enum FieldValue {
    Prim(PrimValue),
    /// Text, as its encoded bytes without a terminating zero.
    Text(Vec<u8>),
    /// A dynamic sequence of primitives.
    Sequence(Vec<PrimValue>),
    /// An enumeration value, supplied by the caller as its fixed-width
    /// ordinal; the caller must guarantee the ordinal is deterministic.
    Ordinal(u32),
    /// An instance of a nested structured type.
    Struct(InstanceValue),
    /// A fixed array of primitives.
    Array(Vec<PrimValue>),
}

/// An instance of a structured type: one value per declared field, in
/// declaration order.
#[derive(Debug)]
pub struct InstanceValue {
    pub fields: Vec<FieldValue>,
}

/// The kind of a primitive value.
pub open spec fn prim_kind(v: PrimValue) -> PrimKind {
    match v {
        PrimValue::Bool(_) => PrimKind::Bool,
        PrimValue::I8(_) => PrimKind::I8,
        PrimValue::I16(_) => PrimKind::I16,
        PrimValue::I32(_) => PrimKind::I32,
        PrimValue::I64(_) => PrimKind::I64,
        PrimValue::U8(_) => PrimKind::U8,
        PrimValue::U16(_) => PrimKind::U16,
        PrimValue::U32(_) => PrimKind::U32,
        PrimValue::U64(_) => PrimKind::U64,
    }
}

/// The kind of a primitive value, computed.
pub fn prim_kind_of(v: &PrimValue) -> (k: PrimKind)
    ensures
        k == prim_kind(*v),
{
    match v {
        PrimValue::Bool(_) => PrimKind::Bool,
        PrimValue::I8(_) => PrimKind::I8,
        PrimValue::I16(_) => PrimKind::I16,
        PrimValue::I32(_) => PrimKind::I32,
        PrimValue::I64(_) => PrimKind::I64,
        PrimValue::U8(_) => PrimKind::U8,
        PrimValue::U16(_) => PrimKind::U16,
        PrimValue::U32(_) => PrimKind::U32,
        PrimValue::U64(_) => PrimKind::U64,
    }
}

/// Whether a field value fits one holder field type of `reg[i]`: its
/// shape matches, dynamic lengths leave room for the 32-bit length
/// prefix, and a nested instance fits the referenced holder schema.
pub open spec fn value_fits(
    reg: Seq<KeyHolderSchema>,
    i: int,
    ty: HolderFieldType,
    v: FieldValue,
) -> bool
    decreases i, 0int, 0int,
{
    match ty {
        HolderFieldType::Primitive(k) => match v {
            FieldValue::Prim(p) => prim_kind(p) == k,
            _ => false,
        },
        HolderFieldType::Text => match v {
            FieldValue::Text(bytes) => bytes@.len() + 1 <= u32::MAX,
            _ => false,
        },
        HolderFieldType::PrimSequence(k) => match v {
            FieldValue::Sequence(vs) => vs@.len() <= u32::MAX && forall|e: int|
                0 <= e < vs@.len() ==> prim_kind(#[trigger] vs@[e]) == k,
            _ => false,
        },
        HolderFieldType::EnumOrdinal => v is Ordinal,
        HolderFieldType::PrimArray(k, n) => match v {
            FieldValue::Array(vs) => vs@.len() == n && forall|e: int|
                0 <= e < vs@.len() ==> prim_kind(#[trigger] vs@[e]) == k,
            _ => false,
        },
        HolderFieldType::Nested(id) => match v {
            FieldValue::Struct(inner) => {
                let j = holder_index(reg, id);
                &&& 0 <= j < i
                &&& inst_fits(reg, j, inner)
            },
            _ => false,
        },
    }
}

/// Whether the holder fields of `reg[i]`, from position `k` on, each
/// find a fitting value at their source position in the instance.
pub open spec fn fields_fit(
    reg: Seq<KeyHolderSchema>,
    i: int,
    k: int,
    inst: InstanceValue,
) -> bool
    decreases i, reg[i].fields@.len() - k + 1, 1int,
{
    if 0 <= i < reg.len() && 0 <= k < reg[i].fields@.len() {
        let f = reg[i].fields@[k];
        &&& f.src_index < inst.fields@.len()
        &&& value_fits(reg, i, f.ty, inst.fields@[f.src_index as int])
        &&& fields_fit(reg, i, k + 1, inst)
    } else {
        true
    }
}

/// Whether an instance fits the holder schema at `reg[i]`, so that its
/// key portion can be encoded.
pub open spec fn inst_fits(reg: Seq<KeyHolderSchema>, i: int, inst: InstanceValue) -> bool
    decreases i, reg[i].fields@.len() + 2, 0int,
{
    &&& 0 <= i < reg.len()
    &&& fields_fit(reg, i, 0, inst)
}

/// A fitting instance fits at every single holder field.
pub proof fn lemma_fields_fit_at(
    reg: Seq<KeyHolderSchema>,
    i: int,
    k0: int,
    k: int,
    inst: InstanceValue,
)
    requires
        0 <= i < reg.len(),
        0 <= k0 <= k < reg[i].fields@.len(),
        fields_fit(reg, i, k0, inst),
    ensures
        reg[i].fields@[k].src_index < inst.fields@.len(),
        value_fits(reg, i, reg[i].fields@[k].ty, inst.fields@[reg[i].fields@[k].src_index as int]),
    decreases k - k0,
{
    if k0 < k {
        lemma_fields_fit_at(reg, i, k0 + 1, k, inst);
    }
}

/// Fit at every single holder field from `k0` on yields the recursive
/// fit predicate.
pub proof fn lemma_fields_fit_from_pointwise(
    reg: Seq<KeyHolderSchema>,
    i: int,
    k0: int,
    inst: InstanceValue,
)
    requires
        0 <= i < reg.len(),
        0 <= k0 <= reg[i].fields@.len(),
        forall|m: int|
            k0 <= m < reg[i].fields@.len() ==> {
                let f = (#[trigger] reg[i].fields@[m]);
                &&& f.src_index < inst.fields@.len()
                &&& value_fits(reg, i, f.ty, inst.fields@[f.src_index as int])
            },
    ensures
        fields_fit(reg, i, k0, inst),
    decreases reg[i].fields@.len() - k0,
{
    if k0 < reg[i].fields@.len() {
        lemma_fields_fit_from_pointwise(reg, i, k0 + 1, inst);
    }
}

/// Whether `v` fits the holder field type `ty` of the schema at
/// registry position `i`, computed.
pub fn check_value(reg: &SchemaRegistry, i: usize, ty: HolderFieldType, v: &FieldValue) -> (r:
    bool)
    requires
        reg.wf(),
        i < reg@.len(),
    ensures
        r == value_fits(reg@, i as int, ty, *v),
    decreases i, 0int,
{
    match ty {
        HolderFieldType::Primitive(k) => match v {
            FieldValue::Prim(p) => prim_kind_of(p) == k,
            _ => false,
        },
        HolderFieldType::Text => match v {
            FieldValue::Text(bytes) => bytes.len() <= (u32::MAX - 1) as usize,
            _ => false,
        },
        HolderFieldType::PrimSequence(k) => match v {
            FieldValue::Sequence(vs) => {
                if vs.len() > u32::MAX as usize {
                    return false;
                }
                check_prim_kinds(vs, k)
            },
            _ => false,
        },
        HolderFieldType::EnumOrdinal => match v {
            FieldValue::Ordinal(_) => true,
            _ => false,
        },
        HolderFieldType::PrimArray(k, n) => match v {
            FieldValue::Array(vs) => {
                if vs.len() != n {
                    return false;
                }
                check_prim_kinds(vs, k)
            },
            _ => false,
        },
        HolderFieldType::Nested(id) => match v {
            FieldValue::Struct(inner) => match reg.find_schema(id) {
                Some(j) => {
                    if j < i {
                        check_instance(reg, j, inner)
                    } else {
                        false
                    }
                },
                None => false,
            },
            _ => false,
        },
    }
}

/// Whether every element of `vs` has primitive kind `k`, computed.
fn check_prim_kinds(vs: &Vec<PrimValue>, k: PrimKind) -> (r: bool)
    ensures
        r == forall|e: int| 0 <= e < vs@.len() ==> prim_kind(#[trigger] vs@[e]) == k,
{
    let n = vs.len();
    let mut e: usize = 0;
    while e < n
        invariant
            e <= n,
            n == vs@.len(),
            forall|m: int| 0 <= m < e ==> prim_kind(#[trigger] vs@[m]) == k,
        decreases n - e,
    {
        if prim_kind_of(&vs[e]) != k {
            return false;
        }
        e = e + 1;
    }
    true
}

/// Whether an instance fits the holder schema at registry position `i`,
/// computed: true exactly when its key portion can be encoded.
pub fn check_instance(reg: &SchemaRegistry, i: usize, inst: &InstanceValue) -> (r: bool)
    requires
        reg.wf(),
        i < reg@.len(),
    ensures
        r == inst_fits(reg@, i as int, *inst),
    decreases i, 1int,
{
    let schema = reg.schema_at(i);
    let n = schema.fields.len();
    let mut k: usize = 0;
    while k < n
        invariant
            reg.wf(),
            i < reg@.len(),
            *schema == reg@[i as int],
            n == schema.fields@.len(),
            k <= n,
            forall|m: int|
                0 <= m < k ==> {
                    let f = (#[trigger] reg@[i as int].fields@[m]);
                    &&& f.src_index < inst.fields@.len()
                    &&& value_fits(reg@, i as int, f.ty, inst.fields@[f.src_index as int])
                },
        decreases n - k,
    {
        let f = schema.fields[k];
        if f.src_index >= inst.fields.len() {
            proof {
                if inst_fits(reg@, i as int, *inst) {
                    lemma_fields_fit_at(reg@, i as int, 0, k as int, *inst);
                }
            }
            return false;
        }
        let ok = check_value(reg, i, f.ty, &inst.fields[f.src_index]);
        if !ok {
            proof {
                if inst_fits(reg@, i as int, *inst) {
                    lemma_fields_fit_at(reg@, i as int, 0, k as int, *inst);
                }
            }
            return false;
        }
        k = k + 1;
    }
    proof {
        lemma_fields_fit_from_pointwise(reg@, i as int, 0, *inst);
    }
    true
}

} // verus!
