//! Canonical key encoding: big-endian plain CDR. Every primitive is
//! aligned to its own size, offsets counted from the end of the 4-byte
//! encapsulation header; text and sequences carry a 32-bit length
//! prefix; nested key holders are encoded recursively in place, in key
//! declaration order.

use vstd::prelude::*;

use crate::holder::HolderFieldType;
use crate::holder::KeyHolderSchema;
use crate::holder::SchemaRegistry;
use crate::holder::holder_index;
use crate::schema::PrimKind;
use crate::value::FieldValue;
use crate::value::InstanceValue;
use crate::value::PrimValue;
use crate::value::inst_fits;
use crate::value::lemma_fields_fit_at;
use crate::value::prim_kind;

verus! {

/// The encoded size, and so the alignment, of a primitive kind.
pub open spec fn prim_size(k: PrimKind) -> nat {
    match k {
        PrimKind::Bool => 1,
        PrimKind::I8 => 1,
        PrimKind::U8 => 1,
        PrimKind::I16 => 2,
        PrimKind::U16 => 2,
        PrimKind::I32 => 4,
        PrimKind::U32 => 4,
        PrimKind::I64 => 8,
        PrimKind::U64 => 8,
    }
}

/// How many zero bytes bring offset `off` up to alignment `a`.
pub open spec fn pad_len(off: nat, a: nat) -> nat {
    if a == 0 || off % a == 0 {
        0
    } else {
        (a - off % a) as nat
    }
}

/// The zero bytes that bring offset `off` up to alignment `a`.
pub open spec fn pad_bytes(off: nat, a: nat) -> Seq<u8> {
    Seq::new(pad_len(off, a), |x: int| 0u8)
}

/// A 16-bit value as two big-endian bytes.
pub open spec fn be2(v: u16) -> Seq<u8> {
    seq![(v >> 8) as u8, v as u8]
}

/// A 32-bit value as four big-endian bytes.
pub open spec fn be4(v: u32) -> Seq<u8> {
    seq![(v >> 24) as u8, (v >> 16) as u8, (v >> 8) as u8, v as u8]
}

/// A 64-bit value as eight big-endian bytes.
pub open spec fn be8(v: u64) -> Seq<u8> {
    seq![
        (v >> 56) as u8,
        (v >> 48) as u8,
        (v >> 40) as u8,
        (v >> 32) as u8,
        (v >> 24) as u8,
        (v >> 16) as u8,
        (v >> 8) as u8,
        v as u8,
    ]
}

/// The raw big-endian bytes of a primitive value; signed values are
/// reinterpreted in two's complement.
pub open spec fn prim_bytes(v: PrimValue) -> Seq<u8> {
    match v {
        PrimValue::Bool(b) => seq![
            if b {
                1u8
            } else {
                0u8
            },
        ],
        PrimValue::I8(x) => seq![x as u8],
        PrimValue::U8(x) => seq![x],
        PrimValue::I16(x) => be2(x as u16),
        PrimValue::U16(x) => be2(x),
        PrimValue::I32(x) => be4(x as u32),
        PrimValue::U32(x) => be4(x),
        PrimValue::I64(x) => be8(x as u64),
        PrimValue::U64(x) => be8(x),
    }
}

/// One primitive at offset `off`: padding to its alignment, then its
/// big-endian bytes.
pub open spec fn enc_prim(v: PrimValue, off: nat) -> Seq<u8> {
    pad_bytes(off, prim_size(prim_kind(v))) + prim_bytes(v)
}

/// The primitives of `vs` from position `e` on, each aligned and
/// encoded in order, starting at offset `off`.
pub open spec fn enc_prims_from(vs: Seq<PrimValue>, e: int, off: nat) -> Seq<u8>
    decreases vs.len() - e,
{
    if 0 <= e < vs.len() {
        let b = enc_prim(vs[e], off);
        b + enc_prims_from(vs, e + 1, off + b.len())
    } else {
        Seq::empty()
    }
}

/// The key values of an instance under a holder schema: for each holder
/// field, in order, the instance value at its source position.
pub open spec fn key_vals(h: KeyHolderSchema, inst: InstanceValue) -> Seq<FieldValue> {
    Seq::new(h.fields@.len(), |k: int| inst.fields@[h.fields@[k].src_index as int])
}

/// One key value encoded at offset `off` under its holder field type.
pub open spec fn enc_value(
    reg: Seq<KeyHolderSchema>,
    i: int,
    ty: HolderFieldType,
    v: FieldValue,
    off: nat,
) -> Seq<u8>
    decreases i, 0int, 0int,
{
    match (ty, v) {
        (HolderFieldType::Primitive(_), FieldValue::Prim(p)) => enc_prim(p, off),
        (HolderFieldType::Text, FieldValue::Text(bytes)) => pad_bytes(off, 4) + be4(
            (bytes@.len() + 1) as u32,
        ) + bytes@ + seq![0u8],
        (HolderFieldType::PrimSequence(_), FieldValue::Sequence(vs)) => {
            let head = pad_bytes(off, 4) + be4(vs@.len() as u32);
            head + enc_prims_from(vs@, 0, off + head.len())
        },
        (HolderFieldType::EnumOrdinal, FieldValue::Ordinal(x)) => pad_bytes(off, 4) + be4(x),
        (HolderFieldType::PrimArray(_, _), FieldValue::Array(vs)) => enc_prims_from(vs@, 0, off),
        (HolderFieldType::Nested(id), FieldValue::Struct(inner)) => {
            let j = holder_index(reg, id);
            if 0 <= j < i {
                enc_fields_from(reg, j, 0, key_vals(reg[j], inner), off)
            } else {
                Seq::empty()
            }
        },
        _ => Seq::empty(),
    }
}

/// The key values from position `k` on, encoded in order under the
/// holder fields of `reg[i]`, starting at offset `off`.
pub open spec fn enc_fields_from(
    reg: Seq<KeyHolderSchema>,
    i: int,
    k: int,
    vals: Seq<FieldValue>,
    off: nat,
) -> Seq<u8>
    decreases i, reg[i].fields@.len() - k, 1int,
{
    if 0 <= i < reg.len() && 0 <= k < reg[i].fields@.len() && vals.len()
        == reg[i].fields@.len() {
        let b = enc_value(reg, i, reg[i].fields@[k].ty, vals[k], off);
        b + enc_fields_from(reg, i, k + 1, vals, off + b.len())
    } else {
        Seq::empty()
    }
}

/// The 4-byte encapsulation header naming big-endian plain CDR: the
/// representation identifier, then zeroed options.
pub open spec fn header_bytes() -> Seq<u8> {
    seq![0u8, 0u8, 0u8, 0u8]
}

/// The canonical key encoding of an instance under the holder schema at
/// `reg[i]`: the encapsulation header, then the key fields in key
/// declaration order.
pub open spec fn key_encoding(reg: Seq<KeyHolderSchema>, i: int, inst: InstanceValue) -> Seq<
    u8,
> {
    header_bytes() + enc_fields_from(reg, i, 0, key_vals(reg[i], inst), 0)
}

fn push_zeros(buf: &mut Vec<u8>, n: usize)
    ensures
        final(buf)@ == old(buf)@ + Seq::new(n as nat, |x: int| 0u8),
{
    let mut p: usize = 0;
    proof {
        assert(buf@ =~= old(buf)@ + Seq::new(0nat, |x: int| 0u8));
    }
    while p < n
        invariant
            p <= n,
            buf@ == old(buf)@ + Seq::new(p as nat, |x: int| 0u8),
        decreases n - p,
    {
        buf.push(0u8);
        p = p + 1;
        proof {
            assert(buf@ =~= old(buf)@ + Seq::new(p as nat, |x: int| 0u8));
        }
    }
}

fn push_pad(buf: &mut Vec<u8>, a: usize)
    requires
        1 <= a,
        old(buf)@.len() >= 4,
    ensures
        final(buf)@ == old(buf)@ + pad_bytes((old(buf)@.len() - 4) as nat, a as nat),
        final(buf)@.len() >= old(buf)@.len(),
{
    let off: usize = buf.len() - 4;
    let r: usize = off % a;
    if r != 0 {
        push_zeros(buf, a - r);
    }
    proof {
        assert(buf@ =~= old(buf)@ + pad_bytes((old(buf)@.len() - 4) as nat, a as nat));
    }
}

fn push_u16_be(buf: &mut Vec<u8>, v: u16)
    ensures
        final(buf)@ == old(buf)@ + be2(v),
{
    buf.push((v >> 8) as u8);
    buf.push(v as u8);
    proof {
        assert(buf@ =~= old(buf)@ + be2(v));
    }
}

fn push_u32_be(buf: &mut Vec<u8>, v: u32)
    ensures
        final(buf)@ == old(buf)@ + be4(v),
{
    buf.push((v >> 24) as u8);
    buf.push((v >> 16) as u8);
    buf.push((v >> 8) as u8);
    buf.push(v as u8);
    proof {
        assert(buf@ =~= old(buf)@ + be4(v));
    }
}

fn push_u64_be(buf: &mut Vec<u8>, v: u64)
    ensures
        final(buf)@ == old(buf)@ + be8(v),
{
    buf.push((v >> 56) as u8);
    buf.push((v >> 48) as u8);
    buf.push((v >> 40) as u8);
    buf.push((v >> 32) as u8);
    buf.push((v >> 24) as u8);
    buf.push((v >> 16) as u8);
    buf.push((v >> 8) as u8);
    buf.push(v as u8);
    proof {
        assert(buf@ =~= old(buf)@ + be8(v));
    }
}

fn push_bytes(buf: &mut Vec<u8>, data: &Vec<u8>)
    ensures
        final(buf)@ == old(buf)@ + data@,
{
    let n = data.len();
    let mut p: usize = 0;
    proof {
        assert(buf@ =~= old(buf)@ + data@.take(0));
    }
    while p < n
        invariant
            p <= n,
            n == data@.len(),
            buf@ == old(buf)@ + data@.take(p as int),
        decreases n - p,
    {
        buf.push(data[p]);
        p = p + 1;
        proof {
            assert(buf@ =~= old(buf)@ + data@.take(p as int));
        }
    }
    proof {
        assert(data@.take(n as int) =~= data@);
    }
}

fn push_prim(buf: &mut Vec<u8>, v: &PrimValue)
    requires
        old(buf)@.len() >= 4,
    ensures
        final(buf)@ == old(buf)@ + enc_prim(*v, (old(buf)@.len() - 4) as nat),
        final(buf)@.len() >= old(buf)@.len(),
{
    let ghost off = (old(buf)@.len() - 4) as nat;
    match v {
        PrimValue::Bool(b) => {
            push_pad(buf, 1);
            buf.push(
                if *b {
                    1u8
                } else {
                    0u8
                },
            );
            proof {
                assert(buf@ =~= old(buf)@ + enc_prim(*v, off));
            }
        },
        PrimValue::I8(x) => {
            push_pad(buf, 1);
            buf.push(*x as u8);
            proof {
                assert(buf@ =~= old(buf)@ + enc_prim(*v, off));
            }
        },
        PrimValue::U8(x) => {
            push_pad(buf, 1);
            buf.push(*x);
            proof {
                assert(buf@ =~= old(buf)@ + enc_prim(*v, off));
            }
        },
        PrimValue::I16(x) => {
            push_pad(buf, 2);
            push_u16_be(buf, *x as u16);
            proof {
                assert(buf@ =~= old(buf)@ + enc_prim(*v, off));
            }
        },
        PrimValue::U16(x) => {
            push_pad(buf, 2);
            push_u16_be(buf, *x);
            proof {
                assert(buf@ =~= old(buf)@ + enc_prim(*v, off));
            }
        },
        PrimValue::I32(x) => {
            push_pad(buf, 4);
            push_u32_be(buf, *x as u32);
            proof {
                assert(buf@ =~= old(buf)@ + enc_prim(*v, off));
            }
        },
        PrimValue::U32(x) => {
            push_pad(buf, 4);
            push_u32_be(buf, *x);
            proof {
                assert(buf@ =~= old(buf)@ + enc_prim(*v, off));
            }
        },
        PrimValue::I64(x) => {
            push_pad(buf, 8);
            push_u64_be(buf, *x as u64);
            proof {
                assert(buf@ =~= old(buf)@ + enc_prim(*v, off));
            }
        },
        PrimValue::U64(x) => {
            push_pad(buf, 8);
            push_u64_be(buf, *x);
            proof {
                assert(buf@ =~= old(buf)@ + enc_prim(*v, off));
            }
        },
    }
}

fn push_prims(buf: &mut Vec<u8>, vs: &Vec<PrimValue>)
    requires
        old(buf)@.len() >= 4,
    ensures
        final(buf)@ == old(buf)@ + enc_prims_from(vs@, 0, (old(buf)@.len() - 4) as nat),
        final(buf)@.len() >= old(buf)@.len(),
{
    let ghost off0 = (old(buf)@.len() - 4) as nat;
    let n = vs.len();
    let mut e: usize = 0;
    while e < n
        invariant
            e <= n,
            n == vs@.len(),
            buf@.len() >= old(buf)@.len(),
            old(buf)@.len() >= 4,
            off0 == (old(buf)@.len() - 4) as nat,
            old(buf)@ + enc_prims_from(vs@, 0, off0) == buf@ + enc_prims_from(
                vs@,
                e as int,
                (buf@.len() - 4) as nat,
            ),
        decreases n - e,
    {
        let ghost cur = (buf@.len() - 4) as nat;
        let ghost bpre = buf@;
        push_prim(buf, &vs[e]);
        proof {
            let b = enc_prim(vs@[e as int], cur);
            assert(buf@ == bpre + b);
            assert(enc_prims_from(vs@, e as int, cur) == b + enc_prims_from(
                vs@,
                e as int + 1,
                cur + b.len(),
            ));
            assert(cur + b.len() == (buf@.len() - 4) as nat);
            assert(bpre + (b + enc_prims_from(vs@, e as int + 1, cur + b.len())) =~= (bpre + b)
                + enc_prims_from(vs@, e as int + 1, cur + b.len()));
        }
        e = e + 1;
    }
    proof {
        assert(enc_prims_from(vs@, n as int, (buf@.len() - 4) as nat) =~= Seq::<u8>::empty());
        assert(buf@ + Seq::<u8>::empty() =~= buf@);
    }
}

/// Encodes the key portion of `inst` under the holder schema at
/// registry position `i`, appending to `buf`: each key value in key
/// declaration order, aligned and encoded, nested holders recursively
/// in place.
fn encode_fields(reg: &SchemaRegistry, i: usize, inst: &InstanceValue, buf: &mut Vec<u8>)
    requires
        reg.wf(),
        i < reg@.len(),
        inst_fits(reg@, i as int, *inst),
        old(buf)@.len() >= 4,
    ensures
        final(buf)@ == old(buf)@ + enc_fields_from(
            reg@,
            i as int,
            0,
            key_vals(reg@[i as int], *inst),
            (old(buf)@.len() - 4) as nat,
        ),
        final(buf)@.len() >= old(buf)@.len(),
    decreases i,
{
    let schema = reg.schema_at(i);
    let n = schema.fields.len();
    let ghost vals = key_vals(reg@[i as int], *inst);
    let ghost off0 = (old(buf)@.len() - 4) as nat;
    let mut k: usize = 0;
    while k < n
        invariant
            reg.wf(),
            i < reg@.len(),
            inst_fits(reg@, i as int, *inst),
            *schema == reg@[i as int],
            n == schema.fields@.len(),
            vals == key_vals(reg@[i as int], *inst),
            vals.len() == n,
            k <= n,
            buf@.len() >= old(buf)@.len(),
            old(buf)@.len() >= 4,
            off0 == (old(buf)@.len() - 4) as nat,
            old(buf)@ + enc_fields_from(reg@, i as int, 0, vals, off0) == buf@
                + enc_fields_from(reg@, i as int, k as int, vals, (buf@.len() - 4) as nat),
        decreases n - k,
    {
        let f = schema.fields[k];
        proof {
            lemma_fields_fit_at(reg@, i as int, 0, k as int, *inst);
            assert(vals[k as int] == inst.fields@[f.src_index as int]);
        }
        let v = &inst.fields[f.src_index];
        let ghost cur = (buf@.len() - 4) as nat;
        let ghost bpre = buf@;
        match f.ty {
            HolderFieldType::Primitive(_) => match v {
                FieldValue::Prim(p) => {
                    push_prim(buf, p);
                    proof {
                        assert(buf@ =~= bpre + enc_value(
                            reg@,
                            i as int,
                            f.ty,
                            vals[k as int],
                            cur,
                        ));
                    }
                },
                _ => {
                    proof {
                        assert(false);
                    }
                },
            },
            HolderFieldType::Text => match v {
                FieldValue::Text(bytes) => {
                    push_pad(buf, 4);
                    push_u32_be(buf, (bytes.len() + 1) as u32);
                    push_bytes(buf, bytes);
                    buf.push(0u8);
                    proof {
                        assert(buf@ =~= bpre + enc_value(
                            reg@,
                            i as int,
                            f.ty,
                            vals[k as int],
                            cur,
                        ));
                    }
                },
                _ => {
                    proof {
                        assert(false);
                    }
                },
            },
            HolderFieldType::PrimSequence(_) => match v {
                FieldValue::Sequence(vs) => {
                    push_pad(buf, 4);
                    push_u32_be(buf, vs.len() as u32);
                    push_prims(buf, vs);
                    proof {
                        assert(buf@ =~= bpre + enc_value(
                            reg@,
                            i as int,
                            f.ty,
                            vals[k as int],
                            cur,
                        ));
                    }
                },
                _ => {
                    proof {
                        assert(false);
                    }
                },
            },
            HolderFieldType::EnumOrdinal => match v {
                FieldValue::Ordinal(x) => {
                    push_pad(buf, 4);
                    push_u32_be(buf, *x);
                    proof {
                        assert(buf@ =~= bpre + enc_value(
                            reg@,
                            i as int,
                            f.ty,
                            vals[k as int],
                            cur,
                        ));
                    }
                },
                _ => {
                    proof {
                        assert(false);
                    }
                },
            },
            HolderFieldType::PrimArray(_, _) => match v {
                FieldValue::Array(vs) => {
                    push_prims(buf, vs);
                    proof {
                        assert(buf@ =~= bpre + enc_value(
                            reg@,
                            i as int,
                            f.ty,
                            vals[k as int],
                            cur,
                        ));
                    }
                },
                _ => {
                    proof {
                        assert(false);
                    }
                },
            },
            HolderFieldType::Nested(id) => match v {
                FieldValue::Struct(inner) => match reg.find_schema(id) {
                    Some(j) => {
                        proof {
                            assert(j as int == holder_index(reg@, id));
                        }
                        encode_fields(reg, j, inner, buf);
                        proof {
                            assert(buf@ =~= bpre + enc_value(
                                reg@,
                                i as int,
                                f.ty,
                                vals[k as int],
                                cur,
                            ));
                        }
                    },
                    None => {
                        proof {
                            assert(false);
                        }
                    },
                },
                _ => {
                    proof {
                        assert(false);
                    }
                },
            },
        }
        proof {
            let b = enc_value(reg@, i as int, f.ty, vals[k as int], cur);
            assert(buf@ == bpre + b);
            assert(enc_fields_from(reg@, i as int, k as int, vals, cur) == b + enc_fields_from(
                reg@,
                i as int,
                k as int + 1,
                vals,
                cur + b.len(),
            ));
            assert(cur + b.len() == (buf@.len() - 4) as nat);
            assert(bpre + (b + enc_fields_from(reg@, i as int, k as int + 1, vals, cur
                + b.len())) =~= (bpre + b) + enc_fields_from(
                reg@,
                i as int,
                k as int + 1,
                vals,
                cur + b.len(),
            ));
        }
        k = k + 1;
    }
    proof {
        assert(enc_fields_from(reg@, i as int, n as int, vals, (buf@.len() - 4) as nat) =~= Seq::<
            u8,
        >::empty());
        assert(buf@ + Seq::<u8>::empty() =~= buf@);
    }
}

/// The canonical key bytes of `inst` under the holder schema at
/// registry position `i`: the 4-byte big-endian plain CDR encapsulation
/// header, then the encoded key fields. Deterministic: a pure function
/// of the schema and the instance's key values.
pub fn encode_key(reg: &SchemaRegistry, i: usize, inst: &InstanceValue) -> (out: Vec<u8>)
    requires
        reg.wf(),
        inst_fits(reg@, i as int, *inst),
    ensures
        out@ == key_encoding(reg@, i as int, *inst),
{
    let mut out: Vec<u8> = Vec::new();
    out.push(0u8);
    out.push(0u8);
    out.push(0u8);
    out.push(0u8);
    proof {
        assert(out@ =~= header_bytes());
    }
    encode_fields(reg, i, inst, &mut out);
    proof {
        assert(out@ =~= key_encoding(reg@, i as int, *inst));
    }
    out
}

} // verus!
