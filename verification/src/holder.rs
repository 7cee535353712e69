//! Key holder schemas: the minimal derived structural type that keeps only
//! the key-marked fields of a source type, the registry that resolves
//! nested structured key fields to their previously derived holders, and
//! the variable-length classification that decides whether the key
//! encoding of a type can vary across instances.

use vstd::prelude::*;

use crate::schema::ElementType;
use crate::schema::FieldDescriptor;
use crate::schema::FieldType;
use crate::schema::KeyMarker;
use crate::schema::key_fields_of;
use crate::schema::PrimKind;
use crate::schema::StructuredTypeSchema;

verus! {

/// Why a type's key holder derivation was rejected. Both kinds are
/// detected at registration time; a type either derives a complete key
/// holder schema or is rejected outright.
#[derive(Clone, Copy, PartialEq, Eq, Structural, Debug)]
pub enum DeriveError {
    /// A key-marked field's declared type is none of: primitive, text,
    /// sequence of primitives, key-enum, previously derived nested key
    /// type, fixed array of primitives.
    UnsupportedKeyFieldType,
    /// A fixed-array key field's element type is not primitive.
    UnsupportedArrayElement,
}

/// The resolved type of one key holder field.
#[derive(Clone, Copy, PartialEq, Eq, Structural, Debug)]
pub enum HolderFieldType {
    Primitive(PrimKind),
    /// Dynamic-length text.
    Text,
    /// Dynamic-length sequence of primitives.
    PrimSequence(PrimKind),
    /// An enumeration treated as an opaque fixed-width ordinal.
    EnumOrdinal,
    /// A reference to the previously derived key holder of the named type.
    Nested(u64),
    /// A fixed array of primitives of the given length.
    PrimArray(PrimKind, usize),
}

/// One derived key holder field: the position of the source field it is
/// produced from, and its resolved type.
#[derive(Clone, Copy, PartialEq, Eq, Structural, Debug)]
pub struct HolderField {
    pub src_index: usize,
    pub ty: HolderFieldType,
}

/// A derived key holder schema: the source type's identifier, the holder
/// fields in key declaration order, and the memoized variable-length
/// flag.
pub struct KeyHolderSchema {
    pub type_id: u64,
    pub fields: Vec<HolderField>,
    pub variable_length: bool,
}

/// The index of the key holder schema derived for type `id`: the first
/// registration of that identifier wins, and -1 means none is registered.
pub open spec fn holder_index(reg: Seq<KeyHolderSchema>, id: u64) -> int
    decreases reg.len(),
{
    if reg.len() == 0 {
        -1
    } else if reg[0].type_id == id {
        0
    } else {
        let r = holder_index(reg.drop_first(), id);
        if r < 0 {
            -1
        } else {
            r + 1
        }
    }
}

/// `holder_index` returns the position of the first schema registered for
/// `id`, or -1 when no schema carries that identifier.
pub proof fn lemma_holder_index_char(reg: Seq<KeyHolderSchema>, id: u64)
    ensures
        holder_index(reg, id) == -1 ==> forall|j: int|
            0 <= j < reg.len() ==> (#[trigger] reg[j]).type_id != id,
        holder_index(reg, id) != -1 ==> {
            &&& 0 <= holder_index(reg, id) < reg.len()
            &&& reg[holder_index(reg, id)].type_id == id
            &&& forall|j: int| 0 <= j < holder_index(reg, id) ==> (#[trigger] reg[j]).type_id != id
        },
    decreases reg.len(),
{
    if reg.len() != 0 && reg[0].type_id != id {
        let d = reg.drop_first();
        lemma_holder_index_char(d, id);
        if holder_index(reg, id) == -1 {
            assert forall|j: int| 0 <= j < reg.len() implies (#[trigger] reg[j]).type_id
                != id by {
                if j > 0 {
                    assert(d[j - 1] == reg[j]);
                    assert(d[j - 1].type_id != id);
                }
            }
        } else {
            let h = holder_index(reg, id);
            assert(d[h - 1] == reg[h]);
            assert forall|j: int| 0 <= j < h implies (#[trigger] reg[j]).type_id != id by {
                if j > 0 {
                    assert(d[j - 1] == reg[j]);
                    assert(d[j - 1].type_id != id);
                }
            }
        }
    }
}

/// Where two registries agree on a prefix and the first schema for `id`
/// lies inside that prefix of the first registry, the second registry
/// resolves `id` to the same position.
pub proof fn lemma_holder_index_prefix(
    rega: Seq<KeyHolderSchema>,
    regb: Seq<KeyHolderSchema>,
    id: u64,
    m: int,
)
    requires
        m <= rega.len(),
        m <= regb.len(),
        forall|j: int| 0 <= j < m ==> rega[j] == regb[j],
        0 <= holder_index(rega, id) < m,
    ensures
        holder_index(regb, id) == holder_index(rega, id),
{
    lemma_holder_index_char(rega, id);
    lemma_holder_index_char(regb, id);
    let ha = holder_index(rega, id);
    assert(regb[ha].type_id == id);
    let hb = holder_index(regb, id);
    if hb < ha {
        assert(rega[hb].type_id == id);
        assert(false);
    }
    if hb > ha {
        assert(regb[ha].type_id != id);
        assert(false);
    }
}

/// Whether any of the holder fields of `reg[i]`, from position `k` on,
/// makes the key encoding variable in length.
pub open spec fn fields_var_len(reg: Seq<KeyHolderSchema>, i: int, k: int) -> bool
    decreases i, reg[i].fields@.len() - k, 1int,
{
    if 0 <= i < reg.len() && 0 <= k < reg[i].fields@.len() {
        field_ty_var_len(reg, i, reg[i].fields@[k].ty) || fields_var_len(reg, i, k + 1)
    } else {
        false
    }
}

/// Whether one holder field type of `reg[i]` is variable in length: a
/// direct dynamic-length type, or a reference to a nested key holder that
/// is itself variable.
pub open spec fn field_ty_var_len(reg: Seq<KeyHolderSchema>, i: int, ty: HolderFieldType) -> bool
    decreases i, 0int, 0int,
{
    match ty {
        HolderFieldType::Text => true,
        HolderFieldType::PrimSequence(_) => true,
        HolderFieldType::Nested(id) => {
            let j = holder_index(reg, id);
            if 0 <= j < i {
                fields_var_len(reg, j, 0)
            } else {
                false
            }
        },
        _ => false,
    }
}

/// The variable-length flag is a pure disjunction: it is set exactly when
/// some field, from position `k` on, is variable in length.
pub proof fn lemma_fields_var_len_exists(reg: Seq<KeyHolderSchema>, i: int, k: int)
    requires
        0 <= i < reg.len(),
        0 <= k <= reg[i].fields@.len(),
    ensures
        fields_var_len(reg, i, k) <==> exists|m: int|
            k <= m < reg[i].fields@.len() && field_ty_var_len(
                reg,
                i,
                (#[trigger] reg[i].fields@[m]).ty,
            ),
    decreases reg[i].fields@.len() - k,
{
    let n = reg[i].fields@.len() as int;
    if k < n {
        lemma_fields_var_len_exists(reg, i, k + 1);
        if fields_var_len(reg, i, k) {
            if field_ty_var_len(reg, i, reg[i].fields@[k].ty) {
                assert(k <= k < n && field_ty_var_len(reg, i, reg[i].fields@[k].ty));
            } else {
                let m = choose|m: int|
                    k + 1 <= m < n && field_ty_var_len(reg, i, (#[trigger] reg[i].fields@[m]).ty);
                assert(k <= m < n && field_ty_var_len(reg, i, reg[i].fields@[m].ty));
            }
        }
        if exists|m: int|
            k <= m < n && field_ty_var_len(reg, i, (#[trigger] reg[i].fields@[m]).ty) {
            let m = choose|m: int|
                k <= m < n && field_ty_var_len(reg, i, (#[trigger] reg[i].fields@[m]).ty);
            if m == k {
                assert(fields_var_len(reg, i, k));
            } else {
                assert(k + 1 <= m < n && field_ty_var_len(reg, i, reg[i].fields@[m].ty));
                assert(fields_var_len(reg, i, k + 1));
            }
        }
    }
}

/// Variable-length classification of `reg[i]` reads only the entries up
/// to `i` whose field types agree, so two registries that agree there
/// classify it alike.
pub proof fn lemma_fields_var_len_agrees(
    rega: Seq<KeyHolderSchema>,
    regb: Seq<KeyHolderSchema>,
    i: int,
    k: int,
)
    requires
        0 <= i < rega.len(),
        i < regb.len(),
        forall|j: int| 0 <= j < i ==> rega[j] == regb[j],
        rega[i].fields@.len() == regb[i].fields@.len(),
        forall|f: int|
            0 <= f < rega[i].fields@.len() ==> (#[trigger] rega[i].fields@[f]).ty
                == regb[i].fields@[f].ty,
    ensures
        fields_var_len(rega, i, k) == fields_var_len(regb, i, k),
    decreases i, rega[i].fields@.len() - k + 1, 1int,
{
    if 0 <= k < rega[i].fields@.len() {
        lemma_field_ty_var_len_agrees(rega, regb, i, rega[i].fields@[k].ty);
        lemma_fields_var_len_agrees(rega, regb, i, k + 1);
    }
}

/// Companion of `lemma_fields_var_len_agrees` for one field type.
pub proof fn lemma_field_ty_var_len_agrees(
    rega: Seq<KeyHolderSchema>,
    regb: Seq<KeyHolderSchema>,
    i: int,
    ty: HolderFieldType,
)
    requires
        0 <= i < rega.len(),
        i < regb.len(),
        forall|j: int| 0 <= j < i ==> rega[j] == regb[j],
    ensures
        field_ty_var_len(rega, i, ty) == field_ty_var_len(regb, i, ty),
    decreases i, 0int, 0int,
{
    match ty {
        HolderFieldType::Nested(id) => {
            let ja = holder_index(rega, id);
            let jb = holder_index(regb, id);
            lemma_holder_index_char(rega, id);
            lemma_holder_index_char(regb, id);
            if 0 <= ja < i {
                lemma_holder_index_prefix(rega, regb, id, i);
                assert(rega[ja] == regb[ja]);
                lemma_fields_var_len_agrees(rega, regb, ja, 0);
            } else {
                if 0 <= jb < i {
                    lemma_holder_index_prefix(regb, rega, id, i);
                    assert(false);
                }
            }
        },
        _ => {},
    }
}

/// A holder field of `reg[i]` is well formed when any nested reference
/// resolves to a schema registered strictly earlier.
pub open spec fn field_wf(reg: Seq<KeyHolderSchema>, i: int, ty: HolderFieldType) -> bool {
    match ty {
        HolderFieldType::Nested(id) => 0 <= holder_index(reg, id) < i,
        _ => true,
    }
}

/// The schema at `reg[i]` is well formed: every nested reference resolves
/// earlier, and the memoized flag equals the classification.
pub open spec fn schema_wf_at(reg: Seq<KeyHolderSchema>, i: int) -> bool {
    &&& forall|k: int|
        0 <= k < reg[i].fields@.len() ==> field_wf(reg, i, (#[trigger] reg[i].fields@[k]).ty)
    &&& reg[i].variable_length == fields_var_len(reg, i, 0)
}

/// Every registered schema is well formed.
pub open spec fn registry_wf(reg: Seq<KeyHolderSchema>) -> bool {
    forall|i: int| 0 <= i < reg.len() ==> #[trigger] schema_wf_at(reg, i)
}

/// How one key-marked source field resolves to a holder field type, or
/// why it cannot.
pub open spec fn resolve_field(reg: Seq<KeyHolderSchema>, f: FieldDescriptor) -> Result<
    HolderFieldType,
    DeriveError,
> {
    if f.marker == KeyMarker::KeyEnum {
        Ok(HolderFieldType::EnumOrdinal)
    } else {
        match f.ty {
            FieldType::Primitive(k) => Ok(HolderFieldType::Primitive(k)),
            FieldType::Text => Ok(HolderFieldType::Text),
            FieldType::Enumeration => Err(DeriveError::UnsupportedKeyFieldType),
            FieldType::Named(id) => if holder_index(reg, id) >= 0 {
                Ok(HolderFieldType::Nested(id))
            } else {
                Err(DeriveError::UnsupportedKeyFieldType)
            },
            FieldType::FixedArray(ElementType::Primitive(k), n) => Ok(
                HolderFieldType::PrimArray(k, n),
            ),
            FieldType::FixedArray(ElementType::Named(_), _) => Err(
                DeriveError::UnsupportedArrayElement,
            ),
            FieldType::Sequence(ElementType::Primitive(k)) => Ok(
                HolderFieldType::PrimSequence(k),
            ),
            FieldType::Sequence(ElementType::Named(_)) => Err(
                DeriveError::UnsupportedKeyFieldType,
            ),
        }
    }
}

/// The outcome of deriving holder fields from the first `i` source
/// fields, against registry `reg`: the holder fields in key declaration
/// order, or the error of the first key-marked field that does not
/// resolve.
pub open spec fn derive_status(
    reg: Seq<KeyHolderSchema>,
    fields: Seq<FieldDescriptor>,
    i: int,
) -> Result<Seq<HolderField>, DeriveError>
    decreases i,
{
    if i <= 0 {
        Ok(Seq::empty())
    } else {
        match derive_status(reg, fields, i - 1) {
            Err(e) => Err(e),
            Ok(hs) => {
                let f = fields[i - 1];
                if f.marker == KeyMarker::NotKey {
                    Ok(hs)
                } else {
                    match resolve_field(reg, f) {
                        Err(e) => Err(e),
                        Ok(t) => Ok(
                            hs.push(HolderField { src_index: (i - 1) as usize, ty: t }),
                        ),
                    }
                }
            },
        }
    }
}

/// Whether the whole source field list derives a key holder against `reg`.
pub open spec fn derivation_ok(reg: Seq<KeyHolderSchema>, fields: Seq<FieldDescriptor>) -> bool {
    derive_status(reg, fields, fields.len() as int) is Ok
}

/// The resolutions of the key-marked fields `kf`, in order, or the
/// error of the first that does not resolve.
pub open spec fn resolve_status(reg: Seq<KeyHolderSchema>, kf: Seq<FieldDescriptor>) -> Result<
    Seq<HolderFieldType>,
    DeriveError,
>
    decreases kf.len(),
{
    if kf.len() == 0 {
        Ok(Seq::empty())
    } else {
        match resolve_status(reg, kf.drop_last()) {
            Err(e) => Err(e),
            Ok(ts) => match resolve_field(reg, kf.last()) {
                Err(e) => Err(e),
                Ok(t) => Ok(ts.push(t)),
            },
        }
    }
}

/// The types of a holder field list, in order.
pub open spec fn holder_tys(hs: Seq<HolderField>) -> Seq<HolderFieldType> {
    hs.map_values(|h: HolderField| h.ty)
}

/// Derivation is driven by the key-marked fields alone: on the first
/// `i` source fields it fails with the error, or yields the holder
/// field types, that resolving their extracted key fields gives.
/// Non-key fields contribute nothing but the recorded source positions.
pub proof fn lemma_derive_status_resolves_key_fields(
    reg: Seq<KeyHolderSchema>,
    fields: Seq<FieldDescriptor>,
    i: int,
)
    requires
        0 <= i <= fields.len(),
    ensures
        match derive_status(reg, fields, i) {
            Ok(hs) => resolve_status(reg, key_fields_of(fields.take(i))) == Ok::<
                Seq<HolderFieldType>,
                DeriveError,
            >(holder_tys(hs)),
            Err(e) => resolve_status(reg, key_fields_of(fields.take(i))) == Err::<
                Seq<HolderFieldType>,
                DeriveError,
            >(e),
        },
    decreases i,
{
    if i > 0 {
        lemma_derive_status_resolves_key_fields(reg, fields, i - 1);
        assert(fields.take(i).drop_last() =~= fields.take(i - 1));
        assert(fields.take(i).last() == fields[i - 1]);
        let kf = key_fields_of(fields.take(i));
        let kfp = key_fields_of(fields.take(i - 1));
        let f = fields[i - 1];
        if f.marker == KeyMarker::NotKey {
            assert(kf == kfp);
        } else {
            assert(kf == kfp.push(f));
            assert(kf.drop_last() =~= kfp);
            assert(kf.last() == f);
        }
        match derive_status(reg, fields, i - 1) {
            Err(e0) => {
                assert(resolve_status(reg, kfp) == Err::<Seq<HolderFieldType>, DeriveError>(
                    e0,
                ));
                assert(resolve_status(reg, kf) == Err::<Seq<HolderFieldType>, DeriveError>(e0));
            },
            Ok(prev) => {
                assert(resolve_status(reg, kfp) == Ok::<Seq<HolderFieldType>, DeriveError>(
                    holder_tys(prev),
                ));
                if f.marker != KeyMarker::NotKey {
                    match resolve_field(reg, f) {
                        Err(e1) => {
                            assert(resolve_status(reg, kf) == Err::<
                                Seq<HolderFieldType>,
                                DeriveError,
                            >(e1));
                        },
                        Ok(t) => {
                            let hf = HolderField { src_index: (i - 1) as usize, ty: t };
                            assert(prev.push(hf).map_values(|h: HolderField| h.ty) =~= prev
                                .map_values(|h: HolderField| h.ty).push(t));
                            assert(resolve_status(reg, kf) == Ok::<
                                Seq<HolderFieldType>,
                                DeriveError,
                            >(holder_tys(prev.push(hf))));
                        },
                    }
                }
            },
        }
    } else {
        assert(fields.take(0) =~= Seq::<FieldDescriptor>::empty());
        assert(Seq::<HolderField>::empty().map_values(|h: HolderField| h.ty) =~= Seq::<
            HolderFieldType,
        >::empty());
    }
}

/// Once derivation has failed on a prefix, every longer prefix fails with
/// the same error: the first offending field decides.
pub proof fn lemma_derive_status_err(
    reg: Seq<KeyHolderSchema>,
    fields: Seq<FieldDescriptor>,
    i: int,
    j: int,
)
    requires
        0 <= i <= j,
        derive_status(reg, fields, i) is Err,
    ensures
        derive_status(reg, fields, j) == derive_status(reg, fields, i),
    decreases j - i,
{
    if i < j {
        lemma_derive_status_err(reg, fields, i, j - 1);
    }
}

/// Holder fields that derivation produced are well formed: nested
/// references resolve in the registry, and source positions lie inside
/// the source field list.
pub proof fn lemma_derive_status_ok_props(
    reg: Seq<KeyHolderSchema>,
    fields: Seq<FieldDescriptor>,
    i: int,
    hs: Seq<HolderField>,
)
    requires
        i <= fields.len(),
        derive_status(reg, fields, i) == Ok::<Seq<HolderField>, DeriveError>(hs),
    ensures
        forall|m: int|
            0 <= m < hs.len() ==> match (#[trigger] hs[m]).ty {
                HolderFieldType::Nested(id) => 0 <= holder_index(reg, id) < reg.len(),
                _ => true,
            },
        forall|m: int| 0 <= m < hs.len() ==> (#[trigger] hs[m]).src_index < fields.len(),
    decreases i,
{
    if i > 0 {
        match derive_status(reg, fields, i - 1) {
            Err(_) => {
                assert(false);
            },
            Ok(prev) => {
                lemma_derive_status_ok_props(reg, fields, i - 1, prev);
                let f = fields[i - 1];
                if f.marker != KeyMarker::NotKey {
                    match resolve_field(reg, f) {
                        Err(_) => {
                            assert(false);
                        },
                        Ok(t) => {
                            match t {
                                HolderFieldType::Nested(id) => {
                                    lemma_holder_index_char(reg, id);
                                },
                                _ => {},
                            }
                            assert(hs == prev.push(
                                HolderField { src_index: (i - 1) as usize, ty: t },
                            ));
                            assert(forall|m: int|
                                0 <= m < prev.len() ==> #[trigger] hs[m] == prev[m]);
                        },
                    }
                }
            },
        }
    }
}

/// Whether a holder field type is variable in length, read against the
/// registry as it stands before the schema that holds it is appended.
pub open spec fn ty_var_on(reg: Seq<KeyHolderSchema>, ty: HolderFieldType) -> bool {
    match ty {
        HolderFieldType::Text => true,
        HolderFieldType::PrimSequence(_) => true,
        HolderFieldType::Nested(id) => {
            let j = holder_index(reg, id);
            if 0 <= j < reg.len() {
                fields_var_len(reg, j, 0)
            } else {
                false
            }
        },
        _ => false,
    }
}

/// Appending a holder field to a derived list keeps the running
/// variable-length disjunction in step.
pub proof fn lemma_push_exists_var(
    reg: Seq<KeyHolderSchema>,
    hfs: Seq<HolderField>,
    x: HolderField,
)
    ensures
        (exists|m: int|
            0 <= m < hfs.push(x).len() && ty_var_on(reg, (#[trigger] hfs.push(x)[m]).ty)) <==> ((
        exists|m: int| 0 <= m < hfs.len() && ty_var_on(reg, (#[trigger] hfs[m]).ty))
            || ty_var_on(reg, x.ty)),
{
    let s2 = hfs.push(x);
    if exists|m: int| 0 <= m < s2.len() && ty_var_on(reg, (#[trigger] s2[m]).ty) {
        let m = choose|m: int| 0 <= m < s2.len() && ty_var_on(reg, (#[trigger] s2[m]).ty);
        if m < hfs.len() {
            assert(hfs[m] == s2[m]);
            assert(0 <= m < hfs.len() && ty_var_on(reg, hfs[m].ty));
        } else {
            assert(s2[m] == x);
        }
    }
    if exists|m: int| 0 <= m < hfs.len() && ty_var_on(reg, (#[trigger] hfs[m]).ty) {
        let m = choose|m: int| 0 <= m < hfs.len() && ty_var_on(reg, (#[trigger] hfs[m]).ty);
        assert(s2[m] == hfs[m]);
        assert(0 <= m < s2.len() && ty_var_on(reg, s2[m].ty));
    }
    if ty_var_on(reg, x.ty) {
        assert(s2[hfs.len() as int] == x);
        assert(0 <= hfs.len() < s2.len() && ty_var_on(reg, s2[hfs.len() as int].ty));
    }
}

/// The variable-length flag of a newly appended schema equals the
/// disjunction of its fields' flags read against the registry it was
/// derived from.
pub proof fn lemma_new_schema_var_len(reg: Seq<KeyHolderSchema>, h: KeyHolderSchema)
    requires
        forall|m: int|
            0 <= m < h.fields@.len() ==> field_wf(
                reg.push(h),
                reg.len() as int,
                (#[trigger] h.fields@[m]).ty,
            ),
    ensures
        fields_var_len(reg.push(h), reg.len() as int, 0) == (exists|m: int|
            0 <= m < h.fields@.len() && ty_var_on(reg, (#[trigger] h.fields@[m]).ty)),
{
    let reg2 = reg.push(h);
    let n = reg.len() as int;
    assert(reg2[n] == h);
    lemma_fields_var_len_exists(reg2, n, 0);
    assert forall|m: int| 0 <= m < h.fields@.len() implies field_ty_var_len(
        reg2,
        n,
        (#[trigger] h.fields@[m]).ty,
    ) == ty_var_on(reg, h.fields@[m].ty) by {
        match h.fields@[m].ty {
            HolderFieldType::Nested(id) => {
                let j = holder_index(reg2, id);
                assert(0 <= j < n);
                lemma_holder_index_prefix(reg2, reg, id, n);
                lemma_fields_var_len_agrees(reg2, reg, j, 0);
            },
            _ => {},
        }
    }
    if exists|m: int|
        0 <= m < h.fields@.len() && field_ty_var_len(reg2, n, (#[trigger] h.fields@[m]).ty) {
        let m = choose|m: int|
            0 <= m < h.fields@.len() && field_ty_var_len(reg2, n, (#[trigger] h.fields@[m]).ty);
        assert(0 <= m < h.fields@.len() && ty_var_on(reg, h.fields@[m].ty));
    }
    if exists|m: int| 0 <= m < h.fields@.len() && ty_var_on(reg, (#[trigger] h.fields@[m]).ty) {
        let m = choose|m: int|
            0 <= m < h.fields@.len() && ty_var_on(reg, (#[trigger] h.fields@[m]).ty);
        assert(0 <= m < h.fields@.len() && field_ty_var_len(reg2, n, h.fields@[m].ty));
    }
    assert(reg2[n].fields@ == h.fields@);
}

/// The registry of derived key holder schemas. Schemas are appended once,
/// at type registration, and never change afterwards; a nested key field
/// can refer only to a schema registered earlier.
pub struct SchemaRegistry {
    schemas: Vec<KeyHolderSchema>,
}

impl View for SchemaRegistry {
    type V = Seq<KeyHolderSchema>;

    closed spec fn view(&self) -> Seq<KeyHolderSchema> {
        self.schemas@
    }
}

impl SchemaRegistry {
    /// Every schema held is well formed.
    pub open spec fn wf(&self) -> bool {
        registry_wf(self@)
    }

    /// An empty registry.
    pub fn new() -> (r: SchemaRegistry)
        ensures
            r@ == Seq::<KeyHolderSchema>::empty(),
            r.wf(),
    {
        SchemaRegistry { schemas: Vec::new() }
    }

    /// How many schemas are registered.
    pub fn len(&self) -> (n: usize)
        ensures
            n == self@.len(),
    {
        self.schemas.len()
    }

    /// The schema at position `i`.
    pub fn schema_at(&self, i: usize) -> (r: &KeyHolderSchema)
        requires
            i < self@.len(),
        ensures
            *r == self@[i as int],
    {
        &self.schemas[i]
    }

    /// The position of the key holder schema registered for `id`, if any:
    /// the earliest registration of an identifier wins.
    pub fn find_schema(&self, id: u64) -> (r: Option<usize>)
        ensures
            match r {
                Some(j) => holder_index(self@, id) == j && j < self@.len(),
                None => holder_index(self@, id) == -1,
            },
    {
        let n = self.schemas.len();
        let mut i: usize = 0;
        while i < n
            invariant
                i <= n,
                n == self@.len(),
                forall|j: int| 0 <= j < i ==> (#[trigger] self@[j]).type_id != id,
            decreases n - i,
        {
            if self.schemas[i].type_id == id {
                proof {
                    lemma_holder_index_char(self@, id);
                    let h = holder_index(self@, id);
                    assert(h != -1);
                    if h < i as int {
                        assert(self@[h].type_id != id);
                    }
                    if h > i as int {
                        assert(self@[i as int].type_id != id);
                    }
                }
                return Some(i);
            }
            i = i + 1;
        }
        proof {
            lemma_holder_index_char(self@, id);
            let h = holder_index(self@, id);
            if h != -1 {
                assert(self@[h].type_id != id);
            }
        }
        None
    }

    /// Derives the key holder schema of `schema` against the registry and
    /// appends it: each key-marked field, in declaration order, becomes a
    /// holder field by its resolution rule, and the variable-length flag
    /// is computed once and memoized. Registration is rejected, and the
    /// registry left unchanged, exactly when some key-marked field does
    /// not resolve; the first such field, in declaration order, names the
    /// error.
    pub fn register(&mut self, schema: &StructuredTypeSchema) -> (r: Result<(), DeriveError>)
        requires
            old(self).wf(),
        ensures
            final(self).wf(),
            match r {
                Ok(()) => {
                    &&& derivation_ok(old(self)@, schema.fields@)
                    &&& final(self)@.len() == old(self)@.len() + 1
                    &&& forall|j: int|
                        0 <= j < old(self)@.len() ==> final(self)@[j] == old(self)@[j]
                    &&& final(self)@.last().type_id == schema.type_id
                    &&& derive_status(old(self)@, schema.fields@, schema.fields@.len() as int)
                        == Ok::<Seq<HolderField>, DeriveError>(final(self)@.last().fields@)
                    &&& final(self)@.last().variable_length == fields_var_len(
                        final(self)@,
                        old(self)@.len() as int,
                        0,
                    )
                },
                Err(e) => {
                    &&& final(self)@ == old(self)@
                    &&& !derivation_ok(old(self)@, schema.fields@)
                    &&& derive_status(old(self)@, schema.fields@, schema.fields@.len() as int)
                        == Err::<Seq<HolderField>, DeriveError>(e)
                },
            },
    {
        let reg_len = self.schemas.len();
        let mut hf: Vec<HolderField> = Vec::new();
        let mut var: bool = false;
        let n = schema.fields.len();
        let mut k: usize = 0;
        while k < n
            invariant
                k <= n,
                n == schema.fields@.len(),
                old(self).wf(),
                self@ == old(self)@,
                reg_len == self@.len(),
                derive_status(self@, schema.fields@, k as int) == Ok::<
                    Seq<HolderField>,
                    DeriveError,
                >(hf@),
                var == (exists|m: int|
                    0 <= m < hf@.len() && ty_var_on(self@, (#[trigger] hf@[m]).ty)),
            decreases n - k,
        {
            let f = schema.fields[k];
            let ghost hf_old = hf@;
            let ghost var_old = var;
            let resolved: Option<HolderFieldType> = match f.marker {
                KeyMarker::NotKey => None,
                KeyMarker::KeyEnum => Some(HolderFieldType::EnumOrdinal),
                KeyMarker::Key => match f.ty {
                    FieldType::Primitive(p) => Some(HolderFieldType::Primitive(p)),
                    FieldType::Text => {
                        var = true;
                        Some(HolderFieldType::Text)
                    },
                    FieldType::Enumeration => {
                        return Err(self.reject(DeriveError::UnsupportedKeyFieldType, schema, k));
                    },
                    FieldType::Named(id) => match self.find_schema(id) {
                        Some(j) => {
                            proof {
                                assert(schema_wf_at(self@, j as int));
                            }
                            if self.schemas[j].variable_length {
                                var = true;
                            }
                            Some(HolderFieldType::Nested(id))
                        },
                        None => {
                            return Err(
                                self.reject(DeriveError::UnsupportedKeyFieldType, schema, k),
                            );
                        },
                    },
                    FieldType::FixedArray(ElementType::Primitive(p), len) => Some(
                        HolderFieldType::PrimArray(p, len),
                    ),
                    FieldType::FixedArray(ElementType::Named(_), _) => {
                        return Err(self.reject(DeriveError::UnsupportedArrayElement, schema, k));
                    },
                    FieldType::Sequence(ElementType::Primitive(p)) => {
                        var = true;
                        Some(HolderFieldType::PrimSequence(p))
                    },
                    FieldType::Sequence(ElementType::Named(_)) => {
                        return Err(self.reject(DeriveError::UnsupportedKeyFieldType, schema, k));
                    },
                },
            };
            match resolved {
                None => {
                    proof {
                        assert(derive_status(self@, schema.fields@, k + 1) == Ok::<
                            Seq<HolderField>,
                            DeriveError,
                        >(hf@));
                    }
                },
                Some(t) => {
                    let x = HolderField { src_index: k, ty: t };
                    hf.push(x);
                    proof {
                        assert(resolve_field(self@, f) == Ok::<HolderFieldType, DeriveError>(t));
                        assert(hf@ == hf_old.push(x));
                        assert(derive_status(self@, schema.fields@, k + 1) == Ok::<
                            Seq<HolderField>,
                            DeriveError,
                        >(hf@));
                        lemma_push_exists_var(self@, hf_old, x);
                        assert(var == (var_old || ty_var_on(self@, t)));
                    }
                },
            }
            k = k + 1;
        }
        let h = KeyHolderSchema { type_id: schema.type_id, fields: hf, variable_length: var };
        let ghost old_reg = self@;
        let ghost hseq = h.fields@;
        let ghost hvar = h.variable_length;
        self.schemas.push(h);
        proof {
            let reg2 = self@;
            let nn = old_reg.len() as int;
            assert(reg2 == old_reg.push(reg2.last()));
            assert forall|j: int| 0 <= j < nn implies old_reg[j] == #[trigger] reg2[j] by {}
            assert(reg2.last().fields@ == hseq);
            assert(reg2.last().type_id == schema.type_id);
            assert(reg2.last().variable_length == hvar);
            lemma_derive_status_ok_props(old_reg, schema.fields@, n as int, hseq);
            // nested references of the new schema resolve below its index
            assert forall|m: int| 0 <= m < hseq.len() implies field_wf(
                reg2,
                nn,
                (#[trigger] hseq[m]).ty,
            ) by {
                match hseq[m].ty {
                    HolderFieldType::Nested(id) => {
                        lemma_holder_index_prefix(old_reg, reg2, id, nn);
                    },
                    _ => {},
                }
            }
            assert(reg2[nn].fields@ == hseq);
            lemma_new_schema_var_len(old_reg, reg2.last());
            // the computed flag matches the classification on the new registry
            assert(fields_var_len(reg2, nn, 0) == hvar);
            // older schemas stay well formed
            assert forall|i: int| 0 <= i < reg2.len() implies #[trigger] schema_wf_at(
                reg2,
                i,
            ) by {
                if i < nn {
                    assert(reg2[i] == old_reg[i]);
                    assert(schema_wf_at(old_reg, i));
                    assert forall|kk: int| 0 <= kk < reg2[i].fields@.len() implies field_wf(
                        reg2,
                        i,
                        (#[trigger] reg2[i].fields@[kk]).ty,
                    ) by {
                        assert(field_wf(old_reg, i, old_reg[i].fields@[kk].ty));
                        match reg2[i].fields@[kk].ty {
                            HolderFieldType::Nested(id) => {
                                lemma_holder_index_prefix(old_reg, reg2, id, nn);
                            },
                            _ => {},
                        }
                    }
                    lemma_fields_var_len_agrees(old_reg, reg2, i, 0);
                } else {
                    assert(i == nn);
                    assert forall|kk: int| 0 <= kk < reg2[i].fields@.len() implies field_wf(
                        reg2,
                        i,
                        (#[trigger] reg2[i].fields@[kk]).ty,
                    ) by {
                        assert(reg2[i].fields@[kk] == hseq[kk]);
                    }
                }
            }
        }
        Ok(())
    }

    /// Records a rejected registration: the registry is left unchanged
    /// and the error of the first offending field is handed back.
    fn reject(&self, e: DeriveError, schema: &StructuredTypeSchema, k: usize) -> (r: DeriveError)
        requires
            k < schema.fields@.len(),
            derive_status(self@, schema.fields@, k as int) is Ok,
            schema.fields@[k as int].marker != KeyMarker::NotKey,
            resolve_field(self@, schema.fields@[k as int]) == Err::<HolderFieldType, DeriveError>(
                e,
            ),
        ensures
            r == e,
            derive_status(self@, schema.fields@, schema.fields@.len() as int) == Err::<
                Seq<HolderField>,
                DeriveError,
            >(e),
    {
        proof {
            assert(derive_status(self@, schema.fields@, k + 1) == Err::<
                Seq<HolderField>,
                DeriveError,
            >(e));
            lemma_derive_status_err(self@, schema.fields@, k + 1, schema.fields@.len() as int);
        }
        e
    }
}

} // verus!
