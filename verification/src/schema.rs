//! Source type schemas: the declarative per-field metadata that replaces
//! reflective attribute markers, and the extractor that keeps only the
//! key-marked fields in declaration order.

use vstd::prelude::*;

verus! {

/// Fixed-width primitive scalar kinds that a key field may hold.
#[derive(Clone, Copy, PartialEq, Eq, Structural, Debug)]
pub enum PrimKind {
    Bool,
    I8,
    I16,
    I32,
    I64,
    U8,
    U16,
    U32,
    U64,
}

/// The element type of a fixed array or of a dynamic sequence.
#[derive(Clone, Copy, PartialEq, Eq, Structural, Debug)]
pub enum ElementType {
    Primitive(PrimKind),
    /// A named structured type, referred to by its type identifier.
    Named(u64),
}

/// The declared type of a field of a structured type.
#[derive(Clone, Copy, PartialEq, Eq, Structural, Debug)]
pub enum FieldType {
    Primitive(PrimKind),
    /// Dynamic-length text.
    Text,
    /// An enumeration; key-markable only with the `KeyEnum` marker.
    Enumeration,
    /// A named structured type, referred to by its type identifier.
    Named(u64),
    /// A fixed array of `len` elements.
    FixedArray(ElementType, usize),
    /// A dynamic-length sequence.
    Sequence(ElementType),
}

/// The per-field key marker.
///
/// `KeyEnum` asserts that the field is an enumeration to be treated as an
/// opaque fixed-width ordinal; the caller must guarantee that the
/// enumeration encodes deterministically and is not variable-width.
#[derive(Clone, Copy, PartialEq, Eq, Structural, Debug)]
pub enum KeyMarker {
    NotKey,
    Key,
    KeyEnum,
}

/// One field declaration: its declared type and its key marker.
/// Fields are positional; the wire contract depends only on the
/// declaration order of the key-marked fields.
#[derive(Clone, Copy, PartialEq, Eq, Structural, Debug)]
pub struct FieldDescriptor {
    pub ty: FieldType,
    pub marker: KeyMarker,
}

/// A structured type: its identifier and its ordered field declarations.
pub struct StructuredTypeSchema {
    pub type_id: u64,
    pub fields: Vec<FieldDescriptor>,
}

/// The key-marked fields of `fields`, in declaration order.
pub open spec fn key_fields_of(fields: Seq<FieldDescriptor>) -> Seq<FieldDescriptor>
    decreases fields.len(),
{
    if fields.len() == 0 {
        Seq::empty()
    } else {
        let rest = key_fields_of(fields.drop_last());
        if fields.last().marker != KeyMarker::NotKey {
            rest.push(fields.last())
        } else {
            rest
        }
    }
}

/// Schema extraction: keeps exactly the key-marked fields, in declaration
/// order, and drops every other field. Pure filtering; no validation.
pub fn extract_key_fields(schema: &StructuredTypeSchema) -> (out: Vec<FieldDescriptor>)
    ensures
        out@ == key_fields_of(schema.fields@),
{
    let mut out: Vec<FieldDescriptor> = Vec::new();
    let n = schema.fields.len();
    let mut i: usize = 0;
    while i < n
        invariant
            i <= n,
            n == schema.fields@.len(),
            out@ == key_fields_of(schema.fields@.take(i as int)),
        decreases n - i,
    {
        let f = schema.fields[i];
        proof {
            assert(schema.fields@.take(i + 1 as int).drop_last() =~= schema.fields@.take(
                i as int,
            ));
            assert(schema.fields@.take(i + 1 as int).last() == schema.fields@[i as int]);
        }
        match f.marker {
            KeyMarker::NotKey => {},
            _ => {
                out.push(f);
            },
        }
        i = i + 1;
    }
    proof {
        assert(schema.fields@.take(n as int) =~= schema.fields@);
    }
    out
}

} // verus!
