//! The intermediate representation consumed by the generator: scalar kinds,
//! value types, fields with resolved byte offsets, struct and union
//! definitions, and the module that groups them.
//!
//! Offsets and sizes are supplied by the caller; the well-formedness
//! predicates below state exactly what the generator assumes of them.

use vstd::prelude::*;

verus! {

/// Scalar kinds storable in the packed buffer: a 32-bit float and
/// 1-, 2- and 4-byte signed and unsigned integers.
#[derive(Clone, Copy, PartialEq, Eq, Structural, Debug)]
pub enum GpuScalar {
    F32,
    U8,
    U16,
    U32,
    I8,
    I16,
    I32,
}

/// Byte width of a scalar kind as stored in the buffer.
pub open spec fn scalar_size(s: GpuScalar) -> nat {
    match s {
        GpuScalar::U8 => 1,
        GpuScalar::I8 => 1,
        GpuScalar::U16 => 2,
        GpuScalar::I16 => 2,
        GpuScalar::F32 => 4,
        GpuScalar::U32 => 4,
        GpuScalar::I32 => 4,
    }
}

impl GpuScalar {
    /// Byte width of the scalar as stored.
    pub fn size(&self) -> (r: usize)
        ensures
            r == scalar_size(*self),
    {
        match self {
            GpuScalar::U8 | GpuScalar::I8 => 1,
            GpuScalar::U16 | GpuScalar::I16 => 2,
            GpuScalar::F32 | GpuScalar::U32 | GpuScalar::I32 => 4,
        }
    }
}

/// An abstract value type. A `Reference` is a handle (a byte offset into the
/// shared buffer) to a value of the named struct type; it is stored as a
/// single 4-byte offset and never dereferenced by the generated code.
#[derive(Clone, Debug)]
pub enum GpuType {
    Scalar(GpuScalar),
    /// A fixed-size vector of 1 to 4 lanes of one scalar kind.
    Vector(GpuScalar, usize),
    /// A struct of the given name stored inline at the field's offset.
    InlineStruct(String),
    /// A handle to a struct of the given name.
    Reference(String),
}

/// A value type together with its resolved byte size. The size is derivable
/// from the type (and, for inline structs, from the named struct's layout)
/// but is carried alongside to avoid recomputation.
#[derive(Clone, Debug)]
pub struct LayoutType {
    pub size: usize,
    pub ty: GpuType,
}

/// A named struct member at a resolved byte offset.
#[derive(Clone, Debug)]
pub struct Field {
    pub name: String,
    pub offset: usize,
    pub ty: LayoutType,
}

/// The payload of a union variant: a value type at a fixed byte offset.
#[derive(Clone, Debug)]
pub struct PayloadItem {
    pub offset: usize,
    pub ty: LayoutType,
}

/// A union variant. Its 0-based position in the variant list is its tag.
/// Accessors are generated only for variants whose payload is empty or a
/// single inline struct; other shapes get no accessor.
#[derive(Clone, Debug)]
pub struct Variant {
    pub name: String,
    pub payload: Vec<PayloadItem>,
}

/// A type definition: a struct of ordered fields or a tagged union of
/// ordered variants.
#[derive(Clone, Debug)]
pub enum LayoutTypeDef {
    Struct(Vec<Field>),
    Enum(Vec<Variant>),
}

/// A definition with its name and total byte size.
#[derive(Clone, Debug)]
pub struct NamedDef {
    pub name: String,
    pub size: usize,
    pub def: LayoutTypeDef,
}

/// A compilation unit: the buffer identifier used in emitted code, the
/// definitions in declaration order (a name must come after every name it
/// depends on), and whether write accessors are generated.
#[derive(Clone, Debug)]
pub struct LayoutModule {
    pub name: String,
    pub defs: Vec<NamedDef>,
    pub gpu_write: bool,
}

/// Upper bound on `offset + size` of any field, so that all offset
/// arithmetic stays well inside `usize` and the emitted 32-bit offsets.
pub const MAX_LAYOUT: usize = 0x1000_0000;

/// The carried size matches the type: the width table for scalars, lane
/// count times scalar width for vectors, 4 bytes for a handle, and a
/// word-aligned size for an inline struct.
pub open spec fn wf_layout_type(t: LayoutType) -> bool {
    match t.ty {
        GpuType::Scalar(s) => t.size == scalar_size(s),
        GpuType::Vector(s, n) => 1 <= n <= 4 && t.size == n * scalar_size(s),
        GpuType::InlineStruct(_) => t.size % 4 == 0,
        GpuType::Reference(_) => t.size == 4,
    }
}

/// A scalar stored at byte `offset` must lie within a single 32-bit word:
/// the packing scheme reads and writes each scalar through one raw word.
pub open spec fn scalar_fits_word(offset: nat, s: GpuScalar) -> bool {
    offset % 4 + scalar_size(s) <= 4
}

/// What the generator assumes of a struct field: a consistent carried size,
/// bounded offsets, every scalar or lane confined to one word, and nested
/// structs and handles placed on word boundaries.
pub open spec fn wf_field(f: Field) -> bool {
    &&& wf_layout_type(f.ty)
    &&& f.offset + f.ty.size <= MAX_LAYOUT
    &&& match f.ty.ty {
        GpuType::Scalar(s) => scalar_fits_word(f.offset as nat, s),
        GpuType::Vector(s, _) => (f.offset as nat) % scalar_size(s) == 0 && scalar_fits_word(
            f.offset as nat,
            s,
        ),
        GpuType::InlineStruct(_) => f.offset % 4 == 0,
        GpuType::Reference(_) => f.offset % 4 == 0,
    }
}

/// A vector whose start is aligned to its scalar width keeps every lane
/// inside a single word.
pub proof fn lemma_lane_fits_word(offset: nat, s: GpuScalar, i: nat)
    requires
        offset % scalar_size(s) == 0,
        scalar_fits_word(offset, s),
    ensures
        scalar_fits_word(offset + i * scalar_size(s), s),
{
    let w = scalar_size(s);
    assert((offset + i * w) % 4 + w <= 4) by (nonlinear_arith)
        requires
            offset % w == 0,
            offset % 4 + w <= 4,
            w == 1 || w == 2 || w == 4,
    ;
}

pub open spec fn wf_fields(fields: Seq<Field>) -> bool {
    forall|i: int| 0 <= i < fields.len() ==> #[trigger] wf_field(fields[i])
}

pub open spec fn wf_payload_item(p: PayloadItem) -> bool {
    &&& wf_layout_type(p.ty)
    &&& p.offset % 4 == 0
    &&& p.offset + p.ty.size <= MAX_LAYOUT
}

pub open spec fn wf_variant(v: Variant) -> bool {
    forall|i: int| 0 <= i < v.payload@.len() ==> #[trigger] wf_payload_item(v.payload@[i])
}

pub open spec fn wf_def(d: LayoutTypeDef) -> bool {
    match d {
        LayoutTypeDef::Struct(fields) => wf_fields(fields@),
        LayoutTypeDef::Enum(vs) => forall|i: int|
            0 <= i < vs@.len() ==> #[trigger] wf_variant(vs@[i]),
    }
}

/// The input contract of the generator: every definition is well-formed.
pub open spec fn wf_module(m: LayoutModule) -> bool {
    forall|i: int| 0 <= i < m.defs@.len() ==> #[trigger] wf_def(m.defs@[i].def)
}

} // verus!
