//! Emission of GLSL struct definitions and accessor functions.
//!
//! Every function that emits text carries a specification pinning down each
//! character of its output, so the whole artifact produced by [`gen_glsl`]
//! is a function of the module value alone.

use vstd::prelude::*;

use crate::coverage::covering_ixs;
use crate::coverage::spec_n_words;
use crate::coverage::struct_coverage;
use crate::coverage::word_used;
use crate::ir::Field;
use crate::ir::GpuScalar;
use crate::ir::GpuType;
use crate::ir::LayoutModule;
use crate::ir::LayoutTypeDef;
use crate::ir::MAX_LAYOUT;
use crate::ir::NamedDef;
use crate::ir::Variant;
use crate::ir::scalar_fits_word;
use crate::ir::scalar_size;
use crate::ir::wf_def;
use crate::ir::wf_field;
use crate::ir::wf_fields;
use crate::ir::wf_module;
use crate::strfmt::push_dec;
use crate::strfmt::spec_dec;

verus! {

/// The GLSL primitive that can hold a scalar of this kind.
pub open spec fn spec_glsl_scalar(s: GpuScalar) -> Seq<char> {
    match s {
        GpuScalar::F32 => "float"@,
        GpuScalar::I8 => "int"@,
        GpuScalar::I16 => "int"@,
        GpuScalar::I32 => "int"@,
        GpuScalar::U8 => "uint"@,
        GpuScalar::U16 => "uint"@,
        GpuScalar::U32 => "uint"@,
    }
}

/// The GLSL vector constructor family for the scalar kind.
pub open spec fn spec_glsl_vecname(s: GpuScalar) -> Seq<char> {
    match s {
        GpuScalar::F32 => "vec"@,
        GpuScalar::I8 => "ivec"@,
        GpuScalar::I16 => "ivec"@,
        GpuScalar::I32 => "ivec"@,
        GpuScalar::U8 => "uvec"@,
        GpuScalar::U16 => "uvec"@,
        GpuScalar::U32 => "uvec"@,
    }
}

/// The GLSL type name for a value type. A one-lane vector collapses to its
/// scalar, a handle to `Foo` is named `FooRef`.
pub open spec fn spec_glsl_type(ty: GpuType) -> Seq<char> {
    match ty {
        GpuType::Scalar(s) => spec_glsl_scalar(s),
        GpuType::Vector(s, n) => if n == 1 {
            spec_glsl_scalar(s)
        } else {
            spec_glsl_vecname(s) + spec_dec(n as nat)
        },
        GpuType::InlineStruct(name) => name@,
        GpuType::Reference(name) => name@ + "Ref"@,
    }
}

/// `var_name` when `c` is zero, `var_name + c` otherwise.
pub open spec fn spec_simplified_add(var_name: Seq<char>, c: nat) -> Seq<char> {
    if c == 0 {
        var_name
    } else {
        var_name + " + "@ + spec_dec(c)
    }
}

/// The local raw-word variable holding word `w` of the struct.
pub open spec fn spec_raw(w: nat) -> Seq<char> {
    "raw"@ + spec_dec(w)
}

/// The hexadecimal mask keeping the low `nbytes` bytes.
pub open spec fn spec_mask(nbytes: nat) -> Seq<char> {
    if nbytes == 1 {
        "0xff"@
    } else {
        "0xffff"@
    }
}

/// The expression extracting an unsigned field of `nbytes` bytes stored at
/// byte `offset`: shift the raw word down to the field's bit offset and mask
/// its width, dropping the mask when the field reaches the word's top and
/// the shift when it starts the word.
pub open spec fn spec_extract_ubits(offset: nat, nbytes: nat) -> Seq<char> {
    if nbytes == 4 {
        spec_raw(offset / 4)
    } else if offset % 4 == 0 {
        spec_raw(offset / 4) + " & "@ + spec_mask(nbytes)
    } else if offset % 4 + nbytes == 4 {
        spec_raw(offset / 4) + " >> "@ + spec_dec(offset % 4 * 8)
    } else {
        "("@ + spec_raw(offset / 4) + " >> "@ + spec_dec(offset % 4 * 8) + ") & "@ + spec_mask(
            nbytes,
        )
    }
}

/// The expression extracting a signed field with correct sign extension: a
/// single arithmetic right shift when the field reaches the word's top bit,
/// otherwise a left shift up to the top followed by an arithmetic right
/// shift back down by the field width's complement.
pub open spec fn spec_extract_ibits(offset: nat, nbytes: nat) -> Seq<char> {
    if nbytes == 4 {
        "int("@ + spec_raw(offset / 4) + ")"@
    } else if offset % 4 + nbytes == 4 {
        "int("@ + spec_raw(offset / 4) + ") >> "@ + spec_dec(offset % 4 * 8)
    } else {
        "int("@ + spec_raw(offset / 4) + " << "@ + spec_dec(
            (((4 - nbytes) - offset % 4) * 8) as nat,
        ) + ") >> "@ + spec_dec(((4 - nbytes) * 8) as nat)
    }
}

/// The expression extracting one scalar stored at byte `offset`: a bit-cast
/// for floats, masked shifts for unsigned kinds, sign extension for signed
/// kinds.
pub open spec fn spec_extract_scalar(offset: nat, s: GpuScalar) -> Seq<char> {
    match s {
        GpuScalar::F32 => "uintBitsToFloat("@ + spec_raw(offset / 4) + ")"@,
        GpuScalar::U8 => spec_extract_ubits(offset, scalar_size(s)),
        GpuScalar::U16 => spec_extract_ubits(offset, scalar_size(s)),
        GpuScalar::U32 => spec_extract_ubits(offset, scalar_size(s)),
        GpuScalar::I8 => spec_extract_ibits(offset, scalar_size(s)),
        GpuScalar::I16 => spec_extract_ibits(offset, scalar_size(s)),
        GpuScalar::I32 => spec_extract_ibits(offset, scalar_size(s)),
    }
}

/// The comma-separated per-lane extraction expressions of the first `n`
/// lanes of a vector starting at byte `offset`.
pub open spec fn spec_lane_args(offset: nat, s: GpuScalar, n: nat) -> Seq<char>
    decreases n,
{
    if n == 0 {
        Seq::empty()
    } else if n == 1 {
        spec_extract_scalar(offset, s)
    } else {
        spec_lane_args(offset, s, (n - 1) as nat) + ", "@ + spec_extract_scalar(
            (offset + (n - 1) * scalar_size(s)) as nat,
            s,
        )
    }
}

/// The expression producing a whole field value at byte `offset`: a scalar
/// extraction, a vector constructor over per-lane extractions, a delegated
/// read call for an inline struct, or a handle built from the raw word.
pub open spec fn spec_extract(offset: nat, ty: GpuType) -> Seq<char> {
    match ty {
        GpuType::Scalar(s) => spec_extract_scalar(offset, s),
        GpuType::Vector(s, n) => spec_glsl_type(ty) + "("@ + spec_lane_args(offset, s, n as nat)
            + ")"@,
        GpuType::InlineStruct(name) => name@ + "_read("@ + name@ + "Ref("@ + spec_simplified_add(
            "ref.offset"@,
            offset,
        ) + "))"@,
        GpuType::Reference(name) => name@ + "Ref("@ + spec_extract_scalar(offset, GpuScalar::U32)
            + ")"@,
    }
}

/// The bit-pattern expression contributed by one scalar stored at byte
/// `offset`, with `inner` naming the source value: floats are bit-cast,
/// unsigned values used as they are (the caller guarantees they fit), signed
/// values cast to unsigned and masked to their width unless they already end
/// at the word's top; the result is shifted to the field's bit offset.
pub open spec fn spec_pack_bits_scalar(s: GpuScalar, offset: nat, inner: Seq<char>) -> Seq<char> {
    let shift = offset % 4 * 8;
    let bits = match s {
        GpuScalar::F32 => "floatBitsToUint("@ + inner + ")"@,
        GpuScalar::U8 => inner,
        GpuScalar::U16 => inner,
        GpuScalar::U32 => inner,
        GpuScalar::I8 => if shift == 24 {
            "uint("@ + inner + ")"@
        } else {
            "(uint("@ + inner + ") & 0xff)"@
        },
        GpuScalar::I16 => if shift == 16 {
            "uint("@ + inner + ")"@
        } else {
            "(uint("@ + inner + ") & 0xffff)"@
        },
        GpuScalar::I32 => "uint("@ + inner + ")"@,
    };
    if shift == 0 {
        bits
    } else {
        "("@ + bits + " << "@ + spec_dec(shift) + ")"@
    }
}

/// What [`gen_extract`] assumes of a field's offset and type; implied by
/// [`crate::ir::wf_field`].
pub open spec fn extract_req(offset: nat, ty: GpuType) -> bool {
    match ty {
        GpuType::Scalar(s) => scalar_fits_word(offset, s),
        GpuType::Vector(s, n) => offset % scalar_size(s) == 0 && scalar_fits_word(offset, s) && 1
            <= n <= 4 && offset + n * scalar_size(s) <= MAX_LAYOUT,
        GpuType::InlineStruct(_) => offset <= MAX_LAYOUT,
        GpuType::Reference(_) => offset % 4 == 0,
    }
}

/// GLSL type that can contain the scalar value.
pub fn glsl_scalar(s: &GpuScalar) -> (r: &'static str)
    ensures
        r@ == spec_glsl_scalar(*s),
{
    match s {
        GpuScalar::F32 => "float",
        GpuScalar::I8 | GpuScalar::I16 | GpuScalar::I32 => "int",
        GpuScalar::U8 | GpuScalar::U16 | GpuScalar::U32 => "uint",
    }
}

/// GLSL vector constructor family for the scalar kind.
pub fn glsl_vecname(s: &GpuScalar) -> (r: &'static str)
    ensures
        r@ == spec_glsl_vecname(*s),
{
    match s {
        GpuScalar::F32 => "vec",
        GpuScalar::I8 | GpuScalar::I16 | GpuScalar::I32 => "ivec",
        GpuScalar::U8 | GpuScalar::U16 | GpuScalar::U32 => "uvec",
    }
}

/// GLSL type name for a value type.
pub fn glsl_type(ty: &GpuType) -> (r: String)
    ensures
        r@ == spec_glsl_type(*ty),
{
    let mut r = String::new();
    match ty {
        GpuType::Scalar(s) => {
            r.append(glsl_scalar(s));
        },
        GpuType::Vector(s, n) => {
            if *n == 1 {
                r.append(glsl_scalar(s));
            } else {
                r.append(glsl_vecname(s));
                push_dec(&mut r, *n);
            }
        },
        GpuType::InlineStruct(name) => {
            r.append(name.as_str());
        },
        GpuType::Reference(name) => {
            r.append(name.as_str());
            r.append("Ref");
        },
    }
    proof {
        assert(r@ =~= spec_glsl_type(*ty));
    }
    r
}

/// If `c` is zero, emits `var_name` alone, else `var_name + c`.
pub fn simplified_add(var_name: &str, c: usize) -> (r: String)
    ensures
        r@ == spec_simplified_add(var_name@, c as nat),
{
    let mut r = String::new();
    r.append(var_name);
    if c != 0 {
        r.append(" + ");
        push_dec(&mut r, c);
    }
    proof {
        assert(r@ =~= spec_simplified_add(var_name@, c as nat));
    }
    r
}

fn push_raw(r: &mut String, w: usize)
    ensures
        final(r)@ == old(r)@ + spec_raw(w as nat),
{
    r.append("raw");
    push_dec(r, w);
    proof {
        assert(r@ =~= old(r)@ + spec_raw(w as nat));
    }
}

fn mask_str(nbytes: usize) -> (r: &'static str)
    requires
        nbytes == 1 || nbytes == 2,
    ensures
        r@ == spec_mask(nbytes as nat),
{
    if nbytes == 1 {
        "0xff"
    } else {
        "0xffff"
    }
}

/// The extraction expression for an unsigned integer of `nbytes` bytes
/// stored at byte `offset`.
pub fn extract_ubits(offset: usize, nbytes: usize) -> (r: String)
    requires
        nbytes == 1 || nbytes == 2 || nbytes == 4,
    ensures
        r@ == spec_extract_ubits(offset as nat, nbytes as nat),
{
    let mut r = String::new();
    if nbytes == 4 {
        push_raw(&mut r, offset / 4);
    } else if offset % 4 == 0 {
        push_raw(&mut r, offset / 4);
        r.append(" & ");
        r.append(mask_str(nbytes));
    } else if offset % 4 + nbytes == 4 {
        push_raw(&mut r, offset / 4);
        r.append(" >> ");
        push_dec(&mut r, offset % 4 * 8);
    } else {
        r.append("(");
        push_raw(&mut r, offset / 4);
        r.append(" >> ");
        push_dec(&mut r, offset % 4 * 8);
        r.append(") & ");
        r.append(mask_str(nbytes));
    }
    proof {
        assert(r@ =~= spec_extract_ubits(offset as nat, nbytes as nat));
    }
    r
}

/// The extraction expression for a signed integer of `nbytes` bytes stored
/// at byte `offset`, sign-extended to 32 bits.
pub fn extract_ibits(offset: usize, nbytes: usize) -> (r: String)
    requires
        nbytes == 1 || nbytes == 2 || nbytes == 4,
        offset % 4 + nbytes <= 4,
    ensures
        r@ == spec_extract_ibits(offset as nat, nbytes as nat),
{
    let mut r = String::new();
    if nbytes == 4 {
        r.append("int(");
        push_raw(&mut r, offset / 4);
        r.append(")");
    } else if offset % 4 + nbytes == 4 {
        r.append("int(");
        push_raw(&mut r, offset / 4);
        r.append(") >> ");
        push_dec(&mut r, offset % 4 * 8);
    } else {
        r.append("int(");
        push_raw(&mut r, offset / 4);
        r.append(" << ");
        push_dec(&mut r, ((4 - nbytes) - offset % 4) * 8);
        r.append(") >> ");
        push_dec(&mut r, (4 - nbytes) * 8);
    }
    proof {
        assert(r@ =~= spec_extract_ibits(offset as nat, nbytes as nat));
    }
    r
}

/// The extraction expression for one scalar stored at byte `offset`.
pub fn gen_extract_scalar(offset: usize, ty: &GpuScalar) -> (r: String)
    requires
        scalar_fits_word(offset as nat, *ty),
    ensures
        r@ == spec_extract_scalar(offset as nat, *ty),
{
    match ty {
        GpuScalar::F32 => {
            let mut r = String::new();
            r.append("uintBitsToFloat(");
            push_raw(&mut r, offset / 4);
            r.append(")");
            proof {
                assert(r@ =~= spec_extract_scalar(offset as nat, *ty));
            }
            r
        },
        GpuScalar::U8 | GpuScalar::U16 | GpuScalar::U32 => extract_ubits(offset, ty.size()),
        GpuScalar::I8 | GpuScalar::I16 | GpuScalar::I32 => extract_ibits(offset, ty.size()),
    }
}

/// The expression producing a whole field value stored at byte `offset`.
pub fn gen_extract(offset: usize, ty: &GpuType) -> (r: String)
    requires
        extract_req(offset as nat, *ty),
    ensures
        r@ == spec_extract(offset as nat, *ty),
{
    match ty {
        GpuType::Scalar(scalar) => gen_extract_scalar(offset, scalar),
        GpuType::Vector(scalar, size) => {
            let mut r = glsl_type(ty);
            r.append("(");
            let mut i: usize = 0;
            while i < *size
                invariant
                    i <= *size,
                    extract_req(offset as nat, *ty),
                    *ty == GpuType::Vector(*scalar, *size),
                    r@ == spec_glsl_type(*ty) + "("@ + spec_lane_args(
                        offset as nat,
                        *scalar,
                        i as nat,
                    ),
                decreases *size - i,
            {
                if i != 0 {
                    r.append(", ");
                }
                let el_offset = offset + i * scalar.size();
                proof {
                    crate::ir::lemma_lane_fits_word(offset as nat, *scalar, i as nat);
                }
                let lane = gen_extract_scalar(el_offset, scalar);
                r.append(lane.as_str());
                proof {
                    assert(r@ =~= spec_glsl_type(*ty) + "("@ + spec_lane_args(
                        offset as nat,
                        *scalar,
                        (i + 1) as nat,
                    ));
                }
                i += 1;
            }
            r.append(")");
            proof {
                assert(r@ =~= spec_extract(offset as nat, *ty));
            }
            r
        },
        GpuType::InlineStruct(name) => {
            let mut r = String::new();
            r.append(name.as_str());
            r.append("_read(");
            r.append(name.as_str());
            r.append("Ref(");
            let addr = simplified_add("ref.offset", offset);
            r.append(addr.as_str());
            r.append("))");
            proof {
                assert(r@ =~= spec_extract(offset as nat, *ty));
            }
            r
        },
        GpuType::Reference(name) => {
            let mut r = String::new();
            r.append(name.as_str());
            r.append("Ref(");
            let word = gen_extract_scalar(offset, &GpuScalar::U32);
            r.append(word.as_str());
            r.append(")");
            proof {
                assert(r@ =~= spec_extract(offset as nat, *ty));
            }
            r
        },
    }
}

/// The bit-pattern expression contributed by one scalar at byte `offset`,
/// with `inner` naming the source value in the emitted code.
pub fn gen_pack_bits_scalar(ty: &GpuScalar, offset: usize, inner: &str) -> (r: String)
    ensures
        r@ == spec_pack_bits_scalar(*ty, offset as nat, inner@),
{
    let shift = offset % 4 * 8;
    let mut bits = String::new();
    match ty {
        GpuScalar::F32 => {
            bits.append("floatBitsToUint(");
            bits.append(inner);
            bits.append(")");
        },
        GpuScalar::U8 | GpuScalar::U16 | GpuScalar::U32 => {
            bits.append(inner);
        },
        GpuScalar::I8 => {
            if shift == 24 {
                bits.append("uint(");
                bits.append(inner);
                bits.append(")");
            } else {
                bits.append("(uint(");
                bits.append(inner);
                bits.append(") & 0xff)");
            }
        },
        GpuScalar::I16 => {
            if shift == 16 {
                bits.append("uint(");
                bits.append(inner);
                bits.append(")");
            } else {
                bits.append("(uint(");
                bits.append(inner);
                bits.append(") & 0xffff)");
            }
        },
        GpuScalar::I32 => {
            bits.append("uint(");
            bits.append(inner);
            bits.append(")");
        },
    }
    if shift == 0 {
        proof {
            assert(bits@ =~= spec_pack_bits_scalar(*ty, offset as nat, inner@));
        }
        bits
    } else {
        let mut r = String::new();
        r.append("(");
        r.append(bits.as_str());
        r.append(" << ");
        push_dec(&mut r, shift);
        r.append(")");
        proof {
            assert(r@ =~= spec_pack_bits_scalar(*ty, offset as nat, inner@));
        }
        r
    }
}


/// The handle declaration for a definition: a struct holding one unsigned
/// byte offset into the shared buffer.
pub open spec fn spec_refdef(name: Seq<char>) -> Seq<char> {
    "struct "@ + name + "Ref {\n"@ + "    uint offset;\n"@ + "};\n\n"@
}

/// The handle declarations of all definitions, in declaration order.
pub open spec fn spec_refdefs(defs: Seq<NamedDef>) -> Seq<char>
    decreases defs.len(),
{
    if defs.len() == 0 {
        Seq::empty()
    } else {
        spec_refdefs(defs.drop_last()) + spec_refdef(defs.last().name@)
    }
}

/// One member line of a struct declaration.
pub open spec fn spec_field_decl(f: Field) -> Seq<char> {
    "    "@ + spec_glsl_type(f.ty.ty) + " "@ + f.name@ + ";\n"@
}

pub open spec fn spec_field_decls(fields: Seq<Field>) -> Seq<char>
    decreases fields.len(),
{
    if fields.len() == 0 {
        Seq::empty()
    } else {
        spec_field_decls(fields.drop_last()) + spec_field_decl(fields.last())
    }
}

/// The GLSL struct declaration for a struct definition.
pub open spec fn spec_struct_def(name: Seq<char>, fields: Seq<Field>) -> Seq<char> {
    "struct "@ + name + " {\n"@ + spec_field_decls(fields) + "};\n\n"@
}

/// The tag constants of a union: one `#define` per variant, the value being
/// the variant's 0-based position.
pub open spec fn spec_enum_defines(name: Seq<char>, variants: Seq<Variant>) -> Seq<char>
    decreases variants.len(),
{
    if variants.len() == 0 {
        Seq::empty()
    } else {
        spec_enum_defines(name, variants.drop_last()) + "#define "@ + name + "_"@
            + variants.last().name@ + " "@ + spec_dec((variants.len() - 1) as nat) + "\n"@
    }
}

/// The size constant and element-indexing helper of a definition: the
/// emitted `_index` function returns a handle whose offset is
/// `ref.offset + index * size`.
pub open spec fn spec_item_def(name: Seq<char>, size: nat) -> Seq<char> {
    "#define "@ + name + "_size "@ + spec_dec(size) + "\n\n"@ + name + "Ref "@ + name + "_index("@
        + name + "Ref ref, uint index) {\n"@ + "    return "@ + name
        + "Ref(ref.offset + index * "@ + name + "_size);\n"@ + "}\n\n"@
}

/// Emits the handle declaration for `name`.
pub fn gen_refdef(r: &mut String, name: &str)
    ensures
        final(r)@ == old(r)@ + spec_refdef(name@),
{
    r.append("struct ");
    r.append(name);
    r.append("Ref {\n");
    r.append("    uint offset;\n");
    r.append("};\n\n");
    proof {
        assert(r@ =~= old(r)@ + spec_refdef(name@));
    }
}

/// Emits the GLSL struct declaration for a struct definition.
pub fn gen_struct_def(r: &mut String, name: &str, fields: &Vec<Field>)
    ensures
        final(r)@ == old(r)@ + spec_struct_def(name@, fields@),
{
    r.append("struct ");
    r.append(name);
    r.append(" {\n");
    let mut j: usize = 0;
    while j < fields.len()
        invariant
            j <= fields.len(),
            r@ == old(r)@ + "struct "@ + name@ + " {\n"@ + spec_field_decls(
                fields@.take(j as int),
            ),
        decreases fields.len() - j,
    {
        let f = &fields[j];
        r.append("    ");
        let tyname = glsl_type(&f.ty.ty);
        r.append(tyname.as_str());
        r.append(" ");
        r.append(f.name.as_str());
        r.append(";\n");
        proof {
            assert(fields@.take(j + 1 as int).drop_last() =~= fields@.take(j as int));
            assert(r@ =~= old(r)@ + "struct "@ + name@ + " {\n"@ + spec_field_decls(
                fields@.take(j + 1 as int),
            ));
        }
        j += 1;
    }
    r.append("};\n\n");
    proof {
        assert(fields@.take(fields@.len() as int) =~= fields@);
        assert(r@ =~= old(r)@ + spec_struct_def(name@, fields@));
    }
}

/// Emits the tag constants of a union definition.
pub fn gen_enum_def(r: &mut String, name: &str, variants: &Vec<Variant>)
    ensures
        final(r)@ == old(r)@ + spec_enum_defines(name@, variants@),
{
    let mut j: usize = 0;
    while j < variants.len()
        invariant
            j <= variants.len(),
            r@ == old(r)@ + spec_enum_defines(name@, variants@.take(j as int)),
        decreases variants.len() - j,
    {
        r.append("#define ");
        r.append(name);
        r.append("_");
        r.append(variants[j].name.as_str());
        r.append(" ");
        push_dec(r, j);
        r.append("\n");
        proof {
            assert(variants@.take(j + 1 as int).drop_last() =~= variants@.take(j as int));
            assert(r@ =~= old(r)@ + spec_enum_defines(name@, variants@.take(j + 1 as int)));
        }
        j += 1;
    }
    proof {
        assert(variants@.take(variants@.len() as int) =~= variants@);
    }
}

/// Emits the size constant and element-indexing helper for a definition.
pub fn gen_item_def(r: &mut String, name: &str, size: usize)
    ensures
        final(r)@ == old(r)@ + spec_item_def(name@, size as nat),
{
    r.append("#define ");
    r.append(name);
    r.append("_size ");
    push_dec(r, size);
    r.append("\n\n");
    r.append(name);
    r.append("Ref ");
    r.append(name);
    r.append("_index(");
    r.append(name);
    r.append("Ref ref, uint index) {\n");
    r.append("    return ");
    r.append(name);
    r.append("Ref(ref.offset + index * ");
    r.append(name);
    r.append("_size);\n");
    r.append("}\n\n");
    proof {
        assert(r@ =~= old(r)@ + spec_item_def(name@, size as nat));
    }
}


/// What [`gen_extract`] needs holds of every well-formed field.
pub proof fn lemma_wf_field_extract_req(f: Field)
    requires
        wf_field(f),
    ensures
        extract_req(f.offset as nat, f.ty.ty),
{
}

/// The line loading raw word `w` of the struct into a local variable.
pub open spec fn spec_raw_load(bufname: Seq<char>, w: nat) -> Seq<char> {
    "    uint raw"@ + spec_dec(w) + " = "@ + bufname + "[ix + "@ + spec_dec(w) + "];\n"@
}

/// The load lines of the first `n` words: one line per word that some
/// field's stored bytes overlap, none for uncovered words.
pub open spec fn spec_raw_loads(fields: Seq<Field>, bufname: Seq<char>, n: nat) -> Seq<char>
    decreases n,
{
    if n == 0 {
        Seq::empty()
    } else {
        spec_raw_loads(fields, bufname, (n - 1) as nat) + if word_used(fields, false, n - 1) {
            spec_raw_load(bufname, (n - 1) as nat)
        } else {
            Seq::empty()
        }
    }
}

/// The line decoding one field into the result value.
pub open spec fn spec_field_read(f: Field) -> Seq<char> {
    "    s."@ + f.name@ + " = "@ + spec_extract(f.offset as nat, f.ty.ty) + ";\n"@
}

pub open spec fn spec_field_reads(fields: Seq<Field>) -> Seq<char>
    decreases fields.len(),
{
    if fields.len() == 0 {
        Seq::empty()
    } else {
        spec_field_reads(fields.drop_last()) + spec_field_read(fields.last())
    }
}

/// The decode function of a struct: load the covered raw words once each,
/// then extract every field from them.
pub open spec fn spec_struct_read(bufname: Seq<char>, name: Seq<char>, fields: Seq<Field>) -> Seq<
    char,
> {
    name + " "@ + name + "_read("@ + name + "Ref ref) {\n"@ + "    uint ix = ref.offset >> 2;\n"@
        + spec_raw_loads(fields, bufname, spec_n_words(fields, false) as nat) + "    "@ + name
        + " s;\n"@ + spec_field_reads(fields) + "    return s;\n"@ + "}\n\n"@
}

/// Emits the decode function of a struct definition.
pub fn gen_struct_read(r: &mut String, bufname: &str, name: &str, fields: &Vec<Field>)
    requires
        wf_fields(fields@),
    ensures
        final(r)@ == old(r)@ + spec_struct_read(bufname@, name@, fields@),
{
    r.append(name);
    r.append(" ");
    r.append(name);
    r.append("_read(");
    r.append(name);
    r.append("Ref ref) {\n");
    r.append("    uint ix = ref.offset >> 2;\n");
    let ghost head = old(r)@ + name@ + " "@ + name@ + "_read("@ + name@ + "Ref ref) {\n"@
        + "    uint ix = ref.offset >> 2;\n"@;
    let coverage = struct_coverage(fields, false);
    let nf = fields.len();
    let mut i: usize = 0;
    while i < coverage.len()
        invariant
            nf == fields@.len(),
            i <= coverage@.len(),
            coverage@.len() == spec_n_words(fields@, false),
            coverage@.len() <= MAX_LAYOUT,
            forall|w: int| 0 <= w < coverage@.len() ==> #[trigger] coverage@[w]@ == covering_ixs(
                fields@,
                false,
                w,
            ),
            r@ == head + spec_raw_loads(fields@, bufname@, i as nat),
        decreases coverage@.len() - i,
    {
        proof {
            assert(coverage@[i as int]@ == covering_ixs(fields@, false, i as int));
            crate::coverage::lemma_group_nonempty(fields@, false, i as int);
        }
        if coverage[i].len() > 0 {
            r.append("    uint raw");
            push_dec(r, i);
            r.append(" = ");
            r.append(bufname);
            r.append("[ix + ");
            push_dec(r, i);
            r.append("];\n");
        }
        proof {
            assert(r@ =~= head + spec_raw_loads(fields@, bufname@, (i + 1) as nat));
        }
        i += 1;
    }
    r.append("    ");
    r.append(name);
    r.append(" s;\n");
    let ghost mid = head + spec_raw_loads(fields@, bufname@, spec_n_words(fields@, false) as nat)
        + "    "@ + name@ + " s;\n"@;
    proof {
        assert(r@ =~= mid + spec_field_reads(fields@.take(0)));
    }
    let mut j: usize = 0;
    while j < fields.len()
        invariant
            j <= fields.len(),
            wf_fields(fields@),
            r@ == mid + spec_field_reads(fields@.take(j as int)),
        decreases fields.len() - j,
    {
        proof {
            assert(wf_field(fields@[j as int]));
            lemma_wf_field_extract_req(fields@[j as int]);
        }
        let f = &fields[j];
        r.append("    s.");
        r.append(f.name.as_str());
        r.append(" = ");
        let e = gen_extract(f.offset, &f.ty.ty);
        r.append(e.as_str());
        r.append(";\n");
        proof {
            assert(fields@.take(j + 1 as int).drop_last() =~= fields@.take(j as int));
            assert(r@ =~= mid + spec_field_reads(fields@.take(j + 1 as int)));
        }
        j += 1;
    }
    r.append("    return s;\n");
    r.append("}\n\n");
    proof {
        assert(fields@.take(fields@.len() as int) =~= fields@);
        assert(r@ =~= old(r)@ + spec_struct_read(bufname@, name@, fields@));
    }
}

/// The payload accessor of one union variant: only a variant whose payload
/// is a single inline struct gets one; it delegates to that struct's decode
/// function at the payload's fixed offset.
pub open spec fn spec_variant_read(name: Seq<char>, v: Variant) -> Seq<char> {
    if v.payload@.len() == 1 {
        match v.payload@[0].ty.ty {
            GpuType::InlineStruct(sn) => sn@ + " "@ + name + "_"@ + v.name@ + "_read("@ + name
                + "Ref ref) {\n"@ + "    return "@ + sn@ + "_read("@ + sn@ + "Ref(ref.offset + "@
                + spec_dec(v.payload@[0].offset as nat) + "));\n"@ + "}\n\n"@,
            _ => Seq::empty(),
        }
    } else {
        Seq::empty()
    }
}

pub open spec fn spec_variant_reads(name: Seq<char>, vs: Seq<Variant>) -> Seq<char>
    decreases vs.len(),
{
    if vs.len() == 0 {
        Seq::empty()
    } else {
        spec_variant_reads(name, vs.drop_last()) + spec_variant_read(name, vs.last())
    }
}

/// The decode side of a union: a tag accessor reading word 0 of the
/// reference, then the payload accessors of the supported variants.
pub open spec fn spec_enum_read(bufname: Seq<char>, name: Seq<char>, vs: Seq<Variant>) -> Seq<
    char,
> {
    "uint "@ + name + "_tag("@ + name + "Ref ref) {\n"@ + "    return "@ + bufname
        + "[ref.offset >> 2];\n"@ + "}\n\n"@ + spec_variant_reads(name, vs)
}

/// Emits the tag accessor and payload accessors of a union definition.
#[verifier::rlimit(50)]
pub fn gen_enum_read(r: &mut String, bufname: &str, name: &str, variants: &Vec<Variant>)
    ensures
        final(r)@ == old(r)@ + spec_enum_read(bufname@, name@, variants@),
{
    r.append("uint ");
    r.append(name);
    r.append("_tag(");
    r.append(name);
    r.append("Ref ref) {\n");
    r.append("    return ");
    r.append(bufname);
    r.append("[ref.offset >> 2];\n");
    r.append("}\n\n");
    let ghost head = old(r)@ + "uint "@ + name@ + "_tag("@ + name@ + "Ref ref) {\n"@ + "    return "@
        + bufname@ + "[ref.offset >> 2];\n"@ + "}\n\n"@;
    proof {
        assert(r@ =~= head + spec_variant_reads(name@, variants@.take(0)));
    }
    let mut j: usize = 0;
    while j < variants.len()
        invariant
            j <= variants.len(),
            r@ == head + spec_variant_reads(name@, variants@.take(j as int)),
        decreases variants.len() - j,
    {
        let v = &variants[j];
        if v.payload.len() == 1 {
            match &v.payload[0].ty.ty {
                GpuType::InlineStruct(structname) => {
                    r.append(structname.as_str());
                    r.append(" ");
                    r.append(name);
                    r.append("_");
                    r.append(v.name.as_str());
                    r.append("_read(");
                    r.append(name);
                    r.append("Ref ref) {\n");
                    r.append("    return ");
                    r.append(structname.as_str());
                    r.append("_read(");
                    r.append(structname.as_str());
                    r.append("Ref(ref.offset + ");
                    push_dec(r, v.payload[0].offset);
                    r.append("));\n");
                    r.append("}\n\n");
                },
                _ => {},
            }
        }
        proof {
            assert(variants@.take(j + 1 as int).drop_last() =~= variants@.take(j as int));
            assert(r@ =~= head + spec_variant_reads(name@, variants@.take(j + 1 as int)));
        }
        j += 1;
    }
    proof {
        assert(variants@.take(variants@.len() as int) =~= variants@);
    }
}


/// Whether lane `lane` of a vector starting at byte `offset` stores bytes
/// inside word `w`.
pub open spec fn lane_in_word(offset: nat, lanesize: nat, lane: nat, w: int) -> bool {
    offset + lane * lanesize < 4 * w + 4 && 4 * w < offset + lane * lanesize + lanesize
}

/// The GLSL component name of a vector lane.
pub open spec fn spec_lane_name(i: nat) -> Seq<char> {
    if i == 0 {
        "x"@
    } else if i == 1 {
        "y"@
    } else if i == 2 {
        "z"@
    } else {
        "w"@
    }
}

fn lane_name(i: usize) -> (r: &'static str)
    requires
        i < 4,
    ensures
        r@ == spec_lane_name(i as nat),
{
    match i {
        0 => "x",
        1 => "y",
        2 => "z",
        _ => "w",
    }
}

/// The bit-pattern contributions of the first `n` lanes of a vector field to
/// the store of word `w`: one per lane whose bytes fall in that word.
pub open spec fn spec_vec_pieces(
    fname: Seq<char>,
    s: GpuScalar,
    offset: nat,
    w: int,
    n: nat,
) -> Seq<Seq<char>>
    decreases n,
{
    if n == 0 {
        Seq::empty()
    } else {
        spec_vec_pieces(fname, s, offset, w, (n - 1) as nat) + if lane_in_word(
            offset,
            scalar_size(s),
            (n - 1) as nat,
            w,
        ) {
            seq![
                spec_pack_bits_scalar(
                    s,
                    (offset + (n - 1) * scalar_size(s)) as nat,
                    "s."@ + fname + "."@ + spec_lane_name((n - 1) as nat),
                ),
            ]
        } else {
            Seq::empty()
        }
    }
}

/// The bit-pattern contributions of one field to the store of word `w`. An
/// inline struct contributes none: it is written by a recursive call.
pub open spec fn spec_field_pieces(f: Field, w: int) -> Seq<Seq<char>> {
    match f.ty.ty {
        GpuType::Scalar(s) => seq![spec_pack_bits_scalar(s, f.offset as nat, "s."@ + f.name@)],
        GpuType::Vector(s, n) => spec_vec_pieces(f.name@, s, f.offset as nat, w, n as nat),
        GpuType::InlineStruct(_) => Seq::empty(),
        GpuType::Reference(_) => seq!["s."@ + f.name@ + ".offset"@],
    }
}

/// All contributions to word `w` from the first `n` entries of the group
/// `g` of field indices, in group order.
pub open spec fn spec_group_pieces(
    fields: Seq<Field>,
    g: Seq<usize>,
    w: int,
    n: nat,
) -> Seq<Seq<char>>
    decreases n,
{
    if n == 0 {
        Seq::empty()
    } else {
        spec_group_pieces(fields, g, w, (n - 1) as nat) + spec_field_pieces(
            fields[g[n - 1] as int],
            w,
        )
    }
}

/// The recursive encode call emitted for an inline-struct field; empty for
/// every other field kind.
pub open spec fn spec_inline_write_line(f: Field) -> Seq<char> {
    match f.ty.ty {
        GpuType::InlineStruct(sn) => "    "@ + sn@ + "_write("@ + sn@ + "Ref("@
            + spec_simplified_add("ref.offset"@, f.offset as nat) + "), s."@ + f.name@ + ");\n"@,
        _ => Seq::empty(),
    }
}

pub open spec fn spec_group_inline_writes(fields: Seq<Field>, g: Seq<usize>, n: nat) -> Seq<char>
    decreases n,
{
    if n == 0 {
        Seq::empty()
    } else {
        spec_group_inline_writes(fields, g, (n - 1) as nat) + spec_inline_write_line(
            fields[g[n - 1] as int],
        )
    }
}

/// The contributions combined into one store expression with bitwise OR, in
/// contribution order.
pub open spec fn spec_join_pieces(ps: Seq<Seq<char>>) -> Seq<char>
    decreases ps.len(),
{
    if ps.len() == 0 {
        Seq::empty()
    } else if ps.len() == 1 {
        ps[0]
    } else {
        spec_join_pieces(ps.drop_last()) + " | "@ + ps.last()
    }
}

/// The statements encoding word `w` of a struct: the recursive calls of
/// inline-struct fields pinned to this word, then, if any contribution
/// exists, one store of the OR-combined contributions.
pub open spec fn spec_word_write(fields: Seq<Field>, bufname: Seq<char>, w: nat) -> Seq<char> {
    let g = covering_ixs(fields, true, w as int);
    let ps = spec_group_pieces(fields, g, w as int, g.len());
    spec_group_inline_writes(fields, g, g.len()) + if ps.len() > 0 {
        "    "@ + bufname + "[ix + "@ + spec_dec(w) + "] = "@ + spec_join_pieces(ps) + ";\n"@
    } else {
        Seq::empty()
    }
}

pub open spec fn spec_word_writes(fields: Seq<Field>, bufname: Seq<char>, n: nat) -> Seq<char>
    decreases n,
{
    if n == 0 {
        Seq::empty()
    } else {
        spec_word_writes(fields, bufname, (n - 1) as nat) + spec_word_write(
            fields,
            bufname,
            (n - 1) as nat,
        )
    }
}

/// The encode function of a struct: per covered word, one store combining
/// every field contribution, with inline-struct fields delegated to their
/// own encode functions.
pub open spec fn spec_struct_write(bufname: Seq<char>, name: Seq<char>, fields: Seq<Field>) -> Seq<
    char,
> {
    "void "@ + name + "_write("@ + name + "Ref ref, "@ + name + " s) {\n"@
        + "    uint ix = ref.offset >> 2;\n"@ + spec_word_writes(
        fields,
        bufname,
        spec_n_words(fields, true) as nat,
    ) + "}\n\n"@
}

/// Emits the statements encoding one word: recursive calls for inline
/// structs are written to `r` directly; the other contributions are
/// collected into one OR-combined store.
#[verifier::rlimit(100)]
fn gen_word_write(r: &mut String, bufname: &str, fields: &Vec<Field>, group: &Vec<usize>, w: usize)
    requires
        wf_fields(fields@),
        w <= MAX_LAYOUT,
        group@ == covering_ixs(fields@, true, w as int),
    ensures
        final(r)@ == old(r)@ + spec_word_write(fields@, bufname@, w as nat),
{
    let ghost g = group@;
    let nf = fields.len();
    let mut expr = String::new();
    let mut first: bool = true;
    let mut k: usize = 0;
    while k < group.len()
        invariant
            nf == fields@.len(),
            wf_fields(fields@),
            w <= MAX_LAYOUT,
            g == group@,
            g == covering_ixs(fields@, true, w as int),
            k <= g.len(),
            first <==> spec_group_pieces(fields@, g, w as int, k as nat).len() == 0,
            expr@ == spec_join_pieces(spec_group_pieces(fields@, g, w as int, k as nat)),
            r@ == old(r)@ + spec_group_inline_writes(fields@, g, k as nat),
        decreases group@.len() - k,
    {
        proof {
            assert(g[k as int] == g.index(k as int));
            assert(g.contains(g[k as int]));
            crate::coverage::lemma_coverage_sound(fields@, true, w as int, g[k as int]);
            assert(wf_field(fields@[g[k as int] as int]));
        }
        let field_ix = group[k];
        let f = &fields[field_ix];
        let ghost pieces_before = spec_group_pieces(fields@, g, w as int, k as nat);
        match &f.ty.ty {
            GpuType::Scalar(scalar) => {
                let mut inner = String::new();
                inner.append("s.");
                inner.append(f.name.as_str());
                proof {
                    assert(inner@ =~= "s."@ + f.name@);
                }
                let p = gen_pack_bits_scalar(scalar, f.offset, inner.as_str());
                if !first {
                    expr.append(" | ");
                }
                expr.append(p.as_str());
                first = false;
                proof {
                    let ps1 = spec_group_pieces(fields@, g, w as int, (k + 1) as nat);
                    assert(ps1 =~= pieces_before + spec_field_pieces(fields@[g[k as int] as int], w as int));
                    assert(ps1.drop_last() =~= pieces_before);
                    assert(expr@ =~= spec_join_pieces(ps1));
                    assert(r@ =~= old(r)@ + spec_group_inline_writes(fields@, g, (k + 1) as nat));
                }
            },
            GpuType::Vector(scalar, len) => {
                let sc: GpuScalar = *scalar;
                let ln: usize = *len;
                let size = sc.size();
                let offset = f.offset;
                let ghost fname = f.name@;
                let mut lane: usize = 0;
                while lane < ln
                    invariant
                        nf == fields@.len(),
                        wf_fields(fields@),
                        w <= MAX_LAYOUT,
                        g == covering_ixs(fields@, true, w as int),
                        k < g.len(),
                        g[k as int] < fields@.len(),
                        fields@[g[k as int] as int].ty.ty == GpuType::Vector(sc, ln),
                        fields@[g[k as int] as int].name@ == fname,
                        fields@[g[k as int] as int].offset == offset,
                        wf_field(fields@[g[k as int] as int]),
                        size == scalar_size(sc),
                        ln <= 4,
                        offset <= MAX_LAYOUT,
                        f.name@ == fname,
                        lane <= ln,
                        pieces_before == spec_group_pieces(fields@, g, w as int, k as nat),
                        first <==> (pieces_before + spec_vec_pieces(
                            fname,
                            sc,
                            offset as nat,
                            w as int,
                            lane as nat,
                        )).len() == 0,
                        expr@ == spec_join_pieces(
                            pieces_before + spec_vec_pieces(
                                fname,
                                sc,
                                offset as nat,
                                w as int,
                                lane as nat,
                            ),
                        ),
                        r@ == old(r)@ + spec_group_inline_writes(fields@, g, k as nat),
                    decreases ln - lane,
                {
                    let lo = offset + lane * size;
                    let ghost lane_pieces = pieces_before + spec_vec_pieces(
                        fname,
                        sc,
                        offset as nat,
                        w as int,
                        lane as nat,
                    );
                    if lo < 4 * w + 4 && 4 * w < lo + size {
                        let mut inner = String::new();
                        inner.append("s.");
                        inner.append(f.name.as_str());
                        inner.append(".");
                        inner.append(lane_name(lane));
                        proof {
                            assert(inner@ =~= "s."@ + fname + "."@ + spec_lane_name(lane as nat));
                        }
                        let p = gen_pack_bits_scalar(&sc, lo, inner.as_str());
                        if !first {
                            expr.append(" | ");
                        }
                        expr.append(p.as_str());
                        first = false;
                        proof {
                            let ps1 = pieces_before + spec_vec_pieces(
                                fname,
                                sc,
                                offset as nat,
                                w as int,
                                (lane + 1) as nat,
                            );
                            assert(ps1 =~= lane_pieces.push(p@));
                            assert(ps1.drop_last() =~= lane_pieces);
                            assert(expr@ =~= spec_join_pieces(ps1));
                        }
                    } else {
                        proof {
                            assert(pieces_before + spec_vec_pieces(
                                fname,
                                sc,
                                offset as nat,
                                w as int,
                                (lane + 1) as nat,
                            ) =~= lane_pieces);
                        }
                    }
                    lane += 1;
                }
                proof {
                    assert(spec_group_pieces(fields@, g, w as int, (k + 1) as nat)
                        =~= pieces_before + spec_vec_pieces(
                        fname,
                        sc,
                        offset as nat,
                        w as int,
                        ln as nat,
                    ));
                    assert(r@ =~= old(r)@ + spec_group_inline_writes(fields@, g, (k + 1) as nat));
                }
            },
            GpuType::InlineStruct(structname) => {
                r.append("    ");
                r.append(structname.as_str());
                r.append("_write(");
                r.append(structname.as_str());
                r.append("Ref(");
                let addr = simplified_add("ref.offset", f.offset);
                r.append(addr.as_str());
                r.append("), s.");
                r.append(f.name.as_str());
                r.append(");\n");
                proof {
                    assert(spec_group_pieces(fields@, g, w as int, (k + 1) as nat)
                        =~= pieces_before);
                    assert(r@ =~= old(r)@ + spec_group_inline_writes(fields@, g, (k + 1) as nat));
                }
            },
            GpuType::Reference(_) => {
                let mut p = String::new();
                p.append("s.");
                p.append(f.name.as_str());
                p.append(".offset");
                proof {
                    assert(p@ =~= "s."@ + f.name@ + ".offset"@);
                }
                if !first {
                    expr.append(" | ");
                }
                expr.append(p.as_str());
                first = false;
                proof {
                    let ps1 = spec_group_pieces(fields@, g, w as int, (k + 1) as nat);
                    assert(ps1 =~= pieces_before.push(p@));
                    assert(ps1.drop_last() =~= pieces_before);
                    assert(expr@ =~= spec_join_pieces(ps1));
                    assert(r@ =~= old(r)@ + spec_group_inline_writes(fields@, g, (k + 1) as nat));
                }
            },
        }
        k += 1;
    }
    if !first {
        r.append("    ");
        r.append(bufname);
        r.append("[ix + ");
        push_dec(r, w);
        r.append("] = ");
        r.append(expr.as_str());
        r.append(";\n");
    }
    proof {
        assert(r@ =~= old(r)@ + spec_word_write(fields@, bufname@, w as nat));
    }
}

/// Emits the encode function of a struct definition.
pub fn gen_struct_write(r: &mut String, bufname: &str, name: &str, fields: &Vec<Field>)
    requires
        wf_fields(fields@),
    ensures
        final(r)@ == old(r)@ + spec_struct_write(bufname@, name@, fields@),
{
    r.append("void ");
    r.append(name);
    r.append("_write(");
    r.append(name);
    r.append("Ref ref, ");
    r.append(name);
    r.append(" s) {\n");
    r.append("    uint ix = ref.offset >> 2;\n");
    let ghost head = old(r)@ + "void "@ + name@ + "_write("@ + name@ + "Ref ref, "@ + name@
        + " s) {\n"@ + "    uint ix = ref.offset >> 2;\n"@;
    proof {
        assert(r@ =~= head);
    }
    let coverage = struct_coverage(fields, true);
    let nf = fields.len();
    let mut i: usize = 0;
    while i < coverage.len()
        invariant
            nf == fields@.len(),
            wf_fields(fields@),
            i <= coverage@.len(),
            coverage@.len() == spec_n_words(fields@, true),
            coverage@.len() <= MAX_LAYOUT,
            forall|w: int| 0 <= w < coverage@.len() ==> #[trigger] coverage@[w]@ == covering_ixs(
                fields@,
                true,
                w,
            ),
            r@ == head + spec_word_writes(fields@, bufname@, i as nat),
        decreases coverage@.len() - i,
    {
        gen_word_write(r, bufname, fields, &coverage[i], i);
        proof {
            assert(r@ =~= head + spec_word_writes(fields@, bufname@, (i + 1) as nat));
        }
        i += 1;
    }
    r.append("}\n\n");
    proof {
        assert(r@ =~= old(r)@ + spec_struct_write(bufname@, name@, fields@));
    }
}


/// The encode function of one union variant: a zero-payload variant's
/// writer stores only the tag; a single-inline-struct variant's writer
/// stores the tag and delegates to the payload struct's encoder at the
/// payload's fixed offset; other shapes get no writer.
pub open spec fn spec_variant_write(bufname: Seq<char>, name: Seq<char>, v: Variant) -> Seq<char> {
    if v.payload@.len() == 0 {
        "void "@ + name + "_"@ + v.name@ + "_write("@ + name + "Ref ref) {\n"@ + "    "@ + bufname
            + "[ref.offset >> 2] = "@ + name + "_"@ + v.name@ + ";\n"@ + "}\n\n"@
    } else if v.payload@.len() == 1 {
        match v.payload@[0].ty.ty {
            GpuType::InlineStruct(sn) => "void "@ + name + "_"@ + v.name@ + "_write("@ + name
                + "Ref ref, "@ + sn@ + " s) {\n"@ + "    "@ + bufname + "[ref.offset >> 2] = "@
                + name + "_"@ + v.name@ + ";\n"@ + "    "@ + sn@ + "_write("@ + sn@
                + "Ref(ref.offset + "@ + spec_dec(v.payload@[0].offset as nat) + "), s);\n"@
                + "}\n\n"@,
            _ => Seq::empty(),
        }
    } else {
        Seq::empty()
    }
}

pub open spec fn spec_variant_writes(bufname: Seq<char>, name: Seq<char>, vs: Seq<Variant>) -> Seq<
    char,
>
    decreases vs.len(),
{
    if vs.len() == 0 {
        Seq::empty()
    } else {
        spec_variant_writes(bufname, name, vs.drop_last()) + spec_variant_write(
            bufname,
            name,
            vs.last(),
        )
    }
}

/// The encode side of a union: the writers of its supported variants.
pub open spec fn spec_enum_write(bufname: Seq<char>, name: Seq<char>, vs: Seq<Variant>) -> Seq<
    char,
> {
    spec_variant_writes(bufname, name, vs)
}

/// Emits the encode function of one union variant, or nothing for an
/// unsupported payload shape.
#[verifier::rlimit(100)]
fn gen_variant_write(r: &mut String, bufname: &str, name: &str, v: &Variant)
    ensures
        final(r)@ == old(r)@ + spec_variant_write(bufname@, name@, *v),
{
    if v.payload.len() == 0 {
        r.append("void ");
        r.append(name);
        r.append("_");
        r.append(v.name.as_str());
        r.append("_write(");
        r.append(name);
        r.append("Ref ref) {\n");
        r.append("    ");
        r.append(bufname);
        r.append("[ref.offset >> 2] = ");
        r.append(name);
        r.append("_");
        r.append(v.name.as_str());
        r.append(";\n");
        r.append("}\n\n");
        proof {
            assert(r@ =~= old(r)@ + spec_variant_write(bufname@, name@, *v));
        }
    } else if v.payload.len() == 1 {
        match &v.payload[0].ty.ty {
            GpuType::InlineStruct(structname) => {
                r.append("void ");
                r.append(name);
                r.append("_");
                r.append(v.name.as_str());
                r.append("_write(");
                r.append(name);
                r.append("Ref ref, ");
                r.append(structname.as_str());
                r.append(" s) {\n");
                r.append("    ");
                r.append(bufname);
                r.append("[ref.offset >> 2] = ");
                r.append(name);
                r.append("_");
                r.append(v.name.as_str());
                r.append(";\n");
                r.append("    ");
                r.append(structname.as_str());
                r.append("_write(");
                r.append(structname.as_str());
                r.append("Ref(ref.offset + ");
                push_dec(r, v.payload[0].offset);
                r.append("), s);\n");
                r.append("}\n\n");
                proof {
                    assert(r@ =~= old(r)@ + spec_variant_write(bufname@, name@, *v));
                }
            },
            _ => {},
        }
    }
}

/// Emits the per-variant encode functions of a union definition.
pub fn gen_enum_write(r: &mut String, bufname: &str, name: &str, variants: &Vec<Variant>)
    ensures
        final(r)@ == old(r)@ + spec_enum_write(bufname@, name@, variants@),
{
    let mut j: usize = 0;
    while j < variants.len()
        invariant
            j <= variants.len(),
            r@ == old(r)@ + spec_variant_writes(bufname@, name@, variants@.take(j as int)),
        decreases variants.len() - j,
    {
        gen_variant_write(r, bufname, name, &variants[j]);
        proof {
            assert(variants@.take(j + 1 as int).drop_last() =~= variants@.take(j as int));
            assert(r@ =~= old(r)@ + spec_variant_writes(
                bufname@,
                name@,
                variants@.take(j + 1 as int),
            ));
        }
        j += 1;
    }
    proof {
        assert(variants@.take(variants@.len() as int) =~= variants@);
    }
}

/// The declarations of one definition: the type declaration (or the tag
/// constants of a union), then its size constant and indexing helper.
pub open spec fn spec_def_decl(d: NamedDef) -> Seq<char> {
    match d.def {
        LayoutTypeDef::Struct(fields) => spec_struct_def(d.name@, fields@) + spec_item_def(
            d.name@,
            d.size as nat,
        ),
        LayoutTypeDef::Enum(vs) => spec_enum_defines(d.name@, vs@) + spec_item_def(
            d.name@,
            d.size as nat,
        ),
    }
}

pub open spec fn spec_def_decls(defs: Seq<NamedDef>) -> Seq<char>
    decreases defs.len(),
{
    if defs.len() == 0 {
        Seq::empty()
    } else {
        spec_def_decls(defs.drop_last()) + spec_def_decl(defs.last())
    }
}

/// The accessor functions of one definition: its decode side always, its
/// encode side only when the module enables writing.
pub open spec fn spec_def_body(bufname: Seq<char>, gpu_write: bool, d: NamedDef) -> Seq<char> {
    match d.def {
        LayoutTypeDef::Struct(fields) => spec_struct_read(bufname, d.name@, fields@) + if gpu_write {
            spec_struct_write(bufname, d.name@, fields@)
        } else {
            Seq::empty()
        },
        LayoutTypeDef::Enum(vs) => spec_enum_read(bufname, d.name@, vs@) + if gpu_write {
            spec_enum_write(bufname, d.name@, vs@)
        } else {
            Seq::empty()
        },
    }
}

pub open spec fn spec_def_bodies(bufname: Seq<char>, gpu_write: bool, defs: Seq<NamedDef>) -> Seq<
    char,
>
    decreases defs.len(),
{
    if defs.len() == 0 {
        Seq::empty()
    } else {
        spec_def_bodies(bufname, gpu_write, defs.drop_last()) + spec_def_body(
            bufname,
            gpu_write,
            defs.last(),
        )
    }
}

/// The whole emitted artifact: a banner, every handle declaration, every
/// type declaration with its size constant and indexing helper, then every
/// definition's accessor functions, all in declaration order.
pub open spec fn spec_gen_glsl(m: LayoutModule) -> Seq<char> {
    "// GLSL layout accessors\n\n"@ + spec_refdefs(m.defs@) + spec_def_decls(m.defs@)
        + spec_def_bodies(m.name@, m.gpu_write, m.defs@)
}

/// Emits the accessor functions of one definition: its decode side always,
/// its encode side only when the module enables writing.
fn gen_def_body(r: &mut String, bufname: &str, gpu_write: bool, d: &NamedDef)
    requires
        wf_def(d.def),
    ensures
        final(r)@ == old(r)@ + spec_def_body(bufname@, gpu_write, *d),
{
    match &d.def {
        LayoutTypeDef::Struct(fields) => {
            gen_struct_read(r, bufname, d.name.as_str(), fields);
            if gpu_write {
                gen_struct_write(r, bufname, d.name.as_str(), fields);
            }
            proof {
                assert(r@ =~= old(r)@ + spec_def_body(bufname@, gpu_write, *d));
            }
        },
        LayoutTypeDef::Enum(en) => {
            gen_enum_read(r, bufname, d.name.as_str(), en);
            if gpu_write {
                gen_enum_write(r, bufname, d.name.as_str(), en);
            }
            proof {
                assert(r@ =~= old(r)@ + spec_def_body(bufname@, gpu_write, *d));
            }
        },
    }
}

/// Generates the GLSL text artifact for a whole module. The output is a
/// function of the module value alone, so generating twice from the same
/// module yields identical text.
pub fn gen_glsl(module: &LayoutModule) -> (r: String)
    requires
        wf_module(*module),
    ensures
        r@ == spec_gen_glsl(*module),
{
    let mut r = String::new();
    r.append("// GLSL layout accessors\n\n");
    let ghost head0 = "// GLSL layout accessors\n\n"@;
    proof {
        assert(r@ =~= head0 + spec_refdefs(module.defs@.take(0)));
    }
    let mut j: usize = 0;
    while j < module.defs.len()
        invariant
            j <= module.defs@.len(),
            r@ == head0 + spec_refdefs(module.defs@.take(j as int)),
        decreases module.defs@.len() - j,
    {
        gen_refdef(&mut r, module.defs[j].name.as_str());
        proof {
            assert(module.defs@.take(j + 1 as int).drop_last() =~= module.defs@.take(j as int));
            assert(r@ =~= head0 + spec_refdefs(module.defs@.take(j + 1 as int)));
        }
        j += 1;
    }
    proof {
        assert(module.defs@.take(module.defs@.len() as int) =~= module.defs@);
    }
    let ghost head1 = head0 + spec_refdefs(module.defs@);
    let mut j: usize = 0;
    while j < module.defs.len()
        invariant
            j <= module.defs@.len(),
            wf_module(*module),
            r@ == head1 + spec_def_decls(module.defs@.take(j as int)),
        decreases module.defs@.len() - j,
    {
        let d = &module.defs[j];
        match &d.def {
            LayoutTypeDef::Struct(fields) => {
                gen_struct_def(&mut r, d.name.as_str(), fields);
                gen_item_def(&mut r, d.name.as_str(), d.size);
            },
            LayoutTypeDef::Enum(en) => {
                gen_enum_def(&mut r, d.name.as_str(), en);
                gen_item_def(&mut r, d.name.as_str(), d.size);
            },
        }
        proof {
            assert(module.defs@.take(j + 1 as int).drop_last() =~= module.defs@.take(j as int));
            assert(r@ =~= head1 + spec_def_decls(module.defs@.take(j + 1 as int)));
        }
        j += 1;
    }
    proof {
        assert(module.defs@.take(module.defs@.len() as int) =~= module.defs@);
    }
    let ghost head2 = head1 + spec_def_decls(module.defs@);
    let mut j: usize = 0;
    while j < module.defs.len()
        invariant
            j <= module.defs@.len(),
            wf_module(*module),
            r@ == head2 + spec_def_bodies(module.name@, module.gpu_write, module.defs@.take(j as int)),
        decreases module.defs@.len() - j,
    {
        proof {
            assert(wf_def(module.defs@[j as int].def));
        }
        gen_def_body(&mut r, module.name.as_str(), module.gpu_write, &module.defs[j]);
        proof {
            assert(module.defs@.take(j + 1 as int).drop_last() =~= module.defs@.take(j as int));
            assert(r@ =~= head2 + spec_def_bodies(
                module.name@,
                module.gpu_write,
                module.defs@.take(j + 1 as int),
            ));
        }
        j += 1;
    }
    proof {
        assert(module.defs@.take(module.defs@.len() as int) =~= module.defs@);
        assert(r@ =~= spec_gen_glsl(*module));
    }
    r
}

/// Generation is deterministic: two artifacts generated from one module
/// value are identical, character for character.
pub proof fn lemma_generation_deterministic(m: LayoutModule, r1: Seq<char>, r2: Seq<char>)
    requires
        r1 == spec_gen_glsl(m),
        r2 == spec_gen_glsl(m),
    ensures
        r1 == r2,
{
}

} // verus!
