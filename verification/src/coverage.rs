//! The coverage resolver: a pure geometric overlap computation that tells,
//! for each 32-bit word spanned by a struct's fields, which fields' stored
//! bytes intersect that word.
//!
//! Read mode lists every overlapping field, so the decoder knows which raw
//! words to load. Write mode lists the fields contributing to each word's
//! store; an inline-struct field is pinned to its first word only, since the
//! encoder emits a single recursive call for it instead of word stores.

use vstd::prelude::*;

use crate::ir::Field;
use crate::ir::GpuType;
use crate::ir::LayoutType;
use crate::ir::scalar_size;
use crate::ir::wf_field;
use crate::ir::wf_fields;
use crate::ir::wf_layout_type;

verus! {

/// The size in bytes of the range a field occupies for coverage purposes.
pub open spec fn covered_size(t: LayoutType, gpu_write: bool) -> nat {
    match t.ty {
        GpuType::Scalar(s) => scalar_size(s),
        GpuType::Vector(s, n) => (n as nat) * scalar_size(s),
        GpuType::InlineStruct(_) => if gpu_write {
            1
        } else {
            t.size as nat
        },
        GpuType::Reference(_) => 4,
    }
}

/// Whether the field's covered byte range intersects the bytes of word `w`,
/// which are `[4w, 4w + 4)`.
pub open spec fn field_covers_word(f: Field, w: int, gpu_write: bool) -> bool {
    let lo = f.offset as int;
    let hi = f.offset + covered_size(f.ty, gpu_write);
    lo < hi && lo < 4 * w + 4 && 4 * w < hi
}

/// One past the last word the field's covered range reaches.
pub open spec fn field_end_word(f: Field, gpu_write: bool) -> int {
    if covered_size(f.ty, gpu_write) == 0 {
        0
    } else {
        (f.offset + covered_size(f.ty, gpu_write) + 3) / 4
    }
}

/// The number of word groups: the furthest word any field reaches.
pub open spec fn spec_n_words(fields: Seq<Field>, gpu_write: bool) -> int
    decreases fields.len(),
{
    if fields.len() == 0 {
        0
    } else {
        let rest = spec_n_words(fields.drop_last(), gpu_write);
        let last = field_end_word(fields.last(), gpu_write);
        if last > rest {
            last
        } else {
            rest
        }
    }
}

/// The indices below `n` of fields covering word `w`, in field order.
pub open spec fn covering_prefix(fields: Seq<Field>, gpu_write: bool, w: int, n: nat) -> Seq<usize>
    decreases n,
{
    if n == 0 {
        Seq::empty()
    } else {
        let rest = covering_prefix(fields, gpu_write, w, (n - 1) as nat);
        if field_covers_word(fields[n - 1], w, gpu_write) {
            rest.push((n - 1) as usize)
        } else {
            rest
        }
    }
}

/// The group of word `w`: all field indices covering it, in field order.
pub open spec fn covering_ixs(fields: Seq<Field>, gpu_write: bool, w: int) -> Seq<usize> {
    covering_prefix(fields, gpu_write, w, fields.len())
}

/// Whether any field covers word `w`, i.e. whether the word's group is
/// non-empty.
pub open spec fn word_used(fields: Seq<Field>, gpu_write: bool, w: int) -> bool {
    exists|i: int| 0 <= i < fields.len() && #[trigger] field_covers_word(fields[i], w, gpu_write)
}

/// A group contains exactly the indices of the fields covering its word.
pub proof fn lemma_covering_prefix_contains(
    fields: Seq<Field>,
    gpu_write: bool,
    w: int,
    n: nat,
    ix: usize,
)
    requires
        n <= fields.len(),
        fields.len() <= usize::MAX,
    ensures
        covering_prefix(fields, gpu_write, w, n).contains(ix) <==> (ix < n && field_covers_word(
            fields[ix as int],
            w,
            gpu_write,
        )),
    decreases n,
{
    if n > 0 {
        lemma_covering_prefix_contains(fields, gpu_write, w, (n - 1) as nat, ix);
        let rest = covering_prefix(fields, gpu_write, w, (n - 1) as nat);
        let whole = covering_prefix(fields, gpu_write, w, n);
        if field_covers_word(fields[n - 1], w, gpu_write) {
            assert(whole == rest.push((n - 1) as usize));
            assert(whole[rest.len() as int] == (n - 1) as usize);
            if whole.contains(ix) {
                let i = choose|i: int| 0 <= i < whole.len() && whole[i] == ix;
                if i < rest.len() {
                    assert(rest[i] == ix);
                    assert(rest.contains(ix));
                } else {
                    assert(ix == (n - 1) as usize);
                }
            }
            if ix < n && field_covers_word(fields[ix as int], w, gpu_write) {
                if ix == (n - 1) as usize {
                    assert(whole[rest.len() as int] == ix);
                    assert(whole.contains(ix));
                } else {
                    assert(rest.contains(ix));
                    let i = choose|i: int| 0 <= i < rest.len() && rest[i] == ix;
                    assert(whole[i] == ix);
                    assert(whole.contains(ix));
                }
            }
        } else {
            assert(whole == rest);
        }
    }
}

/// Coverage soundness: an index in the group of word `w` names a field
/// whose covered bytes do intersect that word.
pub proof fn lemma_coverage_sound(fields: Seq<Field>, gpu_write: bool, w: int, ix: usize)
    requires
        fields.len() <= usize::MAX,
        covering_ixs(fields, gpu_write, w).contains(ix),
    ensures
        ix < fields.len(),
        field_covers_word(fields[ix as int], w, gpu_write),
{
    lemma_covering_prefix_contains(fields, gpu_write, w, fields.len(), ix);
}

/// Whether byte `b` lies in the bytes field `f` stores, in read mode.
pub open spec fn field_covers_byte(f: Field, b: int) -> bool {
    f.offset <= b < f.offset + covered_size(f.ty, false)
}

/// Whether some field stores byte `b`.
pub open spec fn byte_covered(fields: Seq<Field>, b: int) -> bool {
    exists|i: int| 0 <= i < fields.len() && #[trigger] field_covers_byte(fields[i], b)
}

/// Tight packing: every byte below the struct's size belongs to a field.
pub open spec fn tightly_packed(fields: Seq<Field>, size: int) -> bool {
    forall|b: int| 0 <= b < size ==> #[trigger] byte_covered(fields, b)
}

/// Coverage completeness: every byte a field stores lies in the covered
/// range of exactly one word, the word `b / 4` containing it, and the field
/// is listed in that word's read-mode group.
pub proof fn lemma_coverage_complete(fields: Seq<Field>, ix: int, b: int)
    requires
        fields.len() <= usize::MAX,
        0 <= ix < fields.len(),
        field_covers_byte(fields[ix], b),
    ensures
        field_covers_word(fields[ix], b / 4, false),
        covering_ixs(fields, false, b / 4).contains(ix as usize),
{
    let w = b / 4;
    assert(4 * w <= b < 4 * w + 4) by (nonlinear_arith)
        requires
            b >= 0 && w == b / 4,
    ;
    lemma_covering_prefix_contains(fields, false, w, fields.len(), ix as usize);
}

/// Under tight packing — every byte below the struct's size lies in some
/// field — every word of the struct has a non-empty read-mode group, so the
/// decoder loads each word of the struct exactly once.
pub proof fn lemma_tight_packing_covers_every_word(fields: Seq<Field>, size: int, w: int)
    requires
        fields.len() <= usize::MAX,
        0 <= 4 * w < size,
        tightly_packed(fields, size),
    ensures
        covering_ixs(fields, false, w).len() > 0,
{
    let b = 4 * w;
    assert(byte_covered(fields, b));
    let i = choose|i: int| 0 <= i < fields.len() && #[trigger] field_covers_byte(fields[i], b);
    assert(b / 4 == w) by (nonlinear_arith)
        requires
            b == 4 * w,
    ;
    lemma_coverage_complete(fields, i, b);
    let g = covering_ixs(fields, false, w);
    assert(g.contains(i as usize));
}

/// A field covering word `w` keeps `w` below the group count.
pub proof fn lemma_covers_lt_n_words(fields: Seq<Field>, gpu_write: bool, ix: int, w: int)
    requires
        0 <= ix < fields.len(),
        0 <= w,
        field_covers_word(fields[ix], w, gpu_write),
    ensures
        w < spec_n_words(fields, gpu_write),
    decreases fields.len(),
{
    let f = fields[ix];
    let cs = covered_size(f.ty, gpu_write);
    if ix == fields.len() - 1 {
        assert(fields.last() == f);
        assert(w < field_end_word(f, gpu_write)) by (nonlinear_arith)
            requires
                cs > 0,
                4 * w < f.offset + cs,
                0 <= w,
                field_end_word(f, gpu_write) == (f.offset + cs + 3) / 4,
                f.offset >= 0,
        ;
    } else {
        lemma_covers_lt_n_words(fields.drop_last(), gpu_write, ix, w);
    }
}

/// A group's word is below the group count, so every group the resolver
/// returns is reachable by index.
pub proof fn lemma_used_word_lt_n_words(fields: Seq<Field>, gpu_write: bool, w: int)
    requires
        0 <= w,
        word_used(fields, gpu_write, w),
    ensures
        w < spec_n_words(fields, gpu_write),
{
    let i = choose|i: int|
        0 <= i < fields.len() && #[trigger] field_covers_word(fields[i], w, gpu_write);
    lemma_covers_lt_n_words(fields, gpu_write, i, w);
}

fn covered_size_exec(t: &LayoutType, gpu_write: bool) -> (r: usize)
    requires
        wf_layout_type(*t),
    ensures
        r as nat == covered_size(*t, gpu_write),
{
    match &t.ty {
        GpuType::InlineStruct(_) => if gpu_write {
            1
        } else {
            t.size
        },
        _ => t.size,
    }
}

fn field_covers_word_exec(f: &Field, w: usize, gpu_write: bool) -> (b: bool)
    requires
        wf_field(*f),
        w <= crate::ir::MAX_LAYOUT,
    ensures
        b == field_covers_word(*f, w as int, gpu_write),
{
    let cs = covered_size_exec(&f.ty, gpu_write);
    cs > 0 && f.offset < 4 * w + 4 && 4 * w < f.offset + cs
}

/// The number of word groups the resolver returns for these fields.
pub fn n_words(fields: &Vec<Field>, gpu_write: bool) -> (n: usize)
    requires
        wf_fields(fields@),
    ensures
        n == spec_n_words(fields@, gpu_write),
        n <= crate::ir::MAX_LAYOUT,
{
    let mut n: usize = 0;
    let mut j: usize = 0;
    while j < fields.len()
        invariant
            j <= fields.len(),
            wf_fields(fields@),
            n == spec_n_words(fields@.take(j as int), gpu_write),
            n <= crate::ir::MAX_LAYOUT,
        decreases fields.len() - j,
    {
        proof {
            assert(wf_field(fields@[j as int]));
        }
        let f = &fields[j];
        let cs = covered_size_exec(&f.ty, gpu_write);
        proof {
            assert(fields@.take(j + 1 as int).drop_last() =~= fields@.take(j as int));
            assert(fields@.take(j + 1 as int).last() == fields@[j as int]);
        }
        if cs > 0 {
            let w1 = (f.offset + cs + 3) / 4;
            if w1 > n {
                n = w1;
            }
        }
        j += 1;
    }
    proof {
        assert(fields@.take(fields@.len() as int) =~= fields@);
    }
    n
}

/// A word's group is non-empty exactly when some field covers the word.
pub proof fn lemma_group_nonempty(fields: Seq<Field>, gpu_write: bool, w: int)
    requires
        fields.len() <= usize::MAX,
    ensures
        covering_ixs(fields, gpu_write, w).len() > 0 <==> word_used(fields, gpu_write, w),
{
    let g = covering_ixs(fields, gpu_write, w);
    if g.len() > 0 {
        assert(g.contains(g[0]));
        lemma_coverage_sound(fields, gpu_write, w, g[0]);
    }
    if word_used(fields, gpu_write, w) {
        let i = choose|i: int|
            0 <= i < fields.len() && #[trigger] field_covers_word(fields[i], w, gpu_write);
        lemma_covering_prefix_contains(fields, gpu_write, w, fields.len(), i as usize);
        assert(g.contains(i as usize));
    }
}

/// Resolves the word groups of a struct's fields: group `w` lists, in field
/// order, the index of every field whose covered bytes intersect word `w`.
pub fn struct_coverage(fields: &Vec<Field>, gpu_write: bool) -> (cov: Vec<Vec<usize>>)
    requires
        wf_fields(fields@),
    ensures
        cov@.len() == spec_n_words(fields@, gpu_write),
        cov@.len() <= crate::ir::MAX_LAYOUT,
        forall|w: int| 0 <= w < cov@.len() ==> #[trigger] cov@[w]@ == covering_ixs(
            fields@,
            gpu_write,
            w,
        ),
{
    let total = n_words(fields, gpu_write);
    let mut cov: Vec<Vec<usize>> = Vec::new();
    let mut w: usize = 0;
    while w < total
        invariant
            w <= total,
            total == spec_n_words(fields@, gpu_write),
            total <= crate::ir::MAX_LAYOUT,
            wf_fields(fields@),
            cov@.len() == w,
            forall|v: int| 0 <= v < w ==> #[trigger] cov@[v]@ == covering_ixs(
                fields@,
                gpu_write,
                v,
            ),
        decreases total - w,
    {
        let mut group: Vec<usize> = Vec::new();
        let mut j: usize = 0;
        while j < fields.len()
            invariant
                j <= fields.len(),
                w <= crate::ir::MAX_LAYOUT,
                wf_fields(fields@),
                group@ == covering_prefix(fields@, gpu_write, w as int, j as nat),
            decreases fields.len() - j,
        {
            proof {
                assert(wf_field(fields@[j as int]));
            }
            if field_covers_word_exec(&fields[j], w, gpu_write) {
                group.push(j);
            }
            j += 1;
        }
        cov.push(group);
        w += 1;
    }
    cov
}

} // verus!
