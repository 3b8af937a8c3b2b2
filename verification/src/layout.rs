//! The layout of a record: where each field of an ordered list of fields
//! begins when the fields are laid out one after another, each at the next
//! address that its alignment allows.

use vstd::arithmetic::div_mod::{
    lemma_add_mod_noop, lemma_fundamental_div_mod, lemma_mod_multiples_basic, lemma_small_mod,
};
use vstd::arithmetic::power2::{
    is_pow2, is_pow2_equiv, lemma_pow2, lemma_pow2_adds, lemma_pow2_strictly_increases, pow2,
};
use vstd::prelude::*;

verus! {

/// The size and the alignment of a value in memory, in bytes.
#[derive(Clone, Copy, Debug, PartialEq, Eq, Structural)]
pub struct Shape {
    pub size: usize,
    pub align: usize,
}

/// Why a list of fields has no layout.
#[derive(Clone, Copy, Debug, PartialEq, Eq, Structural)]
pub enum LayoutError {
    /// The alignment of some field is not a power of two.
    BadAlignment,
    /// The record would be larger than the address space.
    TooLarge,
}

/// A laid-out record: the offset of each field, and the shape of the whole.
#[derive(Debug)]
pub struct Record {
    pub offsets: Vec<usize>,
    pub shape: Shape,
}

/// The least multiple of `align` that is not below `addr`.
pub open spec fn align_up(addr: int, align: int) -> int {
    if addr % align == 0 {
        addr
    } else {
        addr + align - addr % align
    }
}

/// Where the first `n` fields end: each field begins at the least multiple
/// of its alignment that is not below the end of the field before it.
pub open spec fn fields_end(fields: Seq<Shape>, n: int) -> int
    decreases n,
{
    if n <= 0 {
        0
    } else {
        align_up(fields_end(fields, n - 1), fields[n - 1].align as int) + fields[n - 1].size
    }
}

/// The offset of field `i` from the start of the record.
pub open spec fn field_offset(fields: Seq<Shape>, i: int) -> int {
    align_up(fields_end(fields, i), fields[i].align as int)
}

/// The largest alignment among the first `n` fields, and 1 if there is none.
pub open spec fn fields_align(fields: Seq<Shape>, n: int) -> int
    decreases n,
{
    if n <= 0 {
        1
    } else if fields[n - 1].align > fields_align(fields, n - 1) {
        fields[n - 1].align as int
    } else {
        fields_align(fields, n - 1)
    }
}

/// The alignment of the record: that of its most demanding field.
pub open spec fn record_align(fields: Seq<Shape>) -> int {
    fields_align(fields, fields.len() as int)
}

/// The size of the record: the end of its last field, rounded up to the
/// record's alignment.
pub open spec fn record_size(fields: Seq<Shape>) -> int {
    align_up(fields_end(fields, fields.len() as int), record_align(fields))
}

/// Every alignment in the list is a power of two.
pub open spec fn alignments_valid(fields: Seq<Shape>) -> bool {
    forall|i: int| 0 <= i < fields.len() ==> is_pow2(#[trigger] fields[i].align as int)
}

/// The list of fields has a layout that the address space can hold.
pub open spec fn has_layout(fields: Seq<Shape>) -> bool {
    alignments_valid(fields) && record_size(fields) <= usize::MAX
}

impl Record {
    /// This record is the layout of `fields`.
    pub open spec fn is_layout_of(&self, fields: Seq<Shape>) -> bool {
        &&& self.offsets@.len() == fields.len()
        &&& forall|i: int|
            0 <= i < fields.len() ==> #[trigger] self.offsets@[i] == field_offset(fields, i)
        &&& self.shape.size == record_size(fields)
        &&& self.shape.align == record_align(fields)
    }
}

/// Rounding up moves an address by less than one alignment, and onto a
/// multiple of the alignment.
pub proof fn lemma_align_up(addr: int, align: int)
    requires
        0 < align,
    ensures
        addr <= align_up(addr, align) < addr + align,
        align_up(addr, align) % align == 0,
        addr % align == 0 ==> align_up(addr, align) == addr,
{
    let r = addr % align;
    lemma_fundamental_div_mod(addr, align);
    if r != 0 {
        let q = addr / align;
        assert(addr + align - r == align * (q + 1)) by (nonlinear_arith)
            requires
                addr == align * q + r,
        ;
        lemma_mod_multiples_basic(q + 1, align);
        assert(align * (q + 1) == (q + 1) * align) by (nonlinear_arith);
    }
}

/// A power of two is positive.
pub proof fn lemma_pow2_positive(n: int)
    requires
        is_pow2(n),
    ensures
        n > 0,
{
    reveal(is_pow2);
}

/// Of two powers of two, the smaller divides the larger.
pub proof fn lemma_pow2_divides(small: int, large: int)
    requires
        is_pow2(small),
        is_pow2(large),
        small <= large,
    ensures
        large % small == 0,
{
    is_pow2_equiv(small);
    is_pow2_equiv(large);
    let i = choose|i: nat| vstd::arithmetic::power::pow(2, i) == small;
    let j = choose|j: nat| vstd::arithmetic::power::pow(2, j) == large;
    lemma_pow2(i);
    lemma_pow2(j);
    assert(pow2(i) == small);
    assert(pow2(j) == large);
    if j < i {
        lemma_pow2_strictly_increases(j, i);
    }
    let d = (j - i) as nat;
    lemma_pow2_adds(d, i);
    assert(large == pow2(d) * small);
    lemma_pow2_positive(small);
    lemma_mod_multiples_basic(pow2(d) as int, small);
}

/// The end of the fields never moves backwards as fields are added.
pub proof fn lemma_fields_end_monotone(fields: Seq<Shape>, i: int, j: int)
    requires
        0 <= i <= j <= fields.len(),
        alignments_valid(fields),
    ensures
        0 <= fields_end(fields, i) <= fields_end(fields, j),
    decreases j,
{
    if j == 0 {
    } else if i == j {
        lemma_fields_end_monotone(fields, i - 1, j - 1);
        lemma_pow2_positive(fields[j - 1].align as int);
        lemma_align_up(fields_end(fields, j - 1), fields[j - 1].align as int);
    } else {
        lemma_fields_end_monotone(fields, i, j - 1);
        lemma_pow2_positive(fields[j - 1].align as int);
        lemma_align_up(fields_end(fields, j - 1), fields[j - 1].align as int);
    }
}

/// The alignment of a record is a power of two that every field's
/// alignment divides.
pub proof fn lemma_fields_align(fields: Seq<Shape>, n: int, i: int)
    requires
        0 <= i < n <= fields.len(),
        alignments_valid(fields),
    ensures
        is_pow2(fields_align(fields, n)),
        fields[i].align <= fields_align(fields, n),
        fields_align(fields, n) % (fields[i].align as int) == 0,
    decreases n,
{
    if i < n - 1 {
        lemma_fields_align(fields, n - 1, i);
        if fields[n - 1].align > fields_align(fields, n - 1) {
            lemma_pow2_divides(fields[i].align as int, fields[n - 1].align as int);
        }
    } else {
        if n - 1 > 0 {
            lemma_fields_align(fields, n - 1, 0);
        } else {
            reveal(is_pow2);
        }
        if fields[n - 1].align <= fields_align(fields, n - 1) {
            lemma_pow2_divides(fields[i].align as int, fields_align(fields, n - 1));
        } else {
            lemma_pow2_divides(fields[i].align as int, fields[i].align as int);
        }
    }
}

/// The alignment of a record is a power of two, also where it has no field.
pub proof fn lemma_record_align(fields: Seq<Shape>)
    requires
        alignments_valid(fields),
    ensures
        is_pow2(record_align(fields)),
        record_align(fields) > 0,
        record_size(fields) % record_align(fields) == 0,
        fields_end(fields, fields.len() as int) <= record_size(fields),
{
    if fields.len() > 0 {
        lemma_fields_align(fields, fields.len() as int, 0);
    } else {
        reveal(is_pow2);
    }
    lemma_pow2_positive(record_align(fields));
    lemma_align_up(fields_end(fields, fields.len() as int), record_align(fields));
}

/// Every field lies within the record, at a multiple of its alignment.
pub proof fn lemma_field_placed(fields: Seq<Shape>, i: int)
    requires
        0 <= i < fields.len(),
        alignments_valid(fields),
    ensures
        0 <= field_offset(fields, i),
        field_offset(fields, i) % (fields[i].align as int) == 0,
        field_offset(fields, i) + fields[i].size <= record_size(fields),
{
    lemma_pow2_positive(fields[i].align as int);
    lemma_fields_end_monotone(fields, i, i);
    lemma_align_up(fields_end(fields, i), fields[i].align as int);
    lemma_fields_end_monotone(fields, i + 1, fields.len() as int);
    lemma_record_align(fields);
}

/// No two fields overlap: a field ends before any later field begins.
pub proof fn lemma_fields_disjoint(fields: Seq<Shape>, i: int, j: int)
    requires
        0 <= i < j < fields.len(),
        alignments_valid(fields),
    ensures
        field_offset(fields, i) + fields[i].size <= field_offset(fields, j),
{
    lemma_fields_end_monotone(fields, i + 1, j);
    lemma_pow2_positive(fields[j].align as int);
    lemma_align_up(fields_end(fields, j), fields[j].align as int);
}

/// In a record that begins at a multiple of its alignment, every field
/// begins at a multiple of its own.
pub proof fn lemma_field_address_aligned(fields: Seq<Shape>, base: int, i: int)
    requires
        0 <= i < fields.len(),
        alignments_valid(fields),
        base % record_align(fields) == 0,
    ensures
        (base + field_offset(fields, i)) % (fields[i].align as int) == 0,
{
    let a = fields[i].align as int;
    let big = record_align(fields);
    lemma_pow2_positive(a);
    lemma_fields_align(fields, fields.len() as int, i);
    lemma_field_placed(fields, i);
    lemma_pow2_positive(big);
    lemma_fundamental_div_mod(base, big);
    lemma_fundamental_div_mod(big, a);
    let k = (base / big) * (big / a);
    assert(base == k * a) by (nonlinear_arith)
        requires
            base == big * (base / big),
            big == a * (big / a),
            k == (base / big) * (big / a),
    ;
    lemma_mod_multiples_basic(k, a);
    lemma_add_mod_noop(base, field_offset(fields, i), a);
    lemma_small_mod(0, a as nat);
}

/// Tells whether `n` is a power of two.
pub fn is_power_of_two(n: usize) -> (r: bool)
    ensures
        r == is_pow2(n as int),
{
    if n == 0 {
        proof {
            reveal(is_pow2);
        }
        return false;
    }
    let mut m: usize = n;
    while m % 2 == 0
        invariant
            0 < m <= n,
            is_pow2(m as int) == is_pow2(n as int),
        decreases m,
    {
        proof {
            reveal(is_pow2);
        }
        m = m / 2;
    }
    proof {
        reveal(is_pow2);
    }
    m == 1
}

/// Rounds `addr` up to the next multiple of `align`, where that is an
/// address.
pub fn round_up(addr: usize, align: usize) -> (r: Option<usize>)
    requires
        align > 0,
    ensures
        match r {
            Some(v) => v == align_up(addr as int, align as int),
            None => align_up(addr as int, align as int) > usize::MAX,
        },
{
    let rem: usize = addr % align;
    if rem == 0 {
        Some(addr)
    } else {
        addr.checked_add(align - rem)
    }
}

/// Tells whether every alignment in the list is a power of two.
pub fn check_alignments(fields: &Vec<Shape>) -> (r: bool)
    ensures
        r == alignments_valid(fields@),
{
    let mut i: usize = 0;
    while i < fields.len()
        invariant
            i <= fields.len(),
            forall|j: int| 0 <= j < i ==> is_pow2(#[trigger] fields@[j].align as int),
        decreases fields.len() - i,
    {
        if !is_power_of_two(fields[i].align) {
            return false;
        }
        i += 1;
    }
    true
}

/// Lays out the fields in order.
///
/// The first field begins at offset 0; each later field begins at the end
/// of the one before it, rounded up to its own alignment. The record is as
/// aligned as its most demanding field, and its size is a multiple of that
/// alignment.
pub fn layout_record(fields: &Vec<Shape>) -> (r: Result<Record, LayoutError>)
    ensures
        match r {
            Ok(record) => has_layout(fields@) && record.is_layout_of(fields@),
            Err(LayoutError::BadAlignment) => !alignments_valid(fields@),
            Err(LayoutError::TooLarge) => alignments_valid(fields@) && record_size(fields@)
                > usize::MAX,
        },
{
    if !check_alignments(fields) {
        return Err(LayoutError::BadAlignment);
    }
    let n: usize = fields.len();
    let mut offsets: Vec<usize> = Vec::new();
    let mut end: usize = 0;
    let mut align: usize = 1;
    let mut i: usize = 0;
    while i < n
        invariant
            n == fields.len(),
            i <= n,
            alignments_valid(fields@),
            offsets@.len() == i,
            forall|j: int| 0 <= j < i ==> #[trigger] offsets@[j] == field_offset(fields@, j),
            end == fields_end(fields@, i as int),
            align == fields_align(fields@, i as int),
        decreases n - i,
    {
        let field: Shape = fields[i];
        proof {
            lemma_pow2_positive(field.align as int);
            lemma_fields_end_monotone(fields@, i + 1, n as int);
            lemma_record_align(fields@);
            lemma_align_up(fields_end(fields@, i as int), field.align as int);
        }
        let start: usize = match round_up(end, field.align) {
            Some(start) => start,
            None => {
                return Err(LayoutError::TooLarge);
            },
        };
        end = match start.checked_add(field.size) {
            Some(end) => end,
            None => {
                return Err(LayoutError::TooLarge);
            },
        };
        if field.align > align {
            align = field.align;
        }
        offsets.push(start);
        i += 1;
    }
    proof {
        lemma_record_align(fields@);
    }
    match round_up(end, align) {
        Some(size) => Ok(Record { offsets, shape: Shape { size, align } }),
        None => Err(LayoutError::TooLarge),
    }
}

} // verus!
