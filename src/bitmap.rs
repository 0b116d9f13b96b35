//! The dirty bitmap: one bit per block, kept in a `bitmaps::Bitmap`.
//!
//! `Bitmap<SIZE>` is sized by a const generic whose bound names a trait of
//! the `bitmaps` crate that Verus cannot declare, so the map is held at the
//! crate's largest size, 1024 bits, and a table uses its first `BC` bits.
use vstd::prelude::*;

verus! {

/// Largest number of blocks a dirty bitmap can track.
pub const DIRTY_CAPACITY: usize = 1024;

/// Fixed-capacity set of block indices backed by `bitmaps::Bitmap<1024>`.
#[verifier::external_body]
pub struct DirtyBitmap {
    bits: bitmaps::Bitmap<1024>,
}

/// The indices whose bit is set in a dirty bitmap.
pub uninterp spec fn dirty_bits(b: DirtyBitmap) -> Set<int>;

/// Relies on `bitmaps::Bitmap::new`: every bit starts `false`.
#[verifier::external_body]
pub fn bitmap_new() -> (r: DirtyBitmap)
    ensures
        dirty_bits(r) == Set::<int>::empty(),
{
    DirtyBitmap { bits: bitmaps::Bitmap::new() }
}

/// Relies on `bitmaps::Bitmap::get`: the value of bit `index`.
#[verifier::external_body]
pub fn bitmap_get(b: &DirtyBitmap, index: usize) -> (r: bool)
    requires
        index < DIRTY_CAPACITY,
    ensures
        r == dirty_bits(*b).contains(index as int),
{
    b.bits.get(index)
}

/// Relies on `bitmaps::Bitmap::set`: bit `index` takes `value`, the others
/// keep theirs, and the previous value is returned.
#[verifier::external_body]
pub fn bitmap_set(b: &mut DirtyBitmap, index: usize, value: bool) -> (r: bool)
    requires
        index < DIRTY_CAPACITY,
    ensures
        r == dirty_bits(*old(b)).contains(index as int),
        dirty_bits(*final(b)) == if value {
            dirty_bits(*old(b)).insert(index as int)
        } else {
            dirty_bits(*old(b)).remove(index as int)
        },
{
    b.bits.set(index, value)
}

/// Relies on `bitmaps::Bitmap::first_index`: the lowest set bit, if any.
#[verifier::external_body]
pub fn bitmap_first_index(b: &DirtyBitmap) -> (r: Option<usize>)
    ensures
        match r {
            None => forall|i: int| 0 <= i < DIRTY_CAPACITY ==> !dirty_bits(*b).contains(i),
            Some(i) => {
                &&& i < DIRTY_CAPACITY
                &&& dirty_bits(*b).contains(i as int)
                &&& forall|j: int| 0 <= j < i ==> !dirty_bits(*b).contains(j)
            },
        },
{
    b.bits.first_index()
}

/// Relies on `bitmaps::Bitmap::next_index`: the lowest set bit strictly
/// above `index`, if any.
#[verifier::external_body]
pub fn bitmap_next_index(b: &DirtyBitmap, index: usize) -> (r: Option<usize>)
    requires
        index < DIRTY_CAPACITY,
    ensures
        match r {
            None => forall|j: int| index < j < DIRTY_CAPACITY ==> !dirty_bits(*b).contains(j),
            Some(i) => {
                &&& index < i < DIRTY_CAPACITY
                &&& dirty_bits(*b).contains(i as int)
                &&& forall|j: int| index < j < i ==> !dirty_bits(*b).contains(j)
            },
        },
{
    b.bits.next_index(index)
}

} // verus!
