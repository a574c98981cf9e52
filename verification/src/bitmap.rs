//! The compressed bitmap of the `roaring` crate, as a finite set of `u32`.

use roaring::RoaringBitmap;
use vstd::prelude::*;

verus! {

/// `roaring::RoaringBitmap`, carried through as an opaque value; what it
/// holds is `bitmap_members`.
#[verifier::external_type_specification]
#[verifier::external_body]
pub struct ExRoaringBitmap(RoaringBitmap);

/// The set of integers that a bitmap holds.
pub uninterp spec fn bitmap_members(b: RoaringBitmap) -> Set<u32>;

/// `RoaringBitmap::new`: the new bitmap holds nothing.
#[verifier::external_body]
pub(crate) fn bitmap_new() -> (b: RoaringBitmap)
    ensures
        bitmap_members(b) == Set::<u32>::empty(),
{
    RoaringBitmap::new()
}

/// `RoaringBitmap::insert`: adds `value`, and returns whether it was absent
/// before.
#[verifier::external_body]
pub(crate) fn bitmap_insert(b: &mut RoaringBitmap, value: u32) -> (added: bool)
    ensures
        bitmap_members(*final(b)) == bitmap_members(*old(b)).insert(value),
        added == !bitmap_members(*old(b)).contains(value),
{
    b.insert(value)
}

/// `RoaringBitmap::contains`: whether `value` is in the bitmap.
#[verifier::external_body]
pub(crate) fn bitmap_contains(b: &RoaringBitmap, value: u32) -> (r: bool)
    ensures
        r == bitmap_members(*b).contains(value),
{
    b.contains(value)
}

/// `RoaringBitmap::is_superset`: whether every member of `other` is a member
/// of `b`.
#[verifier::external_body]
pub(crate) fn bitmap_is_superset(b: &RoaringBitmap, other: &RoaringBitmap) -> (r: bool)
    ensures
        r == bitmap_members(*other).subset_of(bitmap_members(*b)),
{
    b.is_superset(other)
}

/// `RoaringBitmap::is_disjoint`: whether the two bitmaps share no member.
#[verifier::external_body]
pub(crate) fn bitmap_is_disjoint(b: &RoaringBitmap, other: &RoaringBitmap) -> (r: bool)
    ensures
        r == bitmap_members(*b).disjoint(bitmap_members(*other)),
{
    b.is_disjoint(other)
}

/// `RoaringBitmap::clone`: the copy holds the same members.
#[verifier::external_body]
pub(crate) fn bitmap_clone(b: &RoaringBitmap) -> (r: RoaringBitmap)
    ensures
        bitmap_members(r) == bitmap_members(*b),
{
    b.clone()
}

} // verus!
