//! The set of achronons that have precipitated into reality.

use crate::achronon::{Achronon, AchrononView};
use crate::bitmap::{bitmap_clone, bitmap_insert, bitmap_is_superset, bitmap_members, bitmap_new};
use roaring::RoaringBitmap;
use vstd::prelude::*;

verus! {

/// An achronon may precipitate once all of its antecedents have.
pub open spec fn eligible(reg: Set<u32>, a: AchrononView) -> bool {
    a.antecedents.subset_of(reg)
}

/// The state of the system: the ids of the achronons that have precipitated.
#[derive(Debug)]
pub struct PrecipitationRegistry {
    pub bits: RoaringBitmap,
}

impl View for PrecipitationRegistry {
    type V = Set<u32>;

    open spec fn view(&self) -> Set<u32> {
        bitmap_members(self.bits)
    }
}

impl PrecipitationRegistry {
    /// An empty registry: nothing has precipitated yet.
    pub fn new() -> (r: Self)
        ensures
            r@ == Set::<u32>::empty(),
    {
        PrecipitationRegistry { bits: bitmap_new() }
    }

    /// Whether all antecedents of `achronon` have precipitated.
    pub fn is_eligible(&self, achronon: &Achronon) -> (r: bool)
        ensures
            r == eligible(self@, achronon@),
    {
        bitmap_is_superset(&self.bits, &achronon.antecedents)
    }

    /// Marks `achronon` as precipitated.
    pub fn precipitate(&mut self, achronon: &Achronon)
        ensures
            final(self)@ == old(self)@.insert(achronon.id),
    {
        bitmap_insert(&mut self.bits, achronon.id);
    }
}

impl Clone for PrecipitationRegistry {
    /// A registry holding the same ids.
    fn clone(&self) -> (r: Self)
        ensures
            r@ == self@,
    {
        PrecipitationRegistry { bits: bitmap_clone(&self.bits) }
    }
}

impl Default for PrecipitationRegistry {
    fn default() -> (r: Self)
        ensures
            r@ == Set::<u32>::empty(),
    {
        PrecipitationRegistry::new()
    }
}

} // verus!
