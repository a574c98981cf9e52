//! The atomic event of the lattice.

use crate::bitmap::{bitmap_clone, bitmap_members};
use roaring::RoaringBitmap;
use vstd::prelude::*;

verus! {

/// The atomic unit of the system: a triple of antecedents, orthogonals and
/// a transformation, with a textual payload.
#[derive(Debug)]
pub struct Achronon {
    pub id: u32,
    /// Prerequisites that must be realized before this achronon can precipitate.
    pub antecedents: RoaringBitmap,
    /// Events that are spacelike separated and have no causal bearing.
    pub orthogonals: RoaringBitmap,
    /// The identifier of the transformation operator this event applies.
    pub transformation_id: String,
    /// The semantic payload of the event.
    pub content: String,
    /// The index of the subspace this event warps, if any.
    pub affected_subspace: Option<usize>,
}

/// What an achronon is, as plain mathematical values.
pub struct AchrononView {
    pub id: u32,
    pub antecedents: Set<u32>,
    pub orthogonals: Set<u32>,
    pub transformation_id: Seq<char>,
    pub content: Seq<char>,
    pub affected_subspace: Option<usize>,
}

impl View for Achronon {
    type V = AchrononView;

    open spec fn view(&self) -> AchrononView {
        AchrononView {
            id: self.id,
            antecedents: bitmap_members(self.antecedents),
            orthogonals: bitmap_members(self.orthogonals),
            transformation_id: self.transformation_id@,
            content: self.content@,
            affected_subspace: self.affected_subspace,
        }
    }
}

/// The views of a sequence of achronons, in order.
pub open spec fn views(s: Seq<Achronon>) -> Seq<AchrononView> {
    s.map_values(|a: Achronon| a@)
}

impl Clone for Achronon {
    fn clone(&self) -> (r: Self)
        ensures
            r@ == self@,
    {
        Achronon {
            id: self.id,
            antecedents: bitmap_clone(&self.antecedents),
            orthogonals: bitmap_clone(&self.orthogonals),
            transformation_id: self.transformation_id.clone(),
            content: self.content.clone(),
            affected_subspace: self.affected_subspace,
        }
    }
}

} // verus!
