//! The lattice topology engine: which achronons precipitate next.

use crate::achronon::{views, Achronon, AchrononView};
use crate::bitmap::{bitmap_contains, bitmap_insert, bitmap_is_disjoint, bitmap_members, bitmap_new};
use crate::registry::{eligible, PrecipitationRegistry};
use std::collections::HashSet;
use vstd::prelude::*;

verus! {

/// An achronon belongs to the next batch when it has not precipitated yet
/// and all of its antecedents have.
pub open spec fn pending_eligible(reg: Set<u32>, a: AchrononView) -> bool {
    !reg.contains(a.id) && eligible(reg, a)
}

/// The next batch of the continuum `aion` under the registry `reg`: its
/// pending eligible achronons, in their order in `aion`.
pub open spec fn eligible_batch(aion: Seq<AchrononView>, reg: Set<u32>) -> Seq<AchrononView> {
    aion.filter(pending_pred(reg))
}

/// `pending_eligible` under `reg`, as a predicate.
pub open spec fn pending_pred(reg: Set<u32>) -> spec_fn(AchrononView) -> bool {
    |a: AchrononView| pending_eligible(reg, a)
}

/// The ids of the achronons of a batch.
pub open spec fn batch_ids(b: Seq<AchrononView>) -> Set<u32> {
    Set::new(|id: u32| exists|i: int| 0 <= i < b.len() && b[i].id == id)
}

/// No achronon of the batch has an antecedent in the batch.
pub open spec fn causally_independent(b: Seq<AchrononView>) -> bool {
    forall|i: int| 0 <= i < b.len() ==> (#[trigger] b[i]).antecedents.disjoint(batch_ids(b))
}

/// No two achronons of the batch warp the same subspace.
pub open spec fn subspaces_distinct(b: Seq<AchrononView>) -> bool {
    forall|i: int, j: int|
        0 <= i < j < b.len() && (#[trigger] b[i]).affected_subspace is Some
            ==> (#[trigger] b[j]).affected_subspace != b[i].affected_subspace
}

/// A batch is orthogonal when it is causally independent and free of
/// subspace contention.
pub open spec fn batch_orthogonal(b: Seq<AchrononView>) -> bool {
    causally_independent(b) && subspaces_distinct(b)
}

/// The subspaces that the first `n` achronons of `b` warp.
pub open spec fn subspaces_of(b: Seq<AchrononView>, n: int) -> Set<usize> {
    Set::new(|s: usize| exists|i: int| 0 <= i < n && b[i].affected_subspace == Some(s))
}

/// A batch holds exactly the achronons of the continuum that are pending and
/// eligible: each of its members comes from `aion` and is pending and
/// eligible, and each pending eligible achronon of `aion` is in it.
pub proof fn lemma_batch_is_exactly_the_pending_eligible(aion: Seq<AchrononView>, reg: Set<u32>)
    ensures
        forall|i: int|
            0 <= i < eligible_batch(aion, reg).len() ==> {
                &&& pending_eligible(reg, #[trigger] eligible_batch(aion, reg)[i])
                &&& aion.contains(eligible_batch(aion, reg)[i])
            },
        forall|i: int|
            0 <= i < aion.len() && pending_eligible(reg, #[trigger] aion[i])
                ==> eligible_batch(aion, reg).contains(aion[i]),
{
    broadcast use vstd::seq_lib::group_filter_ensures;
    let p = pending_pred(reg);
    assert forall|i: int| 0 <= i < eligible_batch(aion, reg).len() implies {
        &&& pending_eligible(reg, #[trigger] eligible_batch(aion, reg)[i])
        &&& aion.contains(eligible_batch(aion, reg)[i])
    } by {
        aion.lemma_filter_pred(p, i);
        aion.lemma_filter_contains_rev(p, aion.filter(p)[i]);
    }
    assert forall|i: int| 0 <= i < aion.len() && pending_eligible(reg, #[trigger] aion[i])
        implies eligible_batch(aion, reg).contains(aion[i]) by {
        aion.lemma_filter_contains(p, i);
    }
}

/// The acausal invariant: no achronon of a batch that the eligibility rule
/// selects has an antecedent in the same batch.
pub proof fn lemma_eligible_batch_causally_independent(aion: Seq<AchrononView>, reg: Set<u32>)
    ensures
        causally_independent(eligible_batch(aion, reg)),
{
    let b = eligible_batch(aion, reg);
    lemma_batch_is_exactly_the_pending_eligible(aion, reg);
    assert forall|i: int| 0 <= i < b.len() implies (#[trigger] b[i]).antecedents.disjoint(
        batch_ids(b),
    ) by {
        assert forall|id: u32| b[i].antecedents.contains(id) implies !batch_ids(b).contains(id) by {
            if batch_ids(b).contains(id) {
                let j = choose|j: int| 0 <= j < b.len() && b[j].id == id;
                assert(pending_eligible(reg, b[j]));
                assert(pending_eligible(reg, b[i]));
            }
        }
    }
}

/// So a batch that the eligibility rule selects is orthogonal exactly when
/// no two of its achronons warp the same subspace.
pub proof fn lemma_eligible_batch_orthogonal_iff_subspaces_distinct(
    aion: Seq<AchrononView>,
    reg: Set<u32>,
)
    ensures
        batch_orthogonal(eligible_batch(aion, reg)) == subspaces_distinct(eligible_batch(aion, reg)),
{
    lemma_eligible_batch_causally_independent(aion, reg);
}

/// An achronon with an antecedent that has not precipitated is never in the
/// next batch.
pub proof fn lemma_unrealized_antecedent_blocks(
    aion: Seq<AchrononView>,
    reg: Set<u32>,
    a: AchrononView,
    x: u32,
)
    requires
        a.antecedents.contains(x),
        !reg.contains(x),
    ensures
        !eligible_batch(aion, reg).contains(a),
{
    lemma_batch_is_exactly_the_pending_eligible(aion, reg);
}

/// Once an achronon's id has precipitated, no achronon with that id is in
/// the next batch.
pub proof fn lemma_precipitated_leaves_batch(aion: Seq<AchrononView>, reg: Set<u32>, id: u32)
    ensures
        forall|i: int|
            0 <= i < eligible_batch(aion, reg.insert(id)).len()
                ==> (#[trigger] eligible_batch(aion, reg.insert(id))[i]).id != id,
{
    lemma_batch_is_exactly_the_pending_eligible(aion, reg.insert(id));
}

/// Precipitation never takes eligibility away: an achronon eligible under a
/// registry stays eligible under any registry that holds it.
pub proof fn lemma_eligibility_monotone(reg: Set<u32>, bigger: Set<u32>, a: AchrononView)
    requires
        reg.subset_of(bigger),
        eligible(reg, a),
    ensures
        eligible(bigger, a),
{
}

/// `sub` is made of distinct positions of `b`: its entry `k` is entry
/// `pos[k]` of `b`, and no position is taken twice.
pub open spec fn picks_distinct_positions(
    sub: Seq<AchrononView>,
    b: Seq<AchrononView>,
    pos: Seq<int>,
) -> bool {
    &&& pos.len() == sub.len()
    &&& forall|k: int| 0 <= k < sub.len() ==> 0 <= #[trigger] pos[k] < b.len() && sub[k] == b[pos[k]]
    &&& forall|k: int, l: int| 0 <= k < l < sub.len() ==> #[trigger] pos[k] != #[trigger] pos[l]
}

/// Any batch made of distinct positions of an orthogonal batch (a sub-batch,
/// in any order) is orthogonal.
pub proof fn lemma_sub_batch_orthogonal(sub: Seq<AchrononView>, b: Seq<AchrononView>, pos: Seq<int>)
    requires
        batch_orthogonal(b),
        picks_distinct_positions(sub, b, pos),
    ensures
        batch_orthogonal(sub),
{
    assert forall|k: int| 0 <= k < sub.len() implies (#[trigger] sub[k]).antecedents.disjoint(
        batch_ids(sub),
    ) by {
        assert(b[pos[k]] == sub[k]);
        assert forall|id: u32| sub[k].antecedents.contains(id) implies !batch_ids(sub).contains(id) by {
            if batch_ids(sub).contains(id) {
                let l = choose|l: int| 0 <= l < sub.len() && sub[l].id == id;
                assert(sub[l] == b[pos[l]]);
                assert(batch_ids(b).contains(id));
                assert(b[pos[k]].antecedents.disjoint(batch_ids(b)));
            }
        }
    }
    assert forall|k: int, l: int|
        0 <= k < l < sub.len() && (#[trigger] sub[k]).affected_subspace is Some implies (
        #[trigger] sub[l]).affected_subspace != sub[k].affected_subspace by {
        let p = pos[k];
        let q = pos[l];
        assert(sub[k] == b[p] && sub[l] == b[q]);
        assert(p != q);
        if p < q {
            assert(b[p].affected_subspace is Some ==> b[q].affected_subspace != b[p].affected_subspace);
        } else {
            if b[q].affected_subspace == b[p].affected_subspace {
                assert(b[q].affected_subspace is Some);
            }
        }
    }
}

/// `b2` is `b1` in another order: `perm` and `inv` are inverse bijections
/// between their positions.
pub open spec fn is_reordering(
    b1: Seq<AchrononView>,
    b2: Seq<AchrononView>,
    perm: Seq<int>,
    inv: Seq<int>,
) -> bool {
    &&& b1.len() == b2.len()
    &&& perm.len() == b2.len()
    &&& inv.len() == b1.len()
    &&& forall|k: int| 0 <= k < b2.len() ==> 0 <= #[trigger] perm[k] < b1.len() && b2[k] == b1[perm[k]]
    &&& forall|m: int| 0 <= m < b1.len() ==> 0 <= #[trigger] inv[m] < b2.len() && perm[inv[m]] == m
    &&& forall|k: int| 0 <= k < b2.len() ==> #[trigger] inv[perm[k]] == k
}

/// Orthogonality does not depend on the order of the batch.
pub proof fn lemma_orthogonality_order_independent(
    b1: Seq<AchrononView>,
    b2: Seq<AchrononView>,
    perm: Seq<int>,
    inv: Seq<int>,
)
    requires
        is_reordering(b1, b2, perm, inv),
    ensures
        batch_orthogonal(b1) == batch_orthogonal(b2),
{
    assert forall|k: int, l: int| 0 <= k < l < b2.len() implies #[trigger] perm[k] != #[trigger] perm[l] by {
        if perm[k] == perm[l] {
            assert(inv[perm[k]] == k);
            assert(inv[perm[l]] == l);
        }
    }
    assert forall|m: int| 0 <= m < b1.len() implies b1[m] == b2[#[trigger] inv[m]] by {
        assert(b2[inv[m]] == b1[perm[inv[m]]]);
    }
    assert forall|m: int, n: int| 0 <= m < n < b1.len() implies #[trigger] inv[m] != #[trigger] inv[n] by {
        if inv[m] == inv[n] {
            assert(perm[inv[m]] == m);
            assert(perm[inv[n]] == n);
        }
    }
    if batch_orthogonal(b1) {
        lemma_sub_batch_orthogonal(b2, b1, perm);
    }
    if batch_orthogonal(b2) {
        lemma_sub_batch_orthogonal(b1, b2, inv);
    }
}

/// Whether an achronon belongs to the next batch depends only on whether it
/// belongs to the continuum, not on where it stands there: continuums with
/// the same members give batches with the same members.
pub proof fn lemma_batch_membership_ignores_creation_order(
    aion1: Seq<AchrononView>,
    aion2: Seq<AchrononView>,
    reg: Set<u32>,
    a: AchrononView,
)
    requires
        aion1.contains(a) == aion2.contains(a),
    ensures
        eligible_batch(aion1, reg).contains(a) == eligible_batch(aion2, reg).contains(a),
{
    lemma_batch_membership(aion1, reg, a);
    lemma_batch_membership(aion2, reg, a);
}

/// An achronon is in the next batch exactly when it is in the continuum and
/// pending and eligible.
pub proof fn lemma_batch_membership(aion: Seq<AchrononView>, reg: Set<u32>, a: AchrononView)
    ensures
        eligible_batch(aion, reg).contains(a) == (aion.contains(a) && pending_eligible(reg, a)),
{
    lemma_batch_is_exactly_the_pending_eligible(aion, reg);
    if eligible_batch(aion, reg).contains(a) {
        let i = choose|i: int| 0 <= i < eligible_batch(aion, reg).len() && eligible_batch(aion, reg)[i] == a;
        assert(pending_eligible(reg, eligible_batch(aion, reg)[i]));
    }
    if aion.contains(a) && pending_eligible(reg, a) {
        let i = choose|i: int| 0 <= i < aion.len() && aion[i] == a;
        assert(pending_eligible(reg, aion[i]));
    }
}

/// Stepping the lattice: after the batch precipitates, no achronon of the
/// next batch has precipitated before or shares an id with the batch (no
/// achronon precipitates twice), and each of them was not yet eligible and
/// has an antecedent in the batch (new eligibility comes only from the
/// batch that just precipitated).
pub proof fn lemma_step(aion: Seq<AchrononView>, reg: Set<u32>)
    ensures
        forall|i: int|
            0 <= i < eligible_batch(aion, reg.union(batch_ids(eligible_batch(aion, reg)))).len() ==> {
                let a = #[trigger] eligible_batch(
                    aion,
                    reg.union(batch_ids(eligible_batch(aion, reg))),
                )[i];
                &&& !reg.contains(a.id)
                &&& !batch_ids(eligible_batch(aion, reg)).contains(a.id)
                &&& !eligible(reg, a)
                &&& exists|x: u32|
                    a.antecedents.contains(x) && batch_ids(eligible_batch(aion, reg)).contains(x)
            },
{
    let b = eligible_batch(aion, reg);
    let reg2 = reg.union(batch_ids(b));
    let next = eligible_batch(aion, reg2);
    lemma_batch_is_exactly_the_pending_eligible(aion, reg2);
    assert forall|i: int| 0 <= i < next.len() implies {
        let a = #[trigger] next[i];
        &&& !reg.contains(a.id)
        &&& !batch_ids(b).contains(a.id)
        &&& !eligible(reg, a)
        &&& exists|x: u32| a.antecedents.contains(x) && batch_ids(b).contains(x)
    } by {
        let a = next[i];
        assert(pending_eligible(reg2, a));
        assert(aion.contains(a));
        if eligible(reg, a) {
            lemma_batch_membership(aion, reg, a);
            let j = choose|j: int| 0 <= j < b.len() && b[j] == a;
            assert(batch_ids(b).contains(a.id));
        }
        let x = choose|x: u32| a.antecedents.contains(x) && !reg.contains(x);
        assert(a.antecedents.contains(x) && batch_ids(b).contains(x));
    }
}

/// How often `x` occurs in a filtered sequence: as often as in the sequence
/// when `p` keeps it, never otherwise.
proof fn lemma_filter_count(s: Seq<AchrononView>, p: spec_fn(AchrononView) -> bool, x: AchrononView)
    ensures
        s.filter(p).to_multiset().count(x) == if p(x) {
            s.to_multiset().count(x)
        } else {
            0
        },
    decreases s.len(),
{
    broadcast use vstd::seq_lib::group_to_multiset_ensures;
    if s.len() == 0 {
        assert(s.filter(p) =~= s) by {
            reveal(Seq::filter);
        }
        assert(s.to_multiset() =~= vstd::multiset::Multiset::empty());
    } else {
        let rest = s.drop_last();
        let last = s.last();
        lemma_filter_count(rest, p, x);
        assert(s == rest.push(last));
        rest.lemma_filter_push(last, p);
        assert(s.to_multiset() =~= rest.to_multiset().insert(last));
        if p(last) {
            assert(rest.filter(p).push(last).to_multiset() =~= rest.filter(p).to_multiset().insert(
                last,
            ));
        }
    }
}

/// Eligibility follows from antecedents and the registry alone, not from
/// creation order: when two continuums hold the same achronons, with the same
/// multiplicities, so do their next batches.
pub proof fn lemma_batch_permutes_with_continuum(
    aion1: Seq<AchrononView>,
    aion2: Seq<AchrononView>,
    reg: Set<u32>,
)
    requires
        aion1.to_multiset() == aion2.to_multiset(),
    ensures
        eligible_batch(aion1, reg).to_multiset() == eligible_batch(aion2, reg).to_multiset(),
{
    assert forall|x: AchrononView| #[trigger] eligible_batch(aion1, reg).to_multiset().count(x)
        == eligible_batch(aion2, reg).to_multiset().count(x) by {
        lemma_filter_count(aion1, pending_pred(reg), x);
        lemma_filter_count(aion2, pending_pred(reg), x);
    }
    assert(eligible_batch(aion1, reg).to_multiset() =~= eligible_batch(aion2, reg).to_multiset());
}

/// Selects the batches of achronons that precipitate together.
pub struct LatticeTopologyEngine {
    pub aion: Vec<Achronon>,
}

impl LatticeTopologyEngine {
    pub fn new(aion: Vec<Achronon>) -> (r: Self)
        ensures
            r.aion@ == aion@,
    {
        LatticeTopologyEngine { aion }
    }

    /// The achronons that are eligible to precipitate under `registry` and
    /// have not precipitated yet, in their order in the continuum.
    pub fn next_eligible_batch(&self, registry: &PrecipitationRegistry) -> (batch: Vec<Achronon>)
        ensures
            views(batch@) == eligible_batch(views(self.aion@), registry@),
    {
        let ghost pred = pending_pred(registry@);
        let mut eligible_list: Vec<Achronon> = Vec::new();
        let n = self.aion.len();
        let mut i: usize = 0;
        while i < n
            invariant
                n == self.aion.len(),
                i <= n,
                pred == pending_pred(registry@),
                views(eligible_list@) == views(self.aion@).take(i as int).filter(pred),
            decreases n - i,
        {
            let a = &self.aion[i];
            let keep = !bitmap_contains(&registry.bits, a.id) && registry.is_eligible(a);
            proof {
                let all = views(self.aion@);
                assert(all[i as int] == a@);
                assert(all.take(i + 1) == all.take(i as int).push(a@));
                assert(keep == pred(a@));
                all.take(i as int).lemma_filter_push(a@, pred);
            }
            if keep {
                let c = a.clone();
                let ghost before = eligible_list@;
                eligible_list.push(c);
                assert(views(eligible_list@) == views(before).push(a@));
            }
            i += 1;
        }
        proof {
            assert(views(self.aion@).take(n as int) == views(self.aion@));
        }
        self.validate_batch_orthogonality(&eligible_list);
        eligible_list
    }

    /// Whether no achronon of `batch` has an antecedent in the batch and no
    /// two of them warp the same subspace.
    pub fn validate_batch_orthogonality(&self, batch: &[Achronon]) -> (r: bool)
        ensures
            r == batch_orthogonal(views(batch@)),
    {
        let ghost b = views(batch@);
        let n = batch.len();
        let mut batch_ids_map = bitmap_new();
        let mut k: usize = 0;
        while k < n
            invariant
                n == batch@.len(),
                b == views(batch@),
                k <= n,
                bitmap_members(batch_ids_map) == Set::new(
                    |id: u32| exists|i: int| 0 <= i < k && b[i].id == id,
                ),
            decreases n - k,
        {
            bitmap_insert(&mut batch_ids_map, batch[k].id);
            assert(bitmap_members(batch_ids_map) =~= Set::new(
                |id: u32| exists|i: int| 0 <= i < k + 1 && b[i].id == id,
            )) by {
                assert(b[k as int].id == batch[k as int].id);
            }
            k += 1;
        }
        assert(bitmap_members(batch_ids_map) =~= batch_ids(b));

        let mut used_subspaces: HashSet<usize> = HashSet::new();
        let mut i: usize = 0;
        while i < n
            invariant
                n == batch@.len(),
                b == views(batch@),
                i <= n,
                bitmap_members(batch_ids_map) == batch_ids(b),
                used_subspaces@ == subspaces_of(b, i as int),
                forall|j: int| 0 <= j < i ==> (#[trigger] b[j]).antecedents.disjoint(batch_ids(b)),
                forall|j: int, l: int|
                    0 <= j < l < i && (#[trigger] b[j]).affected_subspace is Some
                        ==> (#[trigger] b[l]).affected_subspace != b[j].affected_subspace,
            decreases n - i,
        {
            broadcast use vstd::std_specs::hash::group_hash_axioms;
            let achronon = &batch[i];
            assert(b[i as int] == achronon@);
            if !bitmap_is_disjoint(&achronon.antecedents, &batch_ids_map) {
                return false;
            }
            match achronon.affected_subspace {
                Some(s) => {
                    if !used_subspaces.insert(s) {
                        let ghost j = choose|j: int| 0 <= j < i && b[j].affected_subspace == Some(s);
                        assert(b[j].affected_subspace is Some);
                        return false;
                    }
                },
                None => {},
            }
            assert(used_subspaces@ =~= subspaces_of(b, i + 1));
            i += 1;
        }
        true
    }
}

} // verus!
