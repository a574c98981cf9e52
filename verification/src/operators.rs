//! Transformation operators: where a subspace block sits in a full matrix,
//! and the table that maps transformation ids to operators.

use crate::achronon::{views, Achronon, AchrononView};
use vstd::prelude::*;

verus! {

/// The entry at row `i` and column `j` of the `n`-by-`n` identity matrix in
/// which the square block `block` of side `size` replaces the diagonal block
/// that starts at row and column `offset`.
pub open spec fn embedded_entry<T>(
    zero: T,
    one: T,
    block: Seq<Vec<T>>,
    offset: int,
    size: int,
    i: int,
    j: int,
) -> T {
    if offset <= i < offset + size && offset <= j < offset + size {
        block[i - offset]@[j - offset]
    } else if i == j {
        one
    } else {
        zero
    }
}

proof fn lemma_row_major(n: int, i: int, j: int)
    requires
        0 <= i < n,
        0 <= j < n,
    ensures
        0 <= i * n + j < n * n,
        (i * n + j) / n == i,
        (i * n + j) % n == j,
{
    assert(0 <= i * n) by (nonlinear_arith)
        requires
            0 <= i,
            0 <= n,
    ;
    assert(i * n + j < n * n) by (nonlinear_arith)
        requires
            0 <= i < n,
            0 <= j < n,
    ;
    vstd::arithmetic::div_mod::lemma_fundamental_div_mod_converse(i * n + j, n, i, j);
}

/// The full `total_dimension`-by-`total_dimension` operator, in row-major
/// order, that applies `block` to subspace `subspace_index` (the coordinates
/// `subspace_index * subspace_size` up to `(subspace_index + 1) * subspace_size`)
/// and leaves every other coordinate unchanged; `zero` and `one` are the
/// scalars of the identity.
pub fn embed_subspace_block<T: Copy>(
    zero: T,
    one: T,
    subspace_index: usize,
    subspace_size: usize,
    total_dimension: usize,
    block: &Vec<Vec<T>>,
) -> (m: Vec<T>)
    requires
        subspace_index * subspace_size + subspace_size <= total_dimension,
        total_dimension * total_dimension <= usize::MAX,
        block@.len() >= subspace_size,
        forall|r: int| 0 <= r < subspace_size ==> (#[trigger] block@[r])@.len() >= subspace_size,
    ensures
        m@.len() == total_dimension * total_dimension,
        forall|i: int, j: int|
            0 <= i < total_dimension && 0 <= j < total_dimension ==> #[trigger] m@[i
                * total_dimension + j] == embedded_entry(
                zero,
                one,
                block@,
                subspace_index * subspace_size,
                subspace_size as int,
                i,
                j,
            ),
{
    let n = total_dimension;
    let size = subspace_size;
    assert(subspace_index * subspace_size <= usize::MAX) by (nonlinear_arith)
        requires
            subspace_index * subspace_size + subspace_size <= total_dimension,
            total_dimension <= usize::MAX,
    ;
    let offset = subspace_index * subspace_size;
    let total = n * n;
    let ghost entry = |i: int, j: int|
        embedded_entry(zero, one, block@, offset as int, size as int, i, j);
    let mut m: Vec<T> = Vec::new();
    let mut idx: usize = 0;
    while idx < total
        invariant
            total == n * n,
            n > 0 || total == 0,
            offset + size <= n,
            block@.len() >= size,
            forall|r: int| 0 <= r < size ==> (#[trigger] block@[r])@.len() >= size,
            entry == (|i: int, j: int|
                embedded_entry(zero, one, block@, offset as int, size as int, i, j)),
            idx <= total,
            m@.len() == idx,
            forall|k: int| 0 <= k < idx ==> #[trigger] m@[k] == entry(k / n as int, k % n as int),
        decreases total - idx,
    {
        let i = idx / n;
        let j = idx % n;
        let in_block = offset <= i && i < offset + size && offset <= j && j < offset + size;
        let value = if in_block {
            block[i - offset][j - offset]
        } else if i == j {
            one
        } else {
            zero
        };
        m.push(value);
        idx += 1;
    }
    assert forall|i: int, j: int| 0 <= i < n && 0 <= j < n implies #[trigger] m@[i * n + j]
        == embedded_entry(zero, one, block@, offset as int, size as int, i, j) by {
        lemma_row_major(n as int, i, j);
    }
    m
}

/// The operators registered under transformation ids; registering under an
/// id that is taken replaces the operator.
pub struct OperatorTable<T> {
    names: Vec<String>,
    ops: Vec<T>,
}

/// `k` is the name of entry `i` of the table's name list.
pub open spec fn names_at(names: Seq<String>, i: int, k: Seq<char>) -> bool {
    0 <= i < names.len() && names[i]@ == k
}

impl<T> OperatorTable<T> {
    /// The name and operator lists line up, and no name occurs twice.
    pub closed spec fn well_formed(self) -> bool {
        &&& self.names@.len() == self.ops@.len()
        &&& forall|i: int, j: int|
            0 <= i < self.names@.len() && 0 <= j < self.names@.len() && i != j
                ==> (#[trigger] self.names@[i])@ != (#[trigger] self.names@[j])@
    }

    /// The operators as a map from transformation id to operator.
    pub closed spec fn map(self) -> Map<Seq<char>, T> {
        Map::new(
            |k: Seq<char>| exists|i: int| names_at(self.names@, i, k),
            |k: Seq<char>| self.ops@[choose|i: int| names_at(self.names@, i, k)],
        )
    }

    proof fn lemma_entry(self, i: int)
        requires
            self.well_formed(),
            0 <= i < self.names@.len(),
        ensures
            self.map().contains_key(self.names@[i]@),
            self.map()[self.names@[i]@] == self.ops@[i],
    {
        let k = self.names@[i]@;
        assert(names_at(self.names@, i, k));
        let c = choose|c: int| names_at(self.names@, c, k);
        assert(names_at(self.names@, c, k));
        if c != i {
            assert(self.names@[c]@ != self.names@[i]@);
        }
    }

    /// An empty table.
    pub fn new() -> (t: Self)
        ensures
            t.well_formed(),
            t.map() == Map::<Seq<char>, T>::empty(),
    {
        let t = OperatorTable { names: Vec::new(), ops: Vec::new() };
        assert(t.map() =~= Map::<Seq<char>, T>::empty());
        t
    }

    /// The position of `id` in the name list.
    fn position(&self, id: &String) -> (r: Option<usize>)
        ensures
            match r {
                Some(i) => i < self.names@.len() && self.names@[i as int]@ == id@,
                None => forall|i: int| 0 <= i < self.names@.len() ==> self.names@[i]@ != id@,
            },
    {
        let mut i: usize = 0;
        while i < self.names.len()
            invariant
                i <= self.names@.len(),
                forall|k: int| 0 <= k < i ==> self.names@[k]@ != id@,
            decreases self.names.len() - i,
        {
            if self.names[i] == *id {
                return Some(i);
            }
            i += 1;
        }
        None
    }

    /// Registers `op` under `id`, replacing any operator registered under it.
    pub fn insert(&mut self, id: String, op: T)
        requires
            old(self).well_formed(),
        ensures
            final(self).well_formed(),
            final(self).map() == old(self).map().insert(id@, op),
    {
        let ghost old_self = *self;
        match self.position(&id) {
            Some(i) => {
                self.ops.set(i, op);
                proof {
                    self.lemma_entry(i as int);
                    assert forall|k: Seq<char>| #![auto] self.map().contains_key(k) implies k
                        == id@ || old_self.map().contains_key(k) by {
                        let c = choose|c: int| names_at(self.names@, c, k);
                        assert(names_at(old_self.names@, c, k));
                    }
                    assert forall|k: Seq<char>| #![auto] old_self.map().contains_key(k) implies self.map().contains_key(k) by {
                        let c = choose|c: int| names_at(old_self.names@, c, k);
                        assert(names_at(self.names@, c, k));
                    }
                    assert forall|k: Seq<char>| #![auto] self.map().contains_key(k) implies self.map()[k]
                        == old_self.map().insert(id@, op)[k] by {
                        let c = choose|c: int| names_at(self.names@, c, k);
                        self.lemma_entry(c);
                        old_self.lemma_entry(c);
                        if k != id@ {
                            assert(c != i);
                        }
                    }
                    assert(self.map() =~= old_self.map().insert(id@, op));
                }
            },
            None => {
                let ghost key = id@;
                self.names.push(id);
                self.ops.push(op);
                proof {
                    let n = old_self.names@.len() as int;
                    assert forall|k: Seq<char>| #![auto] self.map().contains_key(k) implies k == key
                        || old_self.map().contains_key(k) by {
                        let c = choose|c: int| names_at(self.names@, c, k);
                        if c < n {
                            assert(names_at(old_self.names@, c, k));
                        }
                    }
                    assert forall|k: Seq<char>| #![auto] old_self.map().contains_key(k) implies self.map().contains_key(k) by {
                        let c = choose|c: int| names_at(old_self.names@, c, k);
                        assert(names_at(self.names@, c, k));
                    }
                    assert(names_at(self.names@, n, key));
                    assert forall|k: Seq<char>| #![auto] self.map().contains_key(k) implies self.map()[k]
                        == old_self.map().insert(key, op)[k] by {
                        let c = choose|c: int| names_at(self.names@, c, k);
                        self.lemma_entry(c);
                        if c < n {
                            old_self.lemma_entry(c);
                        }
                    }
                    assert(self.map() =~= old_self.map().insert(key, op));
                }
            },
        }
    }

    /// The operator registered under `id`, if any.
    pub fn get(&self, id: &str) -> (r: Option<&T>)
        requires
            self.well_formed(),
        ensures
            match r {
                Some(op) => self.map().contains_key(id@) && *op == self.map()[id@],
                None => !self.map().contains_key(id@),
            },
    {
        let key = String::from_str(id);
        match self.position(&key) {
            Some(i) => {
                proof {
                    self.lemma_entry(i as int);
                }
                Some(&self.ops[i])
            },
            None => {
                proof {
                    if self.map().contains_key(id@) {
                        let c = choose|c: int| names_at(self.names@, c, id@);
                        assert(self.names@[c]@ != key@);
                    }
                }
                None
            },
        }
    }
}

/// Entry `(i, j)` of the embedding of an integer block, as an integer.
pub open spec fn int_entry(block: Seq<Vec<i64>>, offset: int, size: int, i: int, j: int) -> int {
    embedded_entry(0i64, 1i64, block, offset, size, i, j) as int
}

/// The first `k` terms of entry `(i, j)` of the product of two embedded
/// integer operators `E0 * E1`: the sum over `m < k` of `E0(i, m) * E1(m, j)`.
pub open spec fn product_prefix(
    b0: Seq<Vec<i64>>,
    o0: int,
    s0: int,
    b1: Seq<Vec<i64>>,
    o1: int,
    s1: int,
    i: int,
    j: int,
    k: int,
) -> int
    decreases k,
{
    if k <= 0 {
        0
    } else {
        product_prefix(b0, o0, s0, b1, o1, s1, i, j, k - 1) + int_entry(b0, o0, s0, i, k - 1)
            * int_entry(b1, o1, s1, k - 1, j)
    }
}

/// A sum whose terms vanish everywhere but at `m0` is that one term.
proof fn lemma_single_term(
    b0: Seq<Vec<i64>>,
    o0: int,
    s0: int,
    b1: Seq<Vec<i64>>,
    o1: int,
    s1: int,
    i: int,
    j: int,
    k: int,
    m0: int,
)
    requires
        forall|m: int|
            0 <= m < k && m != m0 ==> #[trigger] int_entry(b0, o0, s0, i, m) * int_entry(
                b1,
                o1,
                s1,
                m,
                j,
            ) == 0,
    ensures
        product_prefix(b0, o0, s0, b1, o1, s1, i, j, k) == if 0 <= m0 < k {
            int_entry(b0, o0, s0, i, m0) * int_entry(b1, o1, s1, m0, j)
        } else {
            0
        },
    decreases k,
{
    if k > 0 {
        lemma_single_term(b0, o0, s0, b1, o1, s1, i, j, k - 1, m0);
    }
}

/// Outside its block, an embedded operator is the identity.
proof fn lemma_outside_block(block: Seq<Vec<i64>>, offset: int, size: int, i: int, j: int)
    requires
        !(offset <= i < offset + size && offset <= j < offset + size),
    ensures
        int_entry(block, offset, size, i, j) == if i == j { 1int } else { 0int },
{
}

proof fn lemma_times(x: int, y: int)
    ensures
        y == 0 ==> x * y == 0,
        x == 0 ==> x * y == 0,
        y == 1 ==> x * y == x,
        x == 1 ==> x * y == y,
{
    assert(y == 0 ==> x * y == 0) by (nonlinear_arith);
    assert(x == 0 ==> x * y == 0) by (nonlinear_arith);
}

/// Two integer operators that warp disjoint subspaces commute: every entry
/// of `E0 * E1` equals the same entry of `E1 * E0`.
pub proof fn lemma_disjoint_subspace_operators_commute(
    b0: Seq<Vec<i64>>,
    o0: int,
    s0: int,
    b1: Seq<Vec<i64>>,
    o1: int,
    s1: int,
    n: int,
    i: int,
    j: int,
)
    requires
        0 <= o0,
        0 <= s0,
        0 <= o1,
        0 <= s1,
        o0 + s0 <= n,
        o1 + s1 <= n,
        o0 + s0 <= o1 || o1 + s1 <= o0,
        0 <= i < n,
        0 <= j < n,
    ensures
        product_prefix(b0, o0, s0, b1, o1, s1, i, j, n) == product_prefix(
            b1,
            o1,
            s1,
            b0,
            o0,
            s0,
            i,
            j,
            n,
        ),
{
    let in0 = o0 <= i < o0 + s0;
    let in1 = o1 <= i < o1 + s1;
    if !in0 && !in1 {
        // Row i of both operators is a row of the identity.
        assert forall|m: int| 0 <= m < n && m != i implies #[trigger] int_entry(b0, o0, s0, i, m)
            * int_entry(b1, o1, s1, m, j) == 0 by {
            lemma_outside_block(b0, o0, s0, i, m);
            lemma_times(int_entry(b0, o0, s0, i, m), int_entry(b1, o1, s1, m, j));
        }
        assert forall|m: int| 0 <= m < n && m != i implies #[trigger] int_entry(b1, o1, s1, i, m)
            * int_entry(b0, o0, s0, m, j) == 0 by {
            lemma_outside_block(b1, o1, s1, i, m);
            lemma_times(int_entry(b1, o1, s1, i, m), int_entry(b0, o0, s0, m, j));
        }
        lemma_single_term(b0, o0, s0, b1, o1, s1, i, j, n, i);
        lemma_single_term(b1, o1, s1, b0, o0, s0, i, j, n, i);
        lemma_outside_block(b0, o0, s0, i, i);
        lemma_outside_block(b1, o1, s1, i, i);
        lemma_outside_block(b0, o0, s0, i, j);
        lemma_outside_block(b1, o1, s1, i, j);
        lemma_times(int_entry(b0, o0, s0, i, i), int_entry(b1, o1, s1, i, j));
        lemma_times(int_entry(b1, o1, s1, i, i), int_entry(b0, o0, s0, i, j));
    } else if in0 {
        lemma_commute_in_first_block(b0, o0, s0, b1, o1, s1, n, i, j);
    } else {
        lemma_commute_in_first_block(b1, o1, s1, b0, o0, s0, n, i, j);
    }
}

/// The case of a row inside the block of the first operator.
proof fn lemma_commute_in_first_block(
    b0: Seq<Vec<i64>>,
    o0: int,
    s0: int,
    b1: Seq<Vec<i64>>,
    o1: int,
    s1: int,
    n: int,
    i: int,
    j: int,
)
    requires
        0 <= o0,
        0 <= s0,
        0 <= o1,
        0 <= s1,
        o0 + s0 <= n,
        o1 + s1 <= n,
        o0 + s0 <= o1 || o1 + s1 <= o0,
        o0 <= i < o0 + s0,
        0 <= j < n,
    ensures
        product_prefix(b0, o0, s0, b1, o1, s1, i, j, n) == product_prefix(
            b1,
            o1,
            s1,
            b0,
            o0,
            s0,
            i,
            j,
            n,
        ),
{
    // Row i of E1 is a row of the identity.
    assert forall|m: int| 0 <= m < n && m != i implies #[trigger] int_entry(b1, o1, s1, i, m)
        * int_entry(b0, o0, s0, m, j) == 0 by {
        lemma_outside_block(b1, o1, s1, i, m);
        lemma_times(int_entry(b1, o1, s1, i, m), int_entry(b0, o0, s0, m, j));
    }
    lemma_single_term(b1, o1, s1, b0, o0, s0, i, j, n, i);
    lemma_outside_block(b1, o1, s1, i, i);
    lemma_times(int_entry(b1, o1, s1, i, i), int_entry(b0, o0, s0, i, j));
    // E0 mixes row i only within its block, where E1 is the identity.
    assert forall|m: int| 0 <= m < n && m != j implies #[trigger] int_entry(b0, o0, s0, i, m)
        * int_entry(b1, o1, s1, m, j) == 0 by {
        if o0 <= m < o0 + s0 {
            lemma_outside_block(b1, o1, s1, m, j);
        } else {
            lemma_outside_block(b0, o0, s0, i, m);
        }
        lemma_times(int_entry(b0, o0, s0, i, m), int_entry(b1, o1, s1, m, j));
    }
    lemma_single_term(b0, o0, s0, b1, o1, s1, i, j, n, j);
    if o1 <= j < o1 + s1 {
        lemma_outside_block(b0, o0, s0, i, j);
    } else {
        lemma_outside_block(b1, o1, s1, j, j);
    }
    lemma_times(int_entry(b0, o0, s0, i, j), int_entry(b1, o1, s1, j, j));
}

/// The message that reports an unregistered transformation id.
pub open spec fn not_found_message(id: Seq<char>) -> Seq<char> {
    "Operator "@ + id + " not found"@
}

/// Every achronon of `batch` has its transformation id among `ids`.
pub open spec fn all_registered(ids: Set<Seq<char>>, batch: Seq<AchrononView>) -> bool {
    forall|i: int| 0 <= i < batch.len() ==> ids.contains(#[trigger] batch[i].transformation_id)
}

/// `k` is the first achronon of `batch` whose transformation id is not among
/// `ids`.
pub open spec fn first_unregistered(ids: Set<Seq<char>>, batch: Seq<AchrononView>, k: int) -> bool {
    &&& 0 <= k < batch.len()
    &&& !ids.contains(batch[k].transformation_id)
    &&& all_registered(ids, batch.take(k))
}

impl<T> OperatorTable<T> {
    /// The operator that `achronon` applies, or the message that none is
    /// registered under its transformation id.
    pub fn operator_for(&self, achronon: &Achronon) -> (r: Result<&T, String>)
        requires
            self.well_formed(),
        ensures
            match r {
                Ok(op) => self.map().contains_key(achronon@.transformation_id) && *op
                    == self.map()[achronon@.transformation_id],
                Err(msg) => !self.map().contains_key(achronon@.transformation_id) && msg@
                    == not_found_message(achronon@.transformation_id),
            },
    {
        match self.get(achronon.transformation_id.as_str()) {
            Some(op) => Ok(op),
            None => {
                let mut msg = String::from_str("Operator ");
                msg.append(achronon.transformation_id.as_str());
                msg.append(" not found");
                Err(msg)
            },
        }
    }

    /// The operators of the achronons of `batch`, in batch order, or the
    /// message for the first achronon whose operator is not registered.
    pub fn batch_operators<'a>(&'a self, batch: &[Achronon]) -> (r: Result<Vec<&'a T>, String>)
        requires
            self.well_formed(),
        ensures
            match r {
                Ok(ops) => {
                    &&& all_registered(self.map().dom(), views(batch@))
                    &&& ops@.len() == batch@.len()
                    &&& forall|i: int|
                        0 <= i < batch@.len() ==> *(#[trigger] ops@[i]) == self.map()[batch@[i]@.transformation_id]
                },
                Err(msg) => exists|k: int|
                    first_unregistered(self.map().dom(), views(batch@), k) && msg@ == not_found_message(
                        batch@[k]@.transformation_id,
                    ),
            },
    {
        let ghost b = views(batch@);
        let mut ops: Vec<&'a T> = Vec::new();
        let mut i: usize = 0;
        while i < batch.len()
            invariant
                self.well_formed(),
                b == views(batch@),
                i <= batch@.len(),
                ops@.len() == i,
                all_registered(self.map().dom(), b.take(i as int)),
                forall|k: int|
                    0 <= k < i ==> *(#[trigger] ops@[k]) == self.map()[batch@[k]@.transformation_id],
            decreases batch.len() - i,
        {
            assert(b[i as int] == batch@[i as int]@);
            match self.operator_for(&batch[i]) {
                Ok(op) => {
                    ops.push(op);
                    assert(all_registered(self.map().dom(), b.take(i + 1))) by {
                        assert forall|k: int| 0 <= k < i + 1 implies self.map().dom().contains(
                            #[trigger] b.take(i + 1)[k].transformation_id,
                        ) by {
                            if k < i {
                                assert(b.take(i + 1)[k] == b.take(i as int)[k]);
                            }
                        }
                    }
                },
                Err(msg) => {
                    assert(first_unregistered(self.map().dom(), b, i as int));
                    return Err(msg);
                },
            }
            i += 1;
        }
        assert(b.take(batch@.len() as int) == b);
        Ok(ops)
    }
}

} // verus!
