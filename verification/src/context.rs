//! The cognitive context engine: the lattice rendered as a text prompt.

use crate::achronon::{views, Achronon, AchrononView};
use crate::bitmap::bitmap_contains;
use crate::registry::PrecipitationRegistry;
use crate::text::{decimal, push_decimal};
use crate::topology::{eligible_batch, pending_pred};
use vstd::prelude::*;

verus! {

/// `reg` holds the id of the achronon, as a predicate.
pub open spec fn precipitated_pred(reg: Set<u32>) -> spec_fn(AchrononView) -> bool {
    |a: AchrononView| reg.contains(a.id)
}

/// The achronons of `aion` that have precipitated, in their order.
pub open spec fn precipitated(aion: Seq<AchrononView>, reg: Set<u32>) -> Seq<AchrononView> {
    aion.filter(precipitated_pred(reg))
}

/// The line that lists a precipitated achronon.
pub open spec fn precipitated_line(a: AchrononView) -> Seq<char> {
    "- ["@ + decimal(a.id as nat) + "] "@ + a.content + "\n"@
}

/// The line that lists an eligible achronon.
pub open spec fn eligible_line(a: AchrononView) -> Seq<char> {
    "- ["@ + decimal(a.id as nat) + "] (Eligible) "@ + a.content + "\n"@
}

/// The lines of `s`, one per achronon, in order.
pub open spec fn lines(s: Seq<AchrononView>, line: spec_fn(AchrononView) -> Seq<char>) -> Seq<char>
    decreases s.len(),
{
    if s.len() == 0 {
        Seq::empty()
    } else {
        lines(s.drop_last(), line) + line(s.last())
    }
}

/// The section that lists the precipitated achronons.
pub open spec fn precipitated_section(aion: Seq<AchrononView>, reg: Set<u32>) -> Seq<char> {
    if precipitated(aion, reg).len() == 0 {
        "- No events have precipitated yet.\n"@
    } else {
        lines(precipitated(aion, reg), |a: AchrononView| precipitated_line(a))
    }
}

/// The section that lists the achronons eligible for precipitation.
pub open spec fn potentiality_section(aion: Seq<AchrononView>, reg: Set<u32>) -> Seq<char> {
    if eligible_batch(aion, reg).len() == 0 {
        "- None (System has reached a terminal state or is blocked).\n"@
    } else {
        lines(eligible_batch(aion, reg), |a: AchrononView| eligible_line(a))
    }
}

/// The whole prompt: the precipitated achronons, then the eligible ones,
/// each under its heading.
pub open spec fn prompt_text(aion: Seq<AchrononView>, reg: Set<u32>) -> Seq<char> {
    "### Acausal Lattice State\n\n"@
        + "The following events have precipitated from the Aion into reality:\n\n"@
        + precipitated_section(aion, reg)
        + "\n### Current Potentiality\n\n"@
        + "The following events are eligible for precipitation:\n\n"@
        + potentiality_section(aion, reg)
}

proof fn lemma_lines_push(
    s: Seq<AchrononView>,
    x: AchrononView,
    line: spec_fn(AchrononView) -> Seq<char>,
)
    ensures
        lines(s.push(x), line) == lines(s, line) + line(x),
{
    assert(s.push(x).drop_last() == s);
}

/// The prompt sorts by status: no achronon listed as precipitated shares its
/// id with one listed as eligible.
pub proof fn lemma_sections_disjoint(aion: Seq<AchrononView>, reg: Set<u32>)
    ensures
        forall|i: int, j: int|
            0 <= i < precipitated(aion, reg).len() && 0 <= j < eligible_batch(aion, reg).len()
                ==> (#[trigger] precipitated(aion, reg)[i]).id != (#[trigger] eligible_batch(
                aion,
                reg,
            )[j]).id,
{
    assert forall|i: int, j: int|
        0 <= i < precipitated(aion, reg).len() && 0 <= j < eligible_batch(aion, reg).len()
            implies (#[trigger] precipitated(aion, reg)[i]).id != (#[trigger] eligible_batch(
            aion,
            reg,
        )[j]).id by {
        aion.lemma_filter_pred(precipitated_pred(reg), i);
        aion.lemma_filter_pred(pending_pred(reg), j);
    }
}

/// The line that says nothing is eligible.
pub open spec fn none_eligible_line() -> Seq<char> {
    "- None (System has reached a terminal state or is blocked).\n"@
}

/// What the prompt lists as potential for a batch: one eligible line per
/// achronon of the batch, in order, or the none line when the batch is empty.
pub open spec fn potentiality_text(batch: Seq<AchrononView>) -> Seq<char> {
    if batch.len() == 0 {
        none_eligible_line()
    } else {
        lines(batch, |a: AchrononView| eligible_line(a))
    }
}

/// The prompt up to its list of potential achronons.
pub open spec fn prompt_head(aion: Seq<AchrononView>, reg: Set<u32>) -> Seq<char> {
    "### Acausal Lattice State\n\n"@
        + "The following events have precipitated from the Aion into reality:\n\n"@
        + precipitated_section(aion, reg)
        + "\n### Current Potentiality\n\n"@
        + "The following events are eligible for precipitation:\n\n"@
}

proof fn lemma_eligible_lines_start(s: Seq<AchrononView>)
    requires
        s.len() > 0,
    ensures
        lines(s, |a: AchrononView| eligible_line(a)).len() >= 3,
        lines(s, |a: AchrononView| eligible_line(a))[2] == '[',
    decreases s.len(),
{
    reveal_strlit("- [");
    let f = |a: AchrononView| eligible_line(a);
    assert(f(s.last()) == eligible_line(s.last()));
    assert(eligible_line(s.last())[2] == '[');
    assert(lines(s, f) == lines(s.drop_last(), f) + f(s.last()));
    if s.drop_last().len() > 0 {
        lemma_eligible_lines_start(s.drop_last());
        assert((lines(s.drop_last(), f) + f(s.last()))[2] == lines(s.drop_last(), f)[2]);
    } else {
        assert(lines(s.drop_last(), f) == Seq::<char>::empty());
        assert(lines(s, f) =~= f(s.last()));
    }
}

/// The context engine and the topology engine agree on eligibility: the
/// prompt's potential section lists exactly the next batch, one eligible
/// line per achronon in batch order, and it shows the none line exactly when
/// the batch is empty.
pub proof fn lemma_prompt_lists_next_batch(
    aion: Seq<AchrononView>,
    reg: Set<u32>,
    batch: Seq<AchrononView>,
)
    requires
        batch == eligible_batch(aion, reg),
    ensures
        prompt_text(aion, reg) == prompt_head(aion, reg) + potentiality_text(batch),
        (potentiality_text(batch) == none_eligible_line()) <==> batch.len() == 0,
{
    assert(prompt_text(aion, reg) =~= prompt_head(aion, reg) + potentiality_text(batch));
    if batch.len() > 0 {
        lemma_eligible_lines_start(batch);
        reveal_strlit("- None (System has reached a terminal state or is blocked).\n");
        assert(none_eligible_line()[2] == 'N');
    }
}

/// Renders the lattice as a prompt for a language model.
pub struct CognitiveContextEngine {
    /// The global set of all potential achronons.
    pub aion: Vec<Achronon>,
}

impl CognitiveContextEngine {
    pub fn new(aion: Vec<Achronon>) -> (r: Self)
        ensures
            r.aion@ == aion@,
    {
        CognitiveContextEngine { aion }
    }

    /// The lines of the precipitated achronons and how many there are.
    fn precipitated_lines(&self, registry: &PrecipitationRegistry) -> (r: (String, usize))
        ensures
            r.0@ == lines(precipitated(views(self.aion@), registry@), |a: AchrononView| precipitated_line(a)),
            r.1 == precipitated(views(self.aion@), registry@).len(),
    {
        let ghost all = views(self.aion@);
        let ghost p = precipitated_pred(registry@);
        let ghost f = |a: AchrononView| precipitated_line(a);
        let mut out = String::new();
        let mut count: usize = 0;
        let n = self.aion.len();
        let mut i: usize = 0;
        while i < n
            invariant
                n == self.aion.len(),
                all == views(self.aion@),
                p == precipitated_pred(registry@),
                f == (|a: AchrononView| precipitated_line(a)),
                i <= n,
                out@ == lines(all.take(i as int).filter(p), f),
                count == all.take(i as int).filter(p).len(),
                count <= i,
            decreases n - i,
        {
            let a = &self.aion[i];
            proof {
                assert(all[i as int] == a@);
                assert(all.take(i + 1) == all.take(i as int).push(a@));
                all.take(i as int).lemma_filter_push(a@, p);
            }
            if bitmap_contains(&registry.bits, a.id) {
                out.append("- [");
                push_decimal(&mut out, a.id);
                out.append("] ");
                out.append(a.content.as_str());
                out.append("\n");
                proof {
                    lemma_lines_push(all.take(i as int).filter(p), a@, f);
                    assert(out@ == lines(all.take(i + 1).filter(p), f));
                }
                count += 1;
            }
            i += 1;
        }
        proof {
            assert(all.take(n as int) == all);
        }
        (out, count)
    }

    /// The lines of the eligible achronons and how many there are.
    fn eligible_lines(&self, registry: &PrecipitationRegistry) -> (r: (String, usize))
        ensures
            r.0@ == lines(eligible_batch(views(self.aion@), registry@), |a: AchrononView| eligible_line(a)),
            r.1 == eligible_batch(views(self.aion@), registry@).len(),
    {
        let ghost all = views(self.aion@);
        let ghost p = pending_pred(registry@);
        let ghost f = |a: AchrononView| eligible_line(a);
        let mut out = String::new();
        let mut count: usize = 0;
        let n = self.aion.len();
        let mut i: usize = 0;
        while i < n
            invariant
                n == self.aion.len(),
                all == views(self.aion@),
                p == pending_pred(registry@),
                f == (|a: AchrononView| eligible_line(a)),
                i <= n,
                out@ == lines(all.take(i as int).filter(p), f),
                count == all.take(i as int).filter(p).len(),
                count <= i,
            decreases n - i,
        {
            let a = &self.aion[i];
            proof {
                assert(all[i as int] == a@);
                assert(all.take(i + 1) == all.take(i as int).push(a@));
                all.take(i as int).lemma_filter_push(a@, p);
            }
            if !bitmap_contains(&registry.bits, a.id) && registry.is_eligible(a) {
                out.append("- [");
                push_decimal(&mut out, a.id);
                out.append("] (Eligible) ");
                out.append(a.content.as_str());
                out.append("\n");
                proof {
                    lemma_lines_push(all.take(i as int).filter(p), a@, f);
                    assert(out@ == lines(all.take(i + 1).filter(p), f));
                }
                count += 1;
            }
            i += 1;
        }
        proof {
            assert(all.take(n as int) == all);
        }
        (out, count)
    }

    /// Flattens the current state of the lattice into a prompt: the
    /// precipitated achronons, then those eligible to precipitate, grouped by
    /// status rather than ordered in time.
    pub fn flatten_to_prompt(&self, registry: &PrecipitationRegistry) -> (prompt: String)
        ensures
            prompt@ == prompt_text(views(self.aion@), registry@),
    {
        let mut prompt = String::new();
        prompt.append("### Acausal Lattice State\n\n");
        prompt.append("The following events have precipitated from the Aion into reality:\n\n");
        let (precipitated_text, n_precipitated) = self.precipitated_lines(registry);
        if n_precipitated == 0 {
            prompt.append("- No events have precipitated yet.\n");
        } else {
            prompt.append(precipitated_text.as_str());
        }
        prompt.append("\n### Current Potentiality\n\n");
        prompt.append("The following events are eligible for precipitation:\n\n");
        let (eligible_text, n_eligible) = self.eligible_lines(registry);
        if n_eligible == 0 {
            prompt.append("- None (System has reached a terminal state or is blocked).\n");
        } else {
            prompt.append(eligible_text.as_str());
        }
        prompt
    }
}

} // verus!
