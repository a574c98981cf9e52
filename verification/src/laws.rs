//! Laws that say what the operations of the lattice are for, stated over the
//! fields of the achronons, the registry and the requests themselves.

use crate::achronon::AchrononView;
use crate::context::{potentiality_section, precipitated, precipitated_pred, precipitated_section, prompt_text};
use crate::registry::eligible;
use crate::response::{
    clean_json, first_occurrence, is_first_occurrence, lemma_first_unique, occurs_at, split_first,
    template_view, AchrononTemplate,
};
use crate::narrative::bound_to_agent;
use crate::sandbox::{injected, max_id, subspace_transformation, InjectRequest};
use crate::text::decimal;
use crate::topology::{
    batch_ids, batch_orthogonal, causally_independent, eligible_batch, pending_pred,
    subspaces_distinct,
};
use vstd::prelude::*;

verus! {

/// The P_a ⊆ R rule: an achronon is eligible exactly when each of its
/// antecedents has precipitated.
pub proof fn law_eligible_iff_antecedents_precipitated(reg: Set<u32>, a: AchrononView)
    ensures
        eligible(reg, a) <==> (forall|x: u32| a.antecedents.contains(x) ==> reg.contains(x)),
{
}

/// Eligibility depends on the antecedents alone: two achronons with the same
/// antecedents are eligible under the same registries, whatever their ids,
/// orthogonals, transformations, contents and subspaces.
pub proof fn law_eligibility_depends_only_on_antecedents(
    reg: Set<u32>,
    a: AchrononView,
    b: AchrononView,
)
    requires
        a.antecedents == b.antecedents,
    ensures
        eligible(reg, a) == eligible(reg, b),
{
}

/// The next batch of an empty continuum is empty.
pub proof fn law_batch_of_empty_continuum(reg: Set<u32>)
    ensures
        eligible_batch(Seq::<AchrononView>::empty(), reg) == Seq::<AchrononView>::empty(),
{
    reveal(Seq::filter);
}

/// Appending an achronon to the continuum appends it to the next batch
/// exactly when it has not precipitated and all of its antecedents have; the
/// rest of the batch is unchanged. So the batch is the pending eligible
/// achronons, in continuum order.
pub proof fn law_batch_follows_continuum_order(aion: Seq<AchrononView>, reg: Set<u32>, a: AchrononView)
    ensures
        eligible_batch(aion.push(a), reg) == if !reg.contains(a.id) && (forall|x: u32|
            a.antecedents.contains(x) ==> reg.contains(x)) {
            eligible_batch(aion, reg).push(a)
        } else {
            eligible_batch(aion, reg)
        },
{
    aion.lemma_filter_push(a, pending_pred(reg));
}

/// A batch is orthogonal exactly when no achronon of it has an antecedent
/// among the ids of the batch, and no two achronons at different positions
/// warp the same subspace, whatever their antecedents.
pub proof fn law_orthogonal_iff_no_dependency_and_no_contention(b: Seq<AchrononView>)
    ensures
        batch_orthogonal(b) <==> {
            &&& forall|i: int, j: int|
                #![trigger b[i], b[j]]
                0 <= i < b.len() && 0 <= j < b.len() ==> !b[i].antecedents.contains(b[j].id)
            &&& forall|i: int, j: int|
                #![trigger b[i], b[j]]
                0 <= i < b.len() && 0 <= j < b.len() && i != j && b[i].affected_subspace is Some
                    ==> b[i].affected_subspace != b[j].affected_subspace
        },
{
    let no_dep = forall|i: int, j: int|
        #![trigger b[i], b[j]]
        0 <= i < b.len() && 0 <= j < b.len() ==> !b[i].antecedents.contains(b[j].id);
    let no_share = forall|i: int, j: int|
        #![trigger b[i], b[j]]
        0 <= i < b.len() && 0 <= j < b.len() && i != j && b[i].affected_subspace is Some
            ==> b[i].affected_subspace != b[j].affected_subspace;
    if batch_orthogonal(b) {
        assert forall|i: int, j: int|
            #![trigger b[i], b[j]]
            0 <= i < b.len() && 0 <= j < b.len() implies !b[i].antecedents.contains(b[j].id) by {
            assert(b[i].antecedents.disjoint(batch_ids(b)));
            assert(batch_ids(b).contains(b[j].id));
        }
        assert forall|i: int, j: int|
            #![trigger b[i], b[j]]
            0 <= i < b.len() && 0 <= j < b.len() && i != j && b[i].affected_subspace is Some
                implies b[i].affected_subspace != b[j].affected_subspace by {
            if i < j {
                assert(b[j].affected_subspace != b[i].affected_subspace);
            } else {
                if b[j].affected_subspace == b[i].affected_subspace {
                    assert(b[j].affected_subspace is Some);
                }
            }
        }
    }
    if no_dep && no_share {
        assert forall|i: int| 0 <= i < b.len() implies (#[trigger] b[i]).antecedents.disjoint(
            batch_ids(b),
        ) by {
            assert forall|x: u32| b[i].antecedents.contains(x) implies !batch_ids(b).contains(x) by {
                if batch_ids(b).contains(x) {
                    let j = choose|j: int| 0 <= j < b.len() && b[j].id == x;
                    assert(!b[i].antecedents.contains(b[j].id));
                }
            }
        }
        assert(causally_independent(b));
        assert forall|i: int, j: int|
            0 <= i < j < b.len() && (#[trigger] b[i]).affected_subspace is Some implies (
            #[trigger] b[j]).affected_subspace != b[i].affected_subspace by {
            assert(i != j);
        }
        assert(subspaces_distinct(b));
    }
}

/// Two achronons at different positions of a batch that warp the same
/// subspace make it not orthogonal, whatever their antecedents.
pub proof fn law_shared_subspace_breaks_orthogonality(b: Seq<AchrononView>, i: int, j: int)
    requires
        0 <= i < b.len(),
        0 <= j < b.len(),
        i != j,
        b[i].affected_subspace is Some,
        b[i].affected_subspace == b[j].affected_subspace,
    ensures
        !batch_orthogonal(b),
{
    law_orthogonal_iff_no_dependency_and_no_contention(b);
}

/// An achronon with an antecedent in its own batch makes the batch not
/// orthogonal.
pub proof fn law_dependency_breaks_orthogonality(b: Seq<AchrononView>, i: int, j: int)
    requires
        0 <= i < b.len(),
        0 <= j < b.len(),
        b[i].antecedents.contains(b[j].id),
    ensures
        !batch_orthogonal(b),
{
    law_orthogonal_iff_no_dependency_and_no_contention(b);
}

/// Whether some achronon of the continuum has its id in the registry.
pub open spec fn any_precipitated(aion: Seq<AchrononView>, reg: Set<u32>) -> bool {
    exists|i: int| 0 <= i < aion.len() && reg.contains(#[trigger] aion[i].id)
}

/// Whether some achronon of the continuum has not precipitated and has all
/// of its antecedents precipitated.
pub open spec fn any_pending_eligible(aion: Seq<AchrononView>, reg: Set<u32>) -> bool {
    exists|i: int|
        0 <= i < aion.len() && !reg.contains(#[trigger] aion[i].id) && (forall|x: u32|
            aion[i].antecedents.contains(x) ==> reg.contains(x))
}

proof fn lemma_precipitated_empty(aion: Seq<AchrononView>, reg: Set<u32>)
    ensures
        (precipitated(aion, reg).len() == 0) <==> !any_precipitated(aion, reg),
{
    broadcast use vstd::seq_lib::group_filter_ensures;
    let p = precipitated_pred(reg);
    if any_precipitated(aion, reg) {
        let i = choose|i: int| 0 <= i < aion.len() && reg.contains(#[trigger] aion[i].id);
        aion.lemma_filter_contains(p, i);
    }
    if precipitated(aion, reg).len() > 0 {
        aion.lemma_filter_pred(p, 0);
        aion.lemma_filter_contains_rev(p, aion.filter(p)[0]);
        let i = choose|i: int| 0 <= i < aion.len() && aion[i] == aion.filter(p)[0];
        assert(reg.contains(aion[i].id));
    }
}

proof fn lemma_pending_empty(aion: Seq<AchrononView>, reg: Set<u32>)
    ensures
        (eligible_batch(aion, reg).len() == 0) <==> !any_pending_eligible(aion, reg),
{
    broadcast use vstd::seq_lib::group_filter_ensures;
    let p = pending_pred(reg);
    if any_pending_eligible(aion, reg) {
        let i = choose|i: int|
            0 <= i < aion.len() && !reg.contains(#[trigger] aion[i].id) && (forall|x: u32|
                aion[i].antecedents.contains(x) ==> reg.contains(x));
        assert(p(aion[i]));
        aion.lemma_filter_contains(p, i);
    }
    if eligible_batch(aion, reg).len() > 0 {
        aion.lemma_filter_pred(p, 0);
        aion.lemma_filter_contains_rev(p, aion.filter(p)[0]);
        let i = choose|i: int| 0 <= i < aion.len() && aion[i] == aion.filter(p)[0];
        assert(p(aion[i]));
        assert(!reg.contains(aion[i].id));
    }
}

/// The prompt is the state heading, the precipitated section, the
/// potentiality heading and the potentiality section, in that order.
pub proof fn law_prompt_layout(aion: Seq<AchrononView>, reg: Set<u32>)
    ensures
        prompt_text(aion, reg) == "### Acausal Lattice State\n\n"@
            + "The following events have precipitated from the Aion into reality:\n\n"@
            + precipitated_section(aion, reg) + "\n### Current Potentiality\n\n"@
            + "The following events are eligible for precipitation:\n\n"@ + potentiality_section(
            aion,
            reg,
        ),
{
}

/// When nothing of the continuum has precipitated, the precipitated section
/// says so; otherwise it lists every precipitated achronon, one line
/// `- [id] content` each, in continuum order: appending an achronon to the
/// continuum appends its line when it has precipitated, and changes nothing
/// when it has not.
pub proof fn law_precipitated_section_lists_every_precipitated(
    aion: Seq<AchrononView>,
    reg: Set<u32>,
    a: AchrononView,
)
    ensures
        !any_precipitated(aion, reg) ==> precipitated_section(aion, reg)
            == "- No events have precipitated yet.\n"@,
        precipitated_section(aion.push(a), reg) == if !reg.contains(a.id) {
            precipitated_section(aion, reg)
        } else if any_precipitated(aion, reg) {
            precipitated_section(aion, reg) + ("- ["@ + decimal(a.id as nat) + "] "@ + a.content
                + "\n"@)
        } else {
            "- ["@ + decimal(a.id as nat) + "] "@ + a.content + "\n"@
        },
{
    let p = precipitated_pred(reg);
    lemma_precipitated_empty(aion, reg);
    lemma_precipitated_empty(aion.push(a), reg);
    aion.lemma_filter_push(a, p);
    let f = |x: AchrononView| crate::context::precipitated_line(x);
    if reg.contains(a.id) {
        let s = aion.filter(p);
        assert(s.push(a).drop_last() == s);
        if !any_precipitated(aion, reg) {
            assert(s.len() == 0);
            assert(crate::context::lines(s, f) == Seq::<char>::empty());
            assert(crate::context::lines(s.push(a), f) =~= f(a));
        }
    } else {
        if any_precipitated(aion.push(a), reg) {
            let i = choose|i: int| 0 <= i < aion.push(a).len() && reg.contains(
                #[trigger] aion.push(a)[i].id,
            );
            assert(aion.push(a)[i] == aion[i]);
        }
    }
}

/// When nothing is pending and eligible, the potentiality section says so;
/// otherwise it lists every pending eligible achronon, one line
/// `- [id] (Eligible) content` each, in continuum order.
pub proof fn law_potentiality_section_lists_every_eligible(
    aion: Seq<AchrononView>,
    reg: Set<u32>,
    a: AchrononView,
)
    ensures
        !any_pending_eligible(aion, reg) ==> potentiality_section(aion, reg)
            == "- None (System has reached a terminal state or is blocked).\n"@,
        potentiality_section(aion.push(a), reg) == if !(!reg.contains(a.id) && (forall|x: u32|
            a.antecedents.contains(x) ==> reg.contains(x))) {
            potentiality_section(aion, reg)
        } else if any_pending_eligible(aion, reg) {
            potentiality_section(aion, reg) + ("- ["@ + decimal(a.id as nat) + "] (Eligible) "@
                + a.content + "\n"@)
        } else {
            "- ["@ + decimal(a.id as nat) + "] (Eligible) "@ + a.content + "\n"@
        },
{
    let p = pending_pred(reg);
    lemma_pending_empty(aion, reg);
    lemma_pending_empty(aion.push(a), reg);
    aion.lemma_filter_push(a, p);
    let f = |x: AchrononView| crate::context::eligible_line(x);
    let keep = !reg.contains(a.id) && (forall|x: u32| a.antecedents.contains(x) ==> reg.contains(x));
    assert(p(a) == keep);
    if keep {
        let s = aion.filter(p);
        assert(s.push(a).drop_last() == s);
        if !any_pending_eligible(aion, reg) {
            assert(s.len() == 0);
            assert(crate::context::lines(s, f) == Seq::<char>::empty());
            assert(crate::context::lines(s.push(a), f) =~= f(a));
        }
    } else {
        if any_pending_eligible(aion.push(a), reg) {
            let i = choose|i: int|
                0 <= i < aion.push(a).len() && !reg.contains(#[trigger] aion.push(a)[i].id) && (
                forall|x: u32| aion.push(a)[i].antecedents.contains(x) ==> reg.contains(x));
            assert(aion.push(a)[i] == aion[i]);
        }
    }
}

/// The number that a sequence of decimal digits spells.
pub open spec fn digits_value(s: Seq<char>) -> int
    decreases s.len(),
{
    if s.len() == 0 {
        0
    } else {
        digits_value(s.drop_last()) * 10 + (s.last() as int - '0' as int)
    }
}

/// An id is written in decimal: a non-empty string of digits, without a
/// leading zero unless the number is 0, that spells the number.
pub proof fn law_decimal_spells_the_number(n: nat)
    ensures
        decimal(n).len() >= 1,
        forall|i: int| 0 <= i < decimal(n).len() ==> '0' as int <= #[trigger] decimal(n)[i] as int <= '9' as int,
        digits_value(decimal(n)) == n,
        decimal(n)[0] == '0' ==> n == 0,
    decreases n,
{
    let s = decimal(n);
    let d = (n % 10) as nat;
    assert(crate::text::digit_char(d) as int - '0' as int == d) by {
        assert(d < 10);
    }
    if n >= 10 {
        law_decimal_spells_the_number(n / 10);
        assert(s == decimal(n / 10) + seq![crate::text::digit_char(d)]);
        assert(s.drop_last() =~= decimal(n / 10));
        assert(s.last() == crate::text::digit_char(d));
        assert(s[0] == decimal(n / 10)[0]);
        assert(digits_value(s) == digits_value(decimal(n / 10)) * 10 + d);
        assert(n == (n / 10) * 10 + d);
        assert(digits_value(s) == n);
        assert forall|i: int| 0 <= i < s.len() implies '0' as int <= #[trigger] s[i] as int <= '9' as int by {
            if i < s.len() - 1 {
                assert(s[i] == decimal(n / 10)[i]);
            }
        }
    } else {
        assert(s == seq![crate::text::digit_char(n)]);
        assert(s.drop_last() =~= Seq::<char>::empty());
        assert(digits_value(s.drop_last()) == 0);
        assert(s.last() == crate::text::digit_char(n));
        assert(d == n);
        assert(digits_value(s) == n);
    }
}

/// The largest id of a non-empty continuum is one of its ids.
proof fn lemma_max_id_attained(aion: Seq<AchrononView>)
    requires
        aion.len() > 0,
    ensures
        exists|i: int| 0 <= i < aion.len() && aion[i].id == max_id(aion),
    decreases aion.len(),
{
    let last = aion.len() - 1;
    assert(aion[last] == aion.last());
    if aion.len() > 1 {
        lemma_max_id_attained(aion.drop_last());
        let i = choose|i: int| 0 <= i < aion.drop_last().len() && aion.drop_last()[i].id == max_id(
            aion.drop_last(),
        );
        assert(aion[i] == aion.drop_last()[i]);
        if aion.last().id > max_id(aion.drop_last()) {
            assert(aion[last].id == max_id(aion));
        } else {
            assert(aion[i].id == max_id(aion));
        }
    } else {
        assert(aion.drop_last().len() == 0);
        assert(max_id(aion.drop_last()) == 0);
        assert(aion[last].id == max_id(aion));
    }
}

/// An injection adds what was asked: its content, its antecedents (as a
/// set), its subspace, no orthogonals, the rotation of the requested
/// subspace (the identity for any other), and the next free id: one more
/// than the largest id of the continuum, 1 when it is empty.
pub proof fn law_injection_keeps_the_request(aion: Seq<AchrononView>, req: InjectRequest)
    requires
        max_id(aion) < u32::MAX,
    ensures
        injected(aion, req).content == req.content@,
        injected(aion, req).affected_subspace == req.affected_subspace,
        forall|x: u32| injected(aion, req).antecedents.contains(x) <==> req.antecedents@.contains(x),
        injected(aion, req).orthogonals == Set::<u32>::empty(),
        req.affected_subspace == Some(0usize) ==> injected(aion, req).transformation_id == "rot0"@,
        req.affected_subspace == Some(1usize) ==> injected(aion, req).transformation_id == "rot1"@,
        req.affected_subspace != Some(0usize) && req.affected_subspace != Some(1usize)
            ==> injected(aion, req).transformation_id == "identity"@,
        forall|i: int| 0 <= i < aion.len() ==> (#[trigger] aion[i]).id < injected(aion, req).id,
        aion.len() == 0 ==> injected(aion, req).id == 1,
        aion.len() > 0 ==> exists|i: int|
            0 <= i < aion.len() && aion[i].id + 1 == injected(aion, req).id,
{
    crate::sandbox::lemma_injected_id_is_fresh(aion, req);
    if aion.len() > 0 {
        lemma_max_id_attained(aion);
    }
}

/// A proposed template becomes the achronon it describes: the same id,
/// transformation, content and subspace, and as antecedents and orthogonals
/// exactly the ids that its two lists hold.
pub proof fn law_template_keeps_every_field(t: AchrononTemplate)
    ensures
        template_view(t).id == t.id,
        forall|x: u32| template_view(t).antecedents.contains(x) <==> t.antecedents@.contains(x),
        forall|x: u32| template_view(t).orthogonals.contains(x) <==> t.orthogonals@.contains(x),
        template_view(t).transformation_id == t.transformation_id@,
        template_view(t).content == t.content@,
        template_view(t).affected_subspace == t.affected_subspace,
{
}

/// `s` holds no backtick.
pub open spec fn no_backtick(s: Seq<char>) -> bool {
    forall|i: int| 0 <= i < s.len() ==> s[i] != '`'
}

/// A pattern that starts with a backtick does not occur in a text without
/// one.
proof fn lemma_no_fence(s: Seq<char>, pat: Seq<char>)
    requires
        no_backtick(s),
        pat.len() > 0,
        pat[0] == '`',
    ensures
        first_occurrence(s, pat) is None,
        forall|j: int| !occurs_at(s, pat, j),
{
    assert forall|j: int| !occurs_at(s, pat, j) by {
        if occurs_at(s, pat, j) {
            assert(s.subrange(j, j + pat.len())[0] == s[j]);
        }
    }
}

/// A reply without any backtick is taken whole as the JSON.
pub proof fn law_clean_json_keeps_unfenced_text(text: Seq<char>)
    requires
        no_backtick(text),
    ensures
        clean_json(text) == text,
{
    reveal_strlit("```json");
    reveal_strlit("```");
    lemma_no_fence(text, "```json"@);
    lemma_no_fence(text, "```"@);
}

/// A reply that holds one block fenced as JSON gives exactly the text inside
/// the fence, whatever stands before and after it.
pub proof fn law_clean_json_takes_the_json_block(
    before: Seq<char>,
    body: Seq<char>,
    after: Seq<char>,
)
    requires
        no_backtick(before),
        no_backtick(body),
        no_backtick(after),
    ensures
        clean_json(before + "```json"@ + body + "```"@ + after) == body,
{
    reveal_strlit("```json");
    reveal_strlit("```");
    let jf = "```json"@;
    let ff = "```"@;
    let t = before + jf + body + ff + after;
    let a = before.len() as int;
    let b = body.len() as int;
    // The JSON fence first occurs right after `before`.
    assert(t.subrange(a, a + 7) =~= jf);
    assert forall|j: int| 0 <= j < a implies !occurs_at(t, jf, j) by {
        assert(t[j] == before[j]);
        if occurs_at(t, jf, j) {
            assert(t.subrange(j, j + 7)[0] == t[j]);
        }
    }
    assert(is_first_occurrence(t, jf, a));
    lemma_first_unique(t, jf, a);
    assert(first_occurrence(t, jf) is Some);
    let rest = t.subrange(a + 7, t.len() as int);
    assert(rest =~= body + ff + after);
    // Within the rest, the JSON fence can only start where the closing fence is.
    let piece = split_first(rest, jf);
    assert(piece.len() >= b && piece.subrange(0, b) == body && (piece.len() == b || (piece.len()
        >= b + 3 && piece.subrange(b, b + 3) == ff))) by {
        assert forall|j: int| 0 <= j < rest.len() && j != b implies !occurs_at(rest, jf, j) by {
            if occurs_at(rest, jf, j) {
                let w = rest.subrange(j, j + 7);
                assert(w[0] == rest[j] && w[1] == rest[j + 1] && w[2] == rest[j + 2]);
                if j < b {
                    assert(rest[j] == body[j]);
                } else if j == b + 1 {
                    assert(rest[j + 2] == after[0]);
                } else if j == b + 2 {
                    assert(rest[j] == after[0]);
                } else {
                    assert(rest[j] == after[j - b - 3]);
                }
            }
        }
        match first_occurrence(rest, jf) {
            Some(k) => {
                let k2 = choose|i: int| is_first_occurrence(rest, jf, i);
                assert(is_first_occurrence(rest, jf, k2));
                assert(k2 == b);
                assert(piece =~= rest.subrange(0, b));
                assert(piece =~= body);
            },
            None => {
                assert(piece == rest);
                assert(rest.subrange(0, b) =~= body);
                assert(rest.subrange(b, b + 3) =~= ff);
            },
        }
    }
    // And the plain fence first occurs at the end of the body, if at all.
    if piece.len() == b {
        assert(piece =~= body);
        lemma_no_fence(body, ff);
    } else {
        assert(occurs_at(piece, ff, b));
        assert forall|j: int| 0 <= j < b implies !occurs_at(piece, ff, j) by {
            assert(piece[j] == piece.subrange(0, b)[j]);
            if occurs_at(piece, ff, j) {
                assert(piece.subrange(j, j + 3)[0] == piece[j]);
            }
        }
        lemma_first_unique(piece, ff, b);
    }
}

/// Binding an achronon to an agent of the narrative keeps its id,
/// antecedents and orthogonals, puts it in the Smuggler's subspace 0 or the
/// other agent's subspace 1 with the rotation an injection into that subspace
/// would get, and prefixes its content with the agent's name in parentheses.
pub proof fn law_binding_keeps_the_event(a: AchrononView, agent: Seq<char>)
    ensures
        bound_to_agent(a, agent).id == a.id,
        bound_to_agent(a, agent).antecedents == a.antecedents,
        bound_to_agent(a, agent).orthogonals == a.orthogonals,
        bound_to_agent(a, agent).affected_subspace == if agent == "Smuggler"@ {
            Some(0usize)
        } else {
            Some(1usize)
        },
        bound_to_agent(a, agent).transformation_id == subspace_transformation(
            bound_to_agent(a, agent).affected_subspace,
        ),
        bound_to_agent(a, agent).content == "("@ + agent + ") "@ + a.content,
{
}

} // verus!
