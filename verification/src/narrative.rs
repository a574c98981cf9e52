//! The two-storyline narrative: a shared seed, a convergence that waits for
//! both storylines, and the rule that binds each agent to its subspace.

use crate::achronon::{views, Achronon, AchrononView};
use crate::bitmap::{bitmap_insert, bitmap_members, bitmap_new};
use vstd::prelude::*;

verus! {

/// The shared seed of both storylines.
pub open spec fn transmission_seed() -> AchrononView {
    AchrononView {
        id: 1,
        antecedents: Set::empty(),
        orthogonals: Set::empty(),
        transformation_id: "identity"@,
        content: "SEED: A mysterious encrypted transmission is broadcast across the galaxy, pointing to a hidden data core."@,
        affected_subspace: None,
    }
}

/// The convergence, planted ahead of time: it waits for achronons 5 and 6 and
/// warps the whole lattice.
pub open spec fn convergence() -> AchrononView {
    AchrononView {
        id: 100,
        antecedents: set![5u32, 6u32],
        orthogonals: Set::empty(),
        transformation_id: "identity"@,
        content: "CONVERGENCE: The Smuggler and the Spy arrive at the hidden orbital station simultaneously. A Mexican standoff ensues over the data core."@,
        affected_subspace: None,
    }
}

/// The continuum the narrative starts from: the seed, then the convergence.
pub fn narrative_seed() -> (aion: Vec<Achronon>)
    ensures
        views(aion@) == seq![transmission_seed(), convergence()],
{
    let seed = Achronon {
        id: 1,
        antecedents: bitmap_new(),
        orthogonals: bitmap_new(),
        transformation_id: String::from_str("identity"),
        content: String::from_str(
            "SEED: A mysterious encrypted transmission is broadcast across the galaxy, pointing to a hidden data core.",
        ),
        affected_subspace: None,
    };
    let mut both = bitmap_new();
    bitmap_insert(&mut both, 5);
    bitmap_insert(&mut both, 6);
    let meeting = Achronon {
        id: 100,
        antecedents: both,
        orthogonals: bitmap_new(),
        transformation_id: String::from_str("identity"),
        content: String::from_str(
            "CONVERGENCE: The Smuggler and the Spy arrive at the hidden orbital station simultaneously. A Mexican standoff ensues over the data core.",
        ),
        affected_subspace: None,
    };
    assert(bitmap_members(meeting.antecedents) =~= set![5u32, 6u32]);
    let mut aion = Vec::new();
    aion.push(seed);
    aion.push(meeting);
    assert(views(aion@) =~= seq![transmission_seed(), convergence()]);
    aion
}

/// An achronon as the agent `agent` is bound to tell it: the Smuggler works
/// in subspace 0 with `rot0`, any other agent in subspace 1 with `rot1`, and
/// the content is prefixed with the agent's name in parentheses.
pub open spec fn bound_to_agent(a: AchrononView, agent: Seq<char>) -> AchrononView {
    AchrononView {
        affected_subspace: if agent == "Smuggler"@ { Some(0usize) } else { Some(1usize) },
        transformation_id: if agent == "Smuggler"@ { "rot0"@ } else { "rot1"@ },
        content: "("@ + agent + ") "@ + a.content,
        ..a
    }
}

/// Binds `a` to the storyline of `agent`.
pub fn bind_to_agent(a: &mut Achronon, agent: &str)
    ensures
        final(a)@ == bound_to_agent(old(a)@, agent@),
{
    let name = String::from_str(agent);
    let smuggler = String::from_str("Smuggler");
    if name == smuggler {
        a.affected_subspace = Some(0);
        a.transformation_id = String::from_str("rot0");
    } else {
        a.affected_subspace = Some(1);
        a.transformation_id = String::from_str("rot1");
    }
    let mut content = String::from_str("(");
    content.append(agent);
    content.append(") ");
    content.append(a.content.as_str());
    a.content = content;
}

/// The order in which the agents take turns: the Spy first, then the
/// Smuggler, three times over.
pub open spec fn narrator_order() -> Seq<Seq<char>> {
    seq!["Spy"@, "Smuggler"@, "Spy"@, "Smuggler"@, "Spy"@, "Smuggler"@]
}

/// The turns of the narrative, the next one last, so that popping yields
/// them in `narrator_order`.
pub fn narrator_turns() -> (turns: Vec<String>)
    ensures
        turns@.map_values(|t: String| t@) == narrator_order().reverse(),
{
    let mut turns: Vec<String> = Vec::new();
    turns.push(String::from_str("Smuggler"));
    turns.push(String::from_str("Spy"));
    turns.push(String::from_str("Smuggler"));
    turns.push(String::from_str("Spy"));
    turns.push(String::from_str("Smuggler"));
    turns.push(String::from_str("Spy"));
    assert(turns@.map_values(|t: String| t@) =~= narrator_order().reverse());
    turns
}

/// The persona of the smuggler.
pub open spec fn smuggler_persona() -> Seq<char> {
    "You are Agent Smuggler. You are acting out the role of a rugged smuggler on a desert planet who just received a mysterious encrypted transmission. You are trying to decode it and find its source. Output ONLY a JSON array of new potential Achronons. ALWAYS set `affected_subspace` to 0."@
}

/// The persona of the spy.
pub open spec fn spy_persona() -> Seq<char> {
    "You are Agent Spy. You are acting out the role of a high-tech corporate spy on a city-planet who intercepted the same mysterious encrypted transmission. You are trying to steal the data core it points to. Output ONLY a JSON array of new potential Achronons. ALWAYS set `affected_subspace` to 1."@
}

/// The instructions that follow each persona of the narrative.
pub open spec fn narrative_instructions() -> Seq<char> {
    r#"
Output ONLY a JSON array of objects representing new potential Achronons. 
Do not include any preamble or explanation.

JSON Schema:
{
  "id": integer (must be greater than existing IDs),
  "antecedents": [ids of prerequisites],
  "orthogonals": [ids of spacelike separated events],
  "transformation_id": "rot0" (for Smuggler) or "rot1" (for Spy),
  "content": "string description",
  "affected_subspace": 0 (for Smuggler) or 1 (for Spy)
}

RULES:
1. New events must logically follow from your previous events or the seed event.
2. Propose exactly 1 event per turn to advance your storyline.
"#@
}

/// The system prompt of an agent of the narrative: the Smuggler's persona
/// for the Smuggler, the Spy's for any other agent, then a line break and the
/// narrative's instructions.
pub open spec fn narrative_prompt(agent: Seq<char>) -> Seq<char> {
    (if agent == "Smuggler"@ { smuggler_persona() } else { spy_persona() }) + "\n"@
        + narrative_instructions()
}

/// The system prompt of the narrative agent `agent`.
pub fn agent_system_prompt(agent: &str) -> (p: String)
    ensures
        p@ == narrative_prompt(agent@),
{
    let name = String::from_str(agent);
    let smuggler = String::from_str("Smuggler");
    let mut p = if name == smuggler {
        String::from_str("You are Agent Smuggler. You are acting out the role of a rugged smuggler on a desert planet who just received a mysterious encrypted transmission. You are trying to decode it and find its source. Output ONLY a JSON array of new potential Achronons. ALWAYS set `affected_subspace` to 0.")
    } else {
        String::from_str("You are Agent Spy. You are acting out the role of a high-tech corporate spy on a city-planet who intercepted the same mysterious encrypted transmission. You are trying to steal the data core it points to. Output ONLY a JSON array of new potential Achronons. ALWAYS set `affected_subspace` to 1.")
    };
    p.append("\n");
    p.append(r#"
Output ONLY a JSON array of objects representing new potential Achronons. 
Do not include any preamble or explanation.

JSON Schema:
{
  "id": integer (must be greater than existing IDs),
  "antecedents": [ids of prerequisites],
  "orthogonals": [ids of spacelike separated events],
  "transformation_id": "rot0" (for Smuggler) or "rot1" (for Spy),
  "content": "string description",
  "affected_subspace": 0 (for Smuggler) or 1 (for Spy)
}

RULES:
1. New events must logically follow from your previous events or the seed event.
2. Propose exactly 1 event per turn to advance your storyline.
"#);
    p
}

} // verus!
