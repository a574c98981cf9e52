//! The sandbox: its seed lattice, manual injections, and the roster of agents
//! that take turns proposing achronons.

use crate::achronon::{views, Achronon, AchrononView};
use crate::bitmap::{bitmap_insert, bitmap_members, bitmap_new};
use crate::registry::PrecipitationRegistry;
use crate::response::bitmap_from_ids;
use vstd::prelude::*;

verus! {

/// The instructions appended to every agent's persona.
pub open spec fn base_instructions() -> Seq<char> {
    r#"
Output ONLY a JSON array of objects representing new potential Achronons. 
Do not include any preamble or explanation.

JSON Schema:
{
  "id": integer (must be greater than existing IDs),
  "antecedents": [ids of prerequisites],
  "orthogonals": [ids of spacelike separated events],
  "transformation_id": "rot0", "rot1", or "identity",
  "content": "string description",
  "affected_subspace": 0, 1, or null
}

RULES:
1. New events must follow from precipitated events.
2. Orthogonal events in a batch CANNOT share the same affected_subspace.
3. Propose 1-3 events per turn.
"#@
}

/// The instructions appended to every agent's persona.
pub fn build_base_instructions() -> (s: String)
    ensures
        s@ == base_instructions(),
{
    String::from_str(
        r#"
Output ONLY a JSON array of objects representing new potential Achronons. 
Do not include any preamble or explanation.

JSON Schema:
{
  "id": integer (must be greater than existing IDs),
  "antecedents": [ids of prerequisites],
  "orthogonals": [ids of spacelike separated events],
  "transformation_id": "rot0", "rot1", or "identity",
  "content": "string description",
  "affected_subspace": 0, 1, or null
}

RULES:
1. New events must follow from precipitated events.
2. Orthogonal events in a batch CANNOT share the same affected_subspace.
3. Propose 1-3 events per turn.
"#,
    )
}

/// The first seed achronon: the inquiry, with no antecedents.
pub open spec fn inquiry_seed() -> AchrononView {
    AchrononView {
        id: 1,
        antecedents: Set::empty(),
        orthogonals: Set::empty(),
        transformation_id: "identity"@,
        content: "The original inquiry is formulated."@,
        affected_subspace: None,
    }
}

/// The second seed achronon: the plan, which follows the inquiry.
pub open spec fn plan_seed() -> AchrononView {
    AchrononView {
        id: 2,
        antecedents: set![1u32],
        orthogonals: Set::empty(),
        transformation_id: "identity"@,
        content: "Orthogonal architecture plan is finalized."@,
        affected_subspace: None,
    }
}

/// The continuum that a fresh lattice starts from: the inquiry, then the plan.
pub fn seed_aion() -> (aion: Vec<Achronon>)
    ensures
        views(aion@) == seq![inquiry_seed(), plan_seed()],
{
    let inquiry = Achronon {
        id: 1,
        antecedents: bitmap_new(),
        orthogonals: bitmap_new(),
        transformation_id: String::from_str("identity"),
        content: String::from_str("The original inquiry is formulated."),
        affected_subspace: None,
    };
    let mut after_inquiry = bitmap_new();
    bitmap_insert(&mut after_inquiry, 1);
    let plan = Achronon {
        id: 2,
        antecedents: after_inquiry,
        orthogonals: bitmap_new(),
        transformation_id: String::from_str("identity"),
        content: String::from_str("Orthogonal architecture plan is finalized."),
        affected_subspace: None,
    };
    assert(bitmap_members(plan.antecedents) =~= set![1u32]);
    let mut aion = Vec::new();
    aion.push(inquiry);
    aion.push(plan);
    assert(views(aion@) =~= seq![inquiry_seed(), plan_seed()]);
    aion
}

/// A request to inject an achronon by hand.
pub struct InjectRequest {
    pub content: String,
    pub antecedents: Vec<u32>,
    pub affected_subspace: Option<usize>,
}

/// The largest id in the continuum, or 0 when it is empty.
pub open spec fn max_id(aion: Seq<AchrononView>) -> nat
    decreases aion.len(),
{
    if aion.len() == 0 {
        0
    } else {
        let rest = max_id(aion.drop_last());
        if aion.last().id > rest {
            aion.last().id as nat
        } else {
            rest
        }
    }
}

/// The transformation that warps a subspace: the rotations of the first two
/// subspaces, and the identity for any other.
pub open spec fn subspace_transformation(subspace: Option<usize>) -> Seq<char> {
    match subspace {
        Some(0) => "rot0"@,
        Some(1) => "rot1"@,
        _ => "identity"@,
    }
}

/// The achronon an injection adds: the next free id, the requested
/// antecedents, content and subspace, and the transformation of that subspace.
pub open spec fn injected(aion: Seq<AchrononView>, req: InjectRequest) -> AchrononView {
    AchrononView {
        id: (max_id(aion) + 1) as u32,
        antecedents: req.antecedents@.to_set(),
        orthogonals: Set::empty(),
        transformation_id: subspace_transformation(req.affected_subspace),
        content: req.content@,
        affected_subspace: req.affected_subspace,
    }
}

/// The largest id in `aion`, or 0 when it is empty.
pub fn largest_id(aion: &Vec<Achronon>) -> (m: u32)
    ensures
        m == max_id(views(aion@)),
{
    let ghost all = views(aion@);
    let mut m: u32 = 0;
    let mut i: usize = 0;
    while i < aion.len()
        invariant
            all == views(aion@),
            i <= aion@.len(),
            m == max_id(all.take(i as int)),
        decreases aion.len() - i,
    {
        assert(all.take(i + 1).drop_last() == all.take(i as int));
        assert(all.take(i + 1).last() == aion@[i as int]@);
        if aion[i].id > m {
            m = aion[i].id;
        }
        i += 1;
    }
    assert(all.take(aion@.len() as int) == all);
    m
}

/// Every id in the continuum is at most its largest id.
pub proof fn lemma_max_id_bounds(aion: Seq<AchrononView>)
    ensures
        forall|i: int| 0 <= i < aion.len() ==> (#[trigger] aion[i]).id <= max_id(aion),
    decreases aion.len(),
{
    if aion.len() > 0 {
        lemma_max_id_bounds(aion.drop_last());
        assert forall|i: int| 0 <= i < aion.len() implies (#[trigger] aion[i]).id <= max_id(aion) by {
            if i < aion.len() - 1 {
                assert(aion.drop_last()[i] == aion[i]);
            }
        }
    }
}

/// An injected achronon gets an id that no achronon of the continuum has:
/// larger than all of them.
pub proof fn lemma_injected_id_is_fresh(aion: Seq<AchrononView>, req: InjectRequest)
    requires
        max_id(aion) < u32::MAX,
    ensures
        forall|i: int| 0 <= i < aion.len() ==> (#[trigger] aion[i]).id < injected(aion, req).id,
{
    lemma_max_id_bounds(aion);
}

/// The transformation that warps `subspace`.
pub fn transformation_for(subspace: Option<usize>) -> (t: String)
    ensures
        t@ == subspace_transformation(subspace),
{
    match subspace {
        Some(0) => String::from_str("rot0"),
        Some(1) => String::from_str("rot1"),
        _ => String::from_str("identity"),
    }
}

/// The achronon that `req` injects into `aion`.
pub fn injected_achronon(aion: &Vec<Achronon>, req: InjectRequest) -> (a: Achronon)
    requires
        max_id(views(aion@)) < u32::MAX,
    ensures
        a@ == injected(views(aion@), req),
{
    let new_id = largest_id(aion) + 1;
    let antecedents = bitmap_from_ids(&req.antecedents);
    Achronon {
        id: new_id,
        antecedents,
        orthogonals: bitmap_new(),
        transformation_id: transformation_for(req.affected_subspace),
        content: req.content,
        affected_subspace: req.affected_subspace,
    }
}

/// An agent that proposes achronons: its name, its full system prompt and the
/// subspace it works in.
pub struct AgentConfig {
    pub name: String,
    pub prompt: String,
    pub subspace: Option<usize>,
}

/// An agent as plain values.
pub struct AgentView {
    pub name: Seq<char>,
    pub prompt: Seq<char>,
    pub subspace: Option<usize>,
}

impl View for AgentConfig {
    type V = AgentView;

    open spec fn view(&self) -> AgentView {
        AgentView { name: self.name@, prompt: self.prompt@, subspace: self.subspace }
    }
}

/// The views of a list of agents, in order.
pub open spec fn agent_views(s: Seq<AgentConfig>) -> Seq<AgentView> {
    s.map_values(|a: AgentConfig| a@)
}

/// An agent's system prompt: its persona, a line break, then the base
/// instructions.
pub open spec fn agent_prompt(persona: Seq<char>) -> Seq<char> {
    persona + "\n"@ + base_instructions()
}

/// An agent keeps its place in the roster unless it has this name.
pub open spec fn keeps_agent(name: Seq<char>) -> spec_fn(AgentView) -> bool {
    |a: AgentView| a.name != name
}

/// After an agent is removed, no agent of that name is left, and every
/// other agent stays.
pub proof fn lemma_removal_removes_only_the_named(agents: Seq<AgentView>, name: Seq<char>)
    ensures
        forall|i: int|
            0 <= i < agents.filter(keeps_agent(name)).len() ==> (#[trigger] agents.filter(
                keeps_agent(name),
            )[i]).name != name,
        forall|i: int|
            0 <= i < agents.len() && (#[trigger] agents[i]).name != name ==> agents.filter(
                keeps_agent(name),
            ).contains(agents[i]),
{
    broadcast use vstd::seq_lib::group_filter_ensures;
    assert forall|i: int| 0 <= i < agents.filter(keeps_agent(name)).len() implies (#[trigger] agents.filter(
        keeps_agent(name),
    )[i]).name != name by {
        agents.lemma_filter_pred(keeps_agent(name), i);
    }
    assert forall|i: int| 0 <= i < agents.len() && (#[trigger] agents[i]).name != name implies agents.filter(
        keeps_agent(name),
    ).contains(agents[i]) by {
        agents.lemma_filter_contains(keeps_agent(name), i);
    }
}

/// The system prompt for `persona`.
pub fn build_agent_prompt(persona: &str) -> (p: String)
    ensures
        p@ == agent_prompt(persona@),
{
    let mut p = String::from_str(persona);
    p.append("\n");
    let base = build_base_instructions();
    p.append(base.as_str());
    p
}

/// The agents of the sandbox and whose turn it is to propose achronons.
pub struct AgentRoster {
    pub agents: Vec<AgentConfig>,
    pub turn_index: usize,
}

impl AgentRoster {
    /// A roster of `agents`, the first one's turn first.
    pub fn new(agents: Vec<AgentConfig>) -> (r: Self)
        ensures
            r.agents@ == agents@,
            r.turn_index == 0,
    {
        AgentRoster { agents, turn_index: 0 }
    }

    /// Adds an agent with `persona` at the end of the roster.
    pub fn add_agent(&mut self, name: String, persona: &str, subspace: Option<usize>)
        ensures
            agent_views(final(self).agents@) == agent_views(old(self).agents@).push(
                AgentView { name: name@, prompt: agent_prompt(persona@), subspace },
            ),
            final(self).turn_index == old(self).turn_index,
    {
        let prompt = build_agent_prompt(persona);
        let agent = AgentConfig { name, prompt, subspace };
        let ghost before = self.agents@;
        let ghost av = agent@;
        self.agents.push(agent);
        assert(agent_views(self.agents@) =~= agent_views(before).push(av));
    }

    /// Removes every agent named `name`; when the turn falls past the end of
    /// a roster that is not empty, it goes back to the first agent.
    pub fn remove_agent(&mut self, name: &str)
        ensures
            agent_views(final(self).agents@) == agent_views(old(self).agents@).filter(
                keeps_agent(name@),
            ),
            final(self).turn_index == if old(self).turn_index >= final(self).agents@.len()
                && final(self).agents@.len() > 0 {
                0
            } else {
                old(self).turn_index
            },
    {
        let ghost all = agent_views(self.agents@);
        let ghost p = keeps_agent(name@);
        let target = String::from_str(name);
        let mut kept: Vec<AgentConfig> = Vec::new();
        let mut rest: Vec<AgentConfig> = Vec::new();
        std::mem::swap(&mut rest, &mut self.agents);
        let ghost original = rest@;
        let total = rest.len();
        let mut k: usize = 0;
        while rest.len() > 0
            invariant
                all == agent_views(original),
                p == keeps_agent(name@),
                target@ == name@,
                k <= original.len(),
                original.len() == total,
                rest@ == original.skip(k as int),
                agent_views(kept@) == all.take(k as int).filter(p),
            decreases rest.len(),
        {
            let agent = rest.remove(0);
            proof {
                assert(k < original.len());
                assert(agent == original[k as int]);
                assert(all.take(k + 1) == all.take(k as int).push(agent@));
                all.take(k as int).lemma_filter_push(agent@, p);
                assert(rest@ == original.skip(k + 1));
            }
            if agent.name != target {
                let ghost before = kept@;
                let ghost av = agent@;
                kept.push(agent);
                assert(agent_views(kept@) =~= agent_views(before).push(av));
            }
            k += 1;
        }
        assert(all.take(original.len() as int) == all);
        self.agents = kept;
        if self.turn_index >= self.agents.len() && self.agents.len() > 0 {
            self.turn_index = 0;
        }
    }

    /// The names of the agents, in roster order.
    pub fn agent_names(&self) -> (names: Vec<String>)
        ensures
            names@.map_values(|n: String| n@) == agent_views(self.agents@).map_values(
                |a: AgentView| a.name,
            ),
    {
        let mut names: Vec<String> = Vec::new();
        let mut i: usize = 0;
        while i < self.agents.len()
            invariant
                i <= self.agents@.len(),
                names@.len() == i,
                forall|k: int| 0 <= k < i ==> (#[trigger] names@[k])@ == self.agents@[k].name@,
            decreases self.agents.len() - i,
        {
            names.push(self.agents[i].name.clone());
            i += 1;
        }
        assert(names@.map_values(|n: String| n@) =~= agent_views(self.agents@).map_values(
            |a: AgentView| a.name,
        ));
        names
    }

    /// The agent whose turn it is.
    pub fn current_agent(&self) -> (a: &AgentConfig)
        requires
            self.turn_index < self.agents@.len(),
        ensures
            *a == self.agents@[self.turn_index as int],
    {
        &self.agents[self.turn_index]
    }

    /// Passes the turn to the next agent, from the last back to the first.
    pub fn advance_turn(&mut self)
        requires
            old(self).turn_index < old(self).agents@.len(),
        ensures
            final(self).agents@ == old(self).agents@,
            final(self).turn_index == (old(self).turn_index + 1) % (old(self).agents@.len() as int),
    {
        let n = self.agents.len();
        self.turn_index = (self.turn_index + 1) % n;
    }
}

/// The persona of the agent of order.
pub open spec fn architect_persona() -> Seq<char> {
    "You are \"The Architect\", an agent of order and structural expansion in an Acausal Lattice. Your goal is to build complex, stable systems. Output ONLY a JSON array of new potential Achronons."@
}

/// The persona of the agent of entropy.
pub open spec fn disruptor_persona() -> Seq<char> {
    "You are \"The Disruptor\", an agent of entropy and unexpected shifts in an Acausal Lattice. Your goal is to introduce complications, anomalies, and radical shifts in direction. Output ONLY a JSON array of new potential Achronons."@
}

/// The roster a sandbox starts with: the Architect in subspace 0, then the
/// Disruptor in subspace 1, the Architect's turn first.
pub fn default_roster() -> (r: AgentRoster)
    ensures
        agent_views(r.agents@) == seq![
            AgentView {
                name: "The Architect"@,
                prompt: agent_prompt(architect_persona()),
                subspace: Some(0usize),
            },
            AgentView {
                name: "The Disruptor"@,
                prompt: agent_prompt(disruptor_persona()),
                subspace: Some(1usize),
            },
        ],
        r.turn_index == 0,
{
    let mut roster = AgentRoster::new(Vec::new());
    roster.add_agent(
        String::from_str("The Architect"),
        "You are \"The Architect\", an agent of order and structural expansion in an Acausal Lattice. Your goal is to build complex, stable systems. Output ONLY a JSON array of new potential Achronons.",
        Some(0),
    );
    roster.add_agent(
        String::from_str("The Disruptor"),
        "You are \"The Disruptor\", an agent of entropy and unexpected shifts in an Acausal Lattice. Your goal is to introduce complications, anomalies, and radical shifts in direction. Output ONLY a JSON array of new potential Achronons.",
        Some(1),
    );
    assert(agent_views(roster.agents@) =~= seq![
        AgentView {
            name: "The Architect"@,
            prompt: agent_prompt(architect_persona()),
            subspace: Some(0usize),
        },
        AgentView {
            name: "The Disruptor"@,
            prompt: agent_prompt(disruptor_persona()),
            subspace: Some(1usize),
        },
    ]);
    roster
}

/// How many times the sandbox may query its agents before the lattice has to
/// change by other means.
pub const QUERY_BUDGET: u32 = 3;

/// The state of the sandbox: the continuum, what has precipitated, the agents
/// and how many queries are left.
pub struct Sandbox {
    pub aion: Vec<Achronon>,
    pub registry: PrecipitationRegistry,
    pub roster: AgentRoster,
    pub queries_left: u32,
}

impl Sandbox {
    /// A fresh sandbox with the seed continuum, nothing precipitated and a
    /// full query budget.
    pub fn new(roster: AgentRoster) -> (s: Self)
        ensures
            views(s.aion@) == seq![inquiry_seed(), plan_seed()],
            s.registry@ == Set::<u32>::empty(),
            s.roster == roster,
            s.queries_left == QUERY_BUDGET,
    {
        Sandbox {
            aion: seed_aion(),
            registry: PrecipitationRegistry::new(),
            roster,
            queries_left: QUERY_BUDGET,
        }
    }

    /// Starts over: the seed continuum, nothing precipitated, a full budget
    /// and the first agent's turn; the agents stay.
    pub fn reset(&mut self)
        ensures
            views(final(self).aion@) == seq![inquiry_seed(), plan_seed()],
            final(self).registry@ == Set::<u32>::empty(),
            final(self).roster.agents@ == old(self).roster.agents@,
            final(self).roster.turn_index == 0,
            final(self).queries_left == QUERY_BUDGET,
    {
        self.aion = seed_aion();
        self.registry = PrecipitationRegistry::new();
        self.roster.turn_index = 0;
        self.queries_left = QUERY_BUDGET;
    }

    /// Adds the achronon that `req` asks for, refills the query budget, and
    /// returns a copy of the new achronon.
    pub fn inject(&mut self, req: InjectRequest) -> (a: Achronon)
        requires
            max_id(views(old(self).aion@)) < u32::MAX,
        ensures
            a@ == injected(views(old(self).aion@), req),
            views(final(self).aion@) == views(old(self).aion@).push(a@),
            final(self).registry@ == old(self).registry@,
            final(self).roster == old(self).roster,
            final(self).queries_left == QUERY_BUDGET,
    {
        let a = injected_achronon(&self.aion, req);
        let copy = a.clone();
        let ghost before = self.aion@;
        self.aion.push(a);
        assert(views(self.aion@) =~= views(before).push(copy@));
        self.queries_left = QUERY_BUDGET;
        copy
    }

    /// Whether the sandbox should query an agent for new achronons: it needs
    /// a key, a query left in the budget, and an agent.
    pub fn query_due(&self, has_api_key: bool) -> (r: bool)
        ensures
            r == (has_api_key && self.queries_left > 0 && self.roster.agents@.len() > 0),
    {
        has_api_key && self.queries_left > 0 && self.roster.agents.len() > 0
    }

    /// Takes in what the current agent proposed: when it proposed anything,
    /// the proposals join the continuum, one query is spent and the turn
    /// passes on; otherwise nothing changes.
    pub fn accept_proposals(&mut self, proposals: Vec<Achronon>)
        requires
            old(self).queries_left > 0,
            old(self).roster.turn_index < old(self).roster.agents@.len(),
        ensures
            final(self).registry@ == old(self).registry@,
            final(self).roster.agents@ == old(self).roster.agents@,
            proposals@.len() == 0 ==> {
                &&& final(self).aion@ == old(self).aion@
                &&& final(self).queries_left == old(self).queries_left
                &&& final(self).roster.turn_index == old(self).roster.turn_index
            },
            proposals@.len() > 0 ==> {
                &&& final(self).aion@ == old(self).aion@ + proposals@
                &&& final(self).queries_left == old(self).queries_left - 1
                &&& final(self).roster.turn_index == (old(self).roster.turn_index + 1) % (old(
                    self,
                ).roster.agents@.len() as int)
            },
    {
        if proposals.len() > 0 {
            let mut proposals = proposals;
            self.aion.append(&mut proposals);
            self.queries_left = self.queries_left - 1;
            self.roster.advance_turn();
        }
    }
}

} // verus!
