use lattice::driver::{decide_after_reply, decide_at_stability, ReplyDecision, StabilityDecision};
use lattice::narrative::{agent_system_prompt, bind_to_agent, narrative_seed};
use lattice::sandbox::{build_agent_prompt, build_base_instructions, default_roster, largest_id, seed_aion};
use lattice::{Achronon, AgentRoster, InjectRequest, LatticeTopologyEngine, PrecipitationRegistry, Sandbox};
use roaring::RoaringBitmap;

const BASE: &str = "\nOutput ONLY a JSON array of objects representing new potential Achronons. \nDo not include any preamble or explanation.\n\nJSON Schema:\n{\n  \"id\": integer (must be greater than existing IDs),\n  \"antecedents\": [ids of prerequisites],\n  \"orthogonals\": [ids of spacelike separated events],\n  \"transformation_id\": \"rot0\", \"rot1\", or \"identity\",\n  \"content\": \"string description\",\n  \"affected_subspace\": 0, 1, or null\n}\n\nRULES:\n1. New events must follow from precipitated events.\n2. Orthogonal events in a batch CANNOT share the same affected_subspace.\n3. Propose 1-3 events per turn.\n";

fn event(id: u32, content: &str) -> Achronon {
    Achronon {
        id,
        antecedents: RoaringBitmap::new(),
        orthogonals: RoaringBitmap::new(),
        transformation_id: "identity".into(),
        content: content.into(),
        affected_subspace: None,
    }
}

#[test]
fn base_instructions_text() {
    assert_eq!(build_base_instructions(), BASE);
    assert_eq!(build_agent_prompt("P"), format!("P\n{}", BASE));
}

#[test]
fn seed_lattice_runs_in_two_steps() {
    let aion = seed_aion();
    assert_eq!(aion.len(), 2);
    assert_eq!(aion[0].content, "The original inquiry is formulated.");
    assert_eq!(aion[1].antecedents.iter().collect::<Vec<_>>(), vec![1]);
    let lte = LatticeTopologyEngine::new(aion);
    let mut reg = PrecipitationRegistry::new();
    let b = lte.next_eligible_batch(&reg);
    assert_eq!(b.iter().map(|a| a.id).collect::<Vec<_>>(), vec![1]);
    reg.precipitate(&b[0]);
    let b = lte.next_eligible_batch(&reg);
    assert_eq!(b.iter().map(|a| a.id).collect::<Vec<_>>(), vec![2]);
}

#[test]
fn injection_takes_next_id_and_subspace_rotation() {
    let mut sandbox = Sandbox::new(default_roster());
    sandbox.queries_left = 0;
    let a = sandbox.inject(InjectRequest {
        content: "Manual".into(),
        antecedents: vec![2, 1],
        affected_subspace: Some(1),
    });
    assert_eq!(a.id, 3);
    assert_eq!(a.transformation_id, "rot1");
    assert_eq!(a.content, "Manual");
    assert_eq!(a.antecedents.iter().collect::<Vec<_>>(), vec![1, 2]);
    assert_eq!(sandbox.aion.len(), 3);
    assert_eq!(sandbox.queries_left, 3);

    let b = sandbox.inject(InjectRequest { content: "Zero".into(), antecedents: vec![], affected_subspace: Some(0) });
    assert_eq!((b.id, b.transformation_id.as_str()), (4, "rot0"));
    let c = sandbox.inject(InjectRequest { content: "Far".into(), antecedents: vec![], affected_subspace: Some(7) });
    assert_eq!((c.id, c.transformation_id.as_str()), (5, "identity"));
    let d = sandbox.inject(InjectRequest { content: "None".into(), antecedents: vec![], affected_subspace: None });
    assert_eq!((d.id, d.transformation_id.as_str()), (6, "identity"));
}

#[test]
fn largest_id_of_empty_and_unordered() {
    assert_eq!(largest_id(&vec![]), 0);
    assert_eq!(largest_id(&vec![event(5, "a"), event(40, "b"), event(7, "c")]), 40);
}

#[test]
fn roster_turns_and_removal() {
    let mut roster = default_roster();
    assert_eq!(roster.agent_names(), vec!["The Architect".to_string(), "The Disruptor".to_string()]);
    assert_eq!(roster.current_agent().subspace, Some(0));
    assert!(roster.current_agent().prompt.starts_with("You are \"The Architect\""));
    assert!(roster.current_agent().prompt.ends_with(BASE));
    roster.advance_turn();
    assert_eq!(roster.current_agent().name, "The Disruptor");
    roster.advance_turn();
    assert_eq!(roster.turn_index, 0);

    roster.add_agent("Third".into(), "Be third.", None);
    roster.turn_index = 2;
    roster.remove_agent("Third");
    assert_eq!(roster.agent_names(), vec!["The Architect".to_string(), "The Disruptor".to_string()]);
    assert_eq!(roster.turn_index, 0);

    roster.turn_index = 1;
    roster.remove_agent("The Architect");
    assert_eq!(roster.agent_names(), vec!["The Disruptor".to_string()]);
    assert_eq!(roster.turn_index, 0);

    roster.remove_agent("The Disruptor");
    assert!(roster.agents.is_empty());
    assert_eq!(roster.turn_index, 0);
}

#[test]
fn removing_from_the_end_keeps_turn_when_still_in_range() {
    let mut roster = AgentRoster::new(vec![]);
    roster.add_agent("A".into(), "a", None);
    roster.add_agent("B".into(), "b", None);
    roster.add_agent("A".into(), "again", None);
    roster.turn_index = 1;
    roster.remove_agent("A");
    assert_eq!(roster.agent_names(), vec!["B".to_string()]);
    assert_eq!(roster.turn_index, 0);
    roster.remove_agent("nobody");
    assert_eq!(roster.agent_names(), vec!["B".to_string()]);
}

#[test]
fn query_budget_and_proposals() {
    let mut sandbox = Sandbox::new(default_roster());
    assert!(!sandbox.query_due(false));
    assert!(sandbox.query_due(true));
    sandbox.accept_proposals(vec![]);
    assert_eq!(sandbox.queries_left, 3);
    assert_eq!(sandbox.roster.turn_index, 0);
    sandbox.accept_proposals(vec![event(10, "x"), event(11, "y")]);
    assert_eq!(sandbox.aion.len(), 4);
    assert_eq!(sandbox.aion[3].id, 11);
    assert_eq!(sandbox.queries_left, 2);
    assert_eq!(sandbox.roster.turn_index, 1);
    sandbox.accept_proposals(vec![event(12, "z")]);
    sandbox.accept_proposals(vec![event(13, "w")]);
    assert_eq!(sandbox.queries_left, 0);
    assert!(!sandbox.query_due(true));

    sandbox.registry.precipitate(&event(1, ""));
    sandbox.reset();
    assert_eq!(sandbox.aion.len(), 2);
    assert!(sandbox.registry.bits.is_empty());
    assert_eq!(sandbox.queries_left, 3);
    assert_eq!(sandbox.roster.turn_index, 0);
    assert_eq!(sandbox.roster.agents.len(), 2);
}

#[test]
fn narrative_binding() {
    let aion = narrative_seed();
    assert_eq!(aion[1].id, 100);
    assert_eq!(aion[1].antecedents.iter().collect::<Vec<_>>(), vec![5, 6]);

    let mut a = event(3, "Decodes the signal.");
    bind_to_agent(&mut a, "Smuggler");
    assert_eq!(a.affected_subspace, Some(0));
    assert_eq!(a.transformation_id, "rot0");
    assert_eq!(a.content, "(Smuggler) Decodes the signal.");

    let mut b = event(4, "Breaks in.");
    bind_to_agent(&mut b, "Spy");
    assert_eq!(b.affected_subspace, Some(1));
    assert_eq!(b.transformation_id, "rot1");
    assert_eq!(b.content, "(Spy) Breaks in.");
}

#[test]
fn stability_decisions() {
    assert_eq!(decide_at_stability(false, 3), StabilityDecision::NoModel);
    assert_eq!(decide_at_stability(true, 3), StabilityDecision::QueryModel);
    assert_eq!(decide_at_stability(true, 0), StabilityDecision::BudgetSpent);
}

#[test]
fn reply_decisions() {
    assert_eq!(decide_after_reply(false, 3, 2), ReplyDecision::Stop);
    assert_eq!(decide_after_reply(true, 0, 2), ReplyDecision::Stop);
    assert_eq!(decide_after_reply(true, 3, 2), ReplyDecision::Extend(1));
}

#[test]
fn narrator_takes_turns_spy_first() {
    let mut turns = lattice::narrative::narrator_turns();
    let mut order = vec![];
    while let Some(t) = turns.pop() {
        order.push(t);
    }
    assert_eq!(order, vec!["Spy", "Smuggler", "Spy", "Smuggler", "Spy", "Smuggler"]);
}

#[test]
fn narrative_system_prompts() {
    let smuggler = agent_system_prompt("Smuggler");
    assert!(smuggler.starts_with("You are Agent Smuggler."));
    assert!(smuggler.contains("ALWAYS set `affected_subspace` to 0.\n\nOutput ONLY a JSON array"));
    assert!(smuggler.ends_with("2. Propose exactly 1 event per turn to advance your storyline.\n"));
    let spy = agent_system_prompt("Spy");
    assert!(spy.starts_with("You are Agent Spy."));
    assert!(spy.contains("\"transformation_id\": \"rot0\" (for Smuggler) or \"rot1\" (for Spy),"));
}
