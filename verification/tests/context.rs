use lattice::{Achronon, CognitiveContextEngine, PrecipitationRegistry};
use roaring::RoaringBitmap;

#[test]
fn test_flattening() {
    let a1 = Achronon {
        id: 1,
        antecedents: RoaringBitmap::new(),
        orthogonals: RoaringBitmap::new(),
        transformation_id: "init".into(),
        content: "The void stirs.".into(),
        affected_subspace: None,
    };

    let mut p2 = RoaringBitmap::new();
    p2.insert(1);
    let a2 = Achronon {
        id: 2,
        antecedents: p2,
        orthogonals: RoaringBitmap::new(),
        transformation_id: "light".into(),
        content: "Light separates from darkness.".into(),
        affected_subspace: None,
    };

    let cce = CognitiveContextEngine::new(vec![a1.clone(), a2.clone()]);
    let mut registry = PrecipitationRegistry::new();

    let prompt_v0 = cce.flatten_to_prompt(&registry);
    assert!(prompt_v0.contains("No events have precipitated yet"));
    assert!(prompt_v0.contains("[1] (Eligible) The void stirs."));

    registry.precipitate(&a1);
    let prompt_v1 = cce.flatten_to_prompt(&registry);
    assert!(prompt_v1.contains("- [1] The void stirs."));
    assert!(prompt_v1.contains("[2] (Eligible) Light separates from darkness."));
}

fn event(id: u32, antecedents: &[u32], content: &str) -> Achronon {
    let mut p = RoaringBitmap::new();
    for a in antecedents {
        p.insert(*a);
    }
    Achronon {
        id,
        antecedents: p,
        orthogonals: RoaringBitmap::new(),
        transformation_id: "identity".into(),
        content: content.into(),
        affected_subspace: None,
    }
}

#[test]
fn prompt_text_is_exact() {
    let cce = CognitiveContextEngine::new(vec![
        event(1, &[], "First"),
        event(20, &[1], "Second"),
        event(305, &[1, 20], "Third"),
    ]);
    let mut reg = PrecipitationRegistry::new();
    reg.precipitate(&event(1, &[], "First"));
    let expected = "### Acausal Lattice State\n\n\
The following events have precipitated from the Aion into reality:\n\n\
- [1] First\n\
\n### Current Potentiality\n\n\
The following events are eligible for precipitation:\n\n\
- [20] (Eligible) Second\n";
    assert_eq!(cce.flatten_to_prompt(&reg), expected);
}

#[test]
fn terminal_state_prompt() {
    let cce = CognitiveContextEngine::new(vec![event(4294967295, &[], "Last")]);
    let mut reg = PrecipitationRegistry::new();
    reg.precipitate(&event(4294967295, &[], "Last"));
    let p = cce.flatten_to_prompt(&reg);
    assert!(p.contains("- [4294967295] Last\n"));
    assert!(p.contains("- None (System has reached a terminal state or is blocked).\n"));
    // No achronon is listed under both headings.
    assert!(!p.contains("(Eligible) Last"));
}

#[test]
fn empty_lattice_prompt() {
    let cce = CognitiveContextEngine::new(vec![]);
    let reg = PrecipitationRegistry::new();
    let expected = "### Acausal Lattice State\n\n\
The following events have precipitated from the Aion into reality:\n\n\
- No events have precipitated yet.\n\
\n### Current Potentiality\n\n\
The following events are eligible for precipitation:\n\n\
- None (System has reached a terminal state or is blocked).\n";
    assert_eq!(cce.flatten_to_prompt(&reg), expected);
}

#[test]
fn decimal_rendering() {
    let mut s = String::from("x");
    lattice::text::push_decimal(&mut s, 0);
    lattice::text::push_decimal(&mut s, 10);
    lattice::text::push_decimal(&mut s, 9087);
    assert_eq!(s, "x0109087");
}

#[test]
fn potential_section_lists_the_next_batch_in_order() {
    let aion = vec![
        event(1, &[], "One"),
        event(2, &[1], "Two"),
        event(3, &[], "Three"),
        event(4, &[3], "Four"),
        event(5, &[], "Five"),
    ];
    let cce = CognitiveContextEngine::new(aion.clone());
    let lte = lattice::LatticeTopologyEngine::new(aion.clone());
    let mut reg = PrecipitationRegistry::new();
    reg.precipitate(&event(3, &[], "Three"));
    let batch = lte.next_eligible_batch(&reg);
    let prompt = cce.flatten_to_prompt(&reg);
    let eligible: Vec<&str> = prompt.lines().filter(|l| l.contains("] (Eligible) ")).collect();
    let expected: Vec<String> =
        batch.iter().map(|a| format!("- [{}] (Eligible) {}", a.id, a.content)).collect();
    assert_eq!(eligible, expected);
    assert_eq!(expected.len(), 3);
    assert!(!prompt.contains("- None (System has reached a terminal state or is blocked)."));
}

#[test]
fn registry_clone_holds_the_same_ids() {
    let mut reg = PrecipitationRegistry::new();
    reg.precipitate(&event(3, &[], "x"));
    reg.precipitate(&event(70000, &[], "y"));
    let copy = reg.clone();
    assert_eq!(copy.bits, reg.bits);
    assert_eq!(copy.bits.iter().collect::<Vec<_>>(), vec![3, 70000]);
}
