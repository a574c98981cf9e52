use lattice::{Achronon, LatticeTopologyEngine, PrecipitationRegistry};
use roaring::RoaringBitmap;

fn achronon(id: u32, antecedents: &[u32], subspace: Option<usize>) -> Achronon {
    let mut p = RoaringBitmap::new();
    for a in antecedents {
        p.insert(*a);
    }
    Achronon {
        id,
        antecedents: p,
        orthogonals: RoaringBitmap::new(),
        transformation_id: format!("t{}", id),
        content: format!("A{}", id),
        affected_subspace: subspace,
    }
}

#[test]
fn test_eligibility() {
    let mut registry = PrecipitationRegistry::new();

    let a1 = Achronon {
        id: 1,
        antecedents: RoaringBitmap::new(),
        orthogonals: RoaringBitmap::new(),
        transformation_id: "init".into(),
        content: "Initial".into(),
        affected_subspace: None,
    };

    let mut p2 = RoaringBitmap::new();
    p2.insert(1);
    let a2 = Achronon {
        id: 2,
        antecedents: p2,
        orthogonals: RoaringBitmap::new(),
        transformation_id: "step2".into(),
        content: "Step 2".into(),
        affected_subspace: None,
    };

    assert!(registry.is_eligible(&a1));
    assert!(!registry.is_eligible(&a2));

    registry.precipitate(&a1);
    assert!(registry.is_eligible(&a2));
}

#[test]
fn test_orthogonality() {
    let lte = LatticeTopologyEngine::new(vec![]);

    let mut p2 = RoaringBitmap::new();
    p2.insert(1);

    let a1 = Achronon {
        id: 1,
        antecedents: RoaringBitmap::new(),
        orthogonals: RoaringBitmap::new(),
        transformation_id: "a1".into(),
        content: "A1".into(),
        affected_subspace: Some(0),
    };

    let a2 = Achronon {
        id: 2,
        antecedents: p2,
        orthogonals: RoaringBitmap::new(),
        transformation_id: "a2".into(),
        content: "A2".into(),
        affected_subspace: Some(1),
    };

    // A1 is an antecedent of A2, so they are not orthogonal.
    assert!(!lte.validate_batch_orthogonality(&[a1.clone(), a2.clone()]));

    let a3 = Achronon {
        id: 3,
        antecedents: RoaringBitmap::new(),
        orthogonals: RoaringBitmap::new(),
        transformation_id: "a3".into(),
        content: "A3".into(),
        affected_subspace: Some(1),
    };
    assert!(lte.validate_batch_orthogonality(&[a1.clone(), a3.clone()]));

    // A1 and A4 contend for subspace 0.
    let a4 = Achronon {
        id: 4,
        antecedents: RoaringBitmap::new(),
        orthogonals: RoaringBitmap::new(),
        transformation_id: "a4".into(),
        content: "A4".into(),
        affected_subspace: Some(0),
    };
    assert!(!lte.validate_batch_orthogonality(&[a1, a4]));
}

#[test]
fn registry_starts_empty_and_default_matches_new() {
    let r = PrecipitationRegistry::new();
    assert!(r.bits.is_empty());
    let d = PrecipitationRegistry::default();
    assert!(d.bits.is_empty());
}

#[test]
fn precipitate_is_idempotent() {
    let mut r = PrecipitationRegistry::new();
    let a = achronon(7, &[], None);
    r.precipitate(&a);
    r.precipitate(&a);
    assert_eq!(r.bits.len(), 1);
    assert!(r.bits.contains(7));
}

#[test]
fn batch_holds_pending_eligible_in_order() {
    // 1 -> 2 -> 3, with 4 and 5 independent of everything and 6 after 4 and 5.
    let aion = vec![
        achronon(1, &[], None),
        achronon(2, &[1], None),
        achronon(3, &[2], None),
        achronon(4, &[], Some(0)),
        achronon(5, &[], Some(1)),
        achronon(6, &[4, 5], None),
    ];
    let lte = LatticeTopologyEngine::new(aion);
    let mut reg = PrecipitationRegistry::new();

    let b: Vec<u32> = lte.next_eligible_batch(&reg).iter().map(|a| a.id).collect();
    assert_eq!(b, vec![1, 4, 5]);

    for a in lte.next_eligible_batch(&reg) {
        reg.precipitate(&a);
    }
    let b: Vec<u32> = lte.next_eligible_batch(&reg).iter().map(|a| a.id).collect();
    assert_eq!(b, vec![2, 6]);

    for a in lte.next_eligible_batch(&reg) {
        reg.precipitate(&a);
    }
    let b: Vec<u32> = lte.next_eligible_batch(&reg).iter().map(|a| a.id).collect();
    assert_eq!(b, vec![3]);

    for a in lte.next_eligible_batch(&reg) {
        reg.precipitate(&a);
    }
    assert!(lte.next_eligible_batch(&reg).is_empty());
}

#[test]
fn eligible_batch_is_causally_independent() {
    let aion = vec![
        achronon(1, &[], None),
        achronon(2, &[1], None),
        achronon(3, &[], None),
        achronon(4, &[3], None),
    ];
    let lte = LatticeTopologyEngine::new(aion);
    let reg = PrecipitationRegistry::new();
    let batch = lte.next_eligible_batch(&reg);
    assert_eq!(batch.iter().map(|a| a.id).collect::<Vec<_>>(), vec![1, 3]);
    assert!(lte.validate_batch_orthogonality(&batch));
}

#[test]
fn eligible_batch_with_contention_is_not_orthogonal() {
    let aion = vec![achronon(1, &[], Some(2)), achronon(2, &[], Some(2))];
    let lte = LatticeTopologyEngine::new(aion);
    let reg = PrecipitationRegistry::new();
    let batch = lte.next_eligible_batch(&reg);
    assert_eq!(batch.len(), 2);
    assert!(!lte.validate_batch_orthogonality(&batch));
}

#[test]
fn empty_batch_is_orthogonal() {
    let lte = LatticeTopologyEngine::new(vec![]);
    assert!(lte.validate_batch_orthogonality(&[]));
}

#[test]
fn clone_keeps_every_field() {
    let a = achronon(9, &[1, 2], Some(3));
    let c = a.clone();
    assert_eq!(c.id, 9);
    assert_eq!(c.antecedents, a.antecedents);
    assert_eq!(c.orthogonals, a.orthogonals);
    assert_eq!(c.transformation_id, "t9");
    assert_eq!(c.content, "A9");
    assert_eq!(c.affected_subspace, Some(3));
}

#[test]
fn orthogonality_ignores_order_and_holds_for_sub_batches() {
    let lte = LatticeTopologyEngine::new(vec![]);
    let a = achronon(1, &[], Some(0));
    let b = achronon(2, &[], Some(1));
    let c = achronon(3, &[], None);
    assert!(lte.validate_batch_orthogonality(&[a.clone(), b.clone(), c.clone()]));
    assert!(lte.validate_batch_orthogonality(&[c.clone(), b.clone(), a.clone()]));
    assert!(lte.validate_batch_orthogonality(&[b.clone(), a.clone()]));
    let d = achronon(4, &[1], None);
    assert!(!lte.validate_batch_orthogonality(&[a.clone(), d.clone()]));
    assert!(!lte.validate_batch_orthogonality(&[d, a]));
}

#[test]
fn stepping_never_repeats_and_only_the_last_batch_unlocks() {
    let aion = vec![
        achronon(1, &[], None),
        achronon(2, &[1], None),
        achronon(3, &[2], None),
        achronon(4, &[], None),
    ];
    let lte = LatticeTopologyEngine::new(aion);
    let mut reg = PrecipitationRegistry::new();
    let mut seen: Vec<u32> = vec![];
    let mut last_batch: Vec<u32> = vec![];
    loop {
        let batch = lte.next_eligible_batch(&reg);
        if batch.is_empty() {
            break;
        }
        for a in &batch {
            assert!(!seen.contains(&a.id));
            if !last_batch.is_empty() {
                // Each newly eligible achronon waits on something from the last batch.
                assert!(a.antecedents.iter().any(|x| last_batch.contains(&x)));
            }
        }
        last_batch.clear();
        for a in &batch {
            reg.precipitate(a);
            seen.push(a.id);
            last_batch.push(a.id);
        }
    }
    assert_eq!(seen, vec![1, 4, 2, 3]);
}

#[test]
fn permuted_continuum_gives_permuted_batch() {
    let aion = vec![
        achronon(1, &[], None),
        achronon(2, &[1], None),
        achronon(3, &[], Some(0)),
        achronon(4, &[], Some(1)),
    ];
    let mut permuted = aion.clone();
    permuted.reverse();
    let reg = PrecipitationRegistry::new();
    let mut b1: Vec<u32> = LatticeTopologyEngine::new(aion).next_eligible_batch(&reg).iter().map(|a| a.id).collect();
    let b2: Vec<u32> = LatticeTopologyEngine::new(permuted).next_eligible_batch(&reg).iter().map(|a| a.id).collect();
    assert_eq!(b2, vec![4, 3, 1]);
    b1.reverse();
    assert_eq!(b1, b2);
}
