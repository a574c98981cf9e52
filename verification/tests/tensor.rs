use candle_core::{Device, Tensor};
use lattice::operators::embed_subspace_block;
use lattice::{Achronon, OperatorTable};
use roaring::RoaringBitmap;

fn rot90() -> Tensor {
    let rot_data: [[f32; 2]; 2] = [[0.0, -1.0], [1.0, 0.0]];
    Tensor::new(&rot_data, &Device::Cpu).unwrap()
}

fn achronon(id: u32, transformation_id: &str, content: &str) -> Achronon {
    Achronon {
        id,
        antecedents: RoaringBitmap::new(),
        orthogonals: RoaringBitmap::new(),
        transformation_id: transformation_id.into(),
        content: content.into(),
        affected_subspace: None,
    }
}

fn apply(op: &Tensor, state: &Tensor) -> Tensor {
    let col = state.reshape((state.dims()[0], 1)).unwrap();
    op.matmul(&col).unwrap().flatten_all().unwrap()
}

#[test]
fn test_transformation() {
    let state = Tensor::from_slice(&[1.0f32, 0.0f32], 2, &Device::Cpu).unwrap();
    let mut ops = OperatorTable::new();
    ops.insert("rot90".into(), rot90());

    let a = achronon(1, "rot90", "Rotating...");
    let op = ops.operator_for(&a).unwrap();
    let state = apply(op, &state);

    let result: Vec<f32> = state.to_vec1().unwrap();
    assert!((result[0] - 0.0).abs() < 1e-6);
    assert!((result[1] - 1.0).abs() < 1e-6);
}

#[test]
fn test_tensor_fusion() {
    let state = Tensor::from_slice(&[1.0f32, 0.0f32], 2, &Device::Cpu).unwrap();
    let mut ops = OperatorTable::new();
    ops.insert("rot90".into(), rot90());

    let a1 = achronon(1, "rot90", "Rotate 90");
    let a2 = achronon(2, "rot90", "Rotate 90 more");
    let batch_ops = ops.batch_operators(&[a1, a2]).unwrap();
    assert_eq!(batch_ops.len(), 2);

    // T_batch = T_2 * T_1
    let mut fused = batch_ops[0].clone();
    for op in &batch_ops[1..] {
        fused = op.matmul(&fused).unwrap();
    }
    let state = apply(&fused, &state);

    let result: Vec<f32> = state.to_vec1().unwrap();
    assert!((result[0] - (-1.0)).abs() < 1e-6);
    assert!((result[1] - 0.0).abs() < 1e-6);
}

#[test]
fn test_subspace_commutativity() {
    let block = vec![vec![0.0f32, -1.0], vec![1.0, 0.0]];
    let mut ops = OperatorTable::new();
    let t0 = embed_subspace_block(0.0f32, 1.0f32, 0, 2, 4, &block);
    let t1 = embed_subspace_block(0.0f32, 1.0f32, 1, 2, 4, &block);
    ops.insert("rot0".into(), Tensor::from_vec(t0, (4, 4), &Device::Cpu).unwrap());
    ops.insert("rot1".into(), Tensor::from_vec(t1, (4, 4), &Device::Cpu).unwrap());

    let t0 = ops.get("rot0").unwrap();
    let t1 = ops.get("rot1").unwrap();

    let t0t1 = t0.matmul(t1).unwrap();
    let t1t0 = t1.matmul(t0).unwrap();

    let diff = (t0t1 - t1t0).unwrap().abs().unwrap().sum_all().unwrap().to_vec0::<f32>().unwrap();
    assert!(diff < 1e-6);
}

#[test]
fn embedding_places_block_on_identity() {
    let block = vec![vec![5i64, 6], vec![7, 8]];
    let m = embed_subspace_block(0i64, 1i64, 1, 2, 5, &block);
    let expected = vec![
        1, 0, 0, 0, 0, //
        0, 1, 0, 0, 0, //
        0, 0, 5, 6, 0, //
        0, 0, 7, 8, 0, //
        0, 0, 0, 0, 1,
    ];
    assert_eq!(m, expected);
}

#[test]
fn embedding_of_empty_block_is_identity() {
    let block: Vec<Vec<i64>> = vec![];
    let m = embed_subspace_block(0i64, 1i64, 7, 0, 2, &block);
    assert_eq!(m, vec![1, 0, 0, 1]);
}

#[test]
fn embedding_uses_only_the_leading_square_of_a_larger_block() {
    let block = vec![vec![2i64, 3, 99], vec![4, 5, 99], vec![99, 99, 99]];
    let m = embed_subspace_block(0i64, 1i64, 0, 2, 2, &block);
    assert_eq!(m, vec![2, 3, 4, 5]);
}

#[test]
fn table_insert_replaces_and_get_reads_back() {
    let mut ops: OperatorTable<i32> = OperatorTable::new();
    assert!(ops.get("a").is_none());
    ops.insert("a".into(), 1);
    ops.insert("b".into(), 2);
    ops.insert("a".into(), 3);
    assert_eq!(ops.get("a"), Some(&3));
    assert_eq!(ops.get("b"), Some(&2));
    assert!(ops.get("c").is_none());
}

#[test]
fn missing_operator_is_reported_by_name() {
    let mut ops: OperatorTable<i32> = OperatorTable::new();
    ops.insert("rot0".into(), 1);
    let good = achronon(1, "rot0", "ok");
    let bad = achronon(2, "warp", "missing");
    let worse = achronon(3, "fold", "also missing");
    assert_eq!(ops.operator_for(&good), Ok(&1));
    assert_eq!(ops.operator_for(&bad), Err("Operator warp not found".to_string()));
    assert_eq!(
        ops.batch_operators(&[good.clone(), bad, worse]),
        Err("Operator warp not found".to_string())
    );
    assert_eq!(ops.batch_operators(&[good.clone(), good]), Ok(vec![&1, &1]));
    assert_eq!(ops.batch_operators(&[]), Ok(vec![]));
}

fn matmul(a: &[i64], b: &[i64], n: usize) -> Vec<i64> {
    let mut out = vec![0i64; n * n];
    for i in 0..n {
        for j in 0..n {
            out[i * n + j] = (0..n).map(|k| a[i * n + k] * b[k * n + j]).sum();
        }
    }
    out
}

#[test]
fn integer_operators_on_disjoint_subspaces_commute() {
    let b0 = vec![vec![2i64, 3], vec![5, 7]];
    let b1 = vec![vec![11i64, 13, 17], vec![19, 23, 29], vec![31, 37, 41]];
    let n = 6;
    let e0 = embed_subspace_block(0i64, 1i64, 0, 2, n, &b0);
    let e1 = embed_subspace_block(0i64, 1i64, 1, 3, n, &b1);
    assert_eq!(matmul(&e0, &e1, n), matmul(&e1, &e0, n));
    // Overlapping blocks need not commute.
    let e2 = embed_subspace_block(0i64, 1i64, 0, 3, n, &b1);
    assert_ne!(matmul(&e0, &e2, n), matmul(&e2, &e0, n));
}
