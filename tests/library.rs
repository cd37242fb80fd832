use ruvscan_sublinear::diagnostics::SolveMethod;
use ruvscan_sublinear::service::{ANALYSIS_COMPLEXITY, COMPARE_METHOD};
use ruvscan_sublinear::{
    check_corpus_dimensions, check_same_dimension, complexity_label, densify, is_sparse,
    rank_scores, CoreError, ProjectorShape, SublinearServiceImpl, VERSION,
};

fn bits(xs: &[f64]) -> Vec<u64> {
    xs.iter().map(|x| x.to_bits()).collect()
}

fn log_bound(n: usize, eps: f64) -> usize {
    ((n as f64).ln() / (eps * eps)).ceil() as usize
}

#[test]
fn test_version() {
    assert!(!VERSION.is_empty());
}

#[test]
fn test_jl_projection() {
    let source_dim = 1000;
    let distortion = 0.5;

    let jl = ProjectorShape::new(source_dim, f64::to_bits(distortion), log_bound(source_dim, distortion))
        .unwrap();

    assert!(jl.target_dimension < source_dim);
    assert_eq!([jl.target_dimension, jl.source_dimension], [jl.target_dimension, source_dim]);
}

#[test]
fn rank_orders_by_descending_score_with_ties_by_index() {
    let scores = bits(&[0.5, 0.9, 0.5, -0.3, 0.1]);
    assert_eq!(rank_scores(&scores, 10), vec![1, 0, 2, 4, 3]);
}

#[test]
fn rank_truncates_to_max_results() {
    let scores = bits(&[0.5, 0.9, 0.5, -0.3, 0.1]);
    assert_eq!(rank_scores(&scores, 2), vec![1, 0]);
    assert_eq!(rank_scores(&scores, 0), Vec::<usize>::new());
}

#[test]
fn rank_length_is_min_of_max_results_and_corpus() {
    let scores = bits(&[0.2, -1.0, 0.7]);
    for m in 0..6 {
        let r = rank_scores(&scores, m);
        assert_eq!(r.len(), m.min(3));
        let mut seen = r.clone();
        seen.sort();
        seen.dedup();
        assert_eq!(seen.len(), r.len());
    }
}

#[test]
fn rank_leaves_out_nan_scores() {
    let scores = bits(&[0.1, f64::NAN, 0.3]);
    assert_eq!(rank_scores(&scores, 10), vec![2, 0]);
}

#[test]
fn rank_treats_signed_zeros_as_equal() {
    let scores = bits(&[-0.0, 0.0, -0.5, f64::INFINITY, f64::NEG_INFINITY]);
    assert_eq!(rank_scores(&scores, 10), vec![3, 0, 1, 2, 4]);
}

#[test]
fn rank_of_empty_corpus_is_empty() {
    assert_eq!(rank_scores(&Vec::new(), 5), Vec::<usize>::new());
}

#[test]
fn corpus_rows_must_match_query() {
    assert_eq!(check_corpus_dimensions(3, &vec![3, 3]), Ok(()));
    assert_eq!(check_corpus_dimensions(3, &vec![3, 2]), Err(CoreError::DimensionMismatch));
    assert_eq!(check_same_dimension(4, 4), Ok(()));
    assert_eq!(check_same_dimension(4, 5), Err(CoreError::DimensionMismatch));
}

#[test]
fn projector_target_dimension_for_thousand() {
    let shape = ProjectorShape::new(1000, 0.5f64.to_bits(), log_bound(1000, 0.5)).unwrap();
    assert_eq!(shape.target_dimension, 28);
    assert!(shape.target_dimension < 1000);
    assert_eq!(shape.source_dimension, 1000);
}

#[test]
fn projector_target_dimension_is_at_least_four() {
    let shape = ProjectorShape::new(1, 0.9f64.to_bits(), log_bound(1, 0.9)).unwrap();
    assert_eq!(shape.target_dimension, 4);
    let shape = ProjectorShape::new(3, 0.99f64.to_bits(), log_bound(3, 0.99)).unwrap();
    assert_eq!(shape.target_dimension, 4);
}

#[test]
fn projector_grows_as_distortion_shrinks() {
    let wide = ProjectorShape::new(1000, 0.5f64.to_bits(), log_bound(1000, 0.5)).unwrap();
    let tight = ProjectorShape::new(1000, 0.1f64.to_bits(), log_bound(1000, 0.1)).unwrap();
    assert!(tight.target_dimension > wide.target_dimension);
}

#[test]
fn projector_rejects_degenerate_parameters() {
    let d = Err(CoreError::DegenerateInput);
    assert_eq!(ProjectorShape::new(0, 0.5f64.to_bits(), 4), d);
    assert_eq!(ProjectorShape::new(10, 0.0f64.to_bits(), 4), d);
    assert_eq!(ProjectorShape::new(10, (-0.5f64).to_bits(), 4), d);
    assert_eq!(ProjectorShape::new(10, 1.0f64.to_bits(), 4), d);
    assert_eq!(ProjectorShape::new(10, 1.5f64.to_bits(), 4), d);
    assert_eq!(ProjectorShape::new(10, f64::NAN.to_bits(), 4), d);
}

#[test]
fn projector_checks_vector_dimensions() {
    let shape = ProjectorShape::new(5, 0.5f64.to_bits(), log_bound(5, 0.5)).unwrap();
    assert_eq!(shape.check_vector(5), Ok(()));
    assert_eq!(shape.check_vector(4), Err(CoreError::DimensionMismatch));
    assert_eq!(shape.check_batch(&vec![5, 5, 5]), Ok(()));
    assert_eq!(shape.check_batch(&vec![5, 6]), Err(CoreError::DimensionMismatch));
}

#[test]
fn densify_places_triples() {
    let m = densify(2, 3, &vec![0, 1, 1], &vec![2, 0, 1], &vec![7.0, 8.0, 9.0], 0.0).unwrap();
    assert_eq!((m.rows, m.cols), (2, 3));
    assert_eq!(m.data, vec![0.0, 0.0, 7.0, 8.0, 9.0, 0.0]);
    assert_eq!(m.get(0, 2), 7.0);
    assert_eq!(m.get(1, 1), 9.0);
    assert!(!m.is_square());
}

#[test]
fn densify_later_triple_wins() {
    let m = densify(2, 2, &vec![0, 0], &vec![1, 1], &vec![3.0, 4.0], 0.0).unwrap();
    assert_eq!(m.get(0, 1), 4.0);
}

#[test]
fn densify_rejects_malformed_triples() {
    let e = Err(CoreError::ShapeError);
    assert_eq!(densify(2, 2, &vec![0], &vec![0, 1], &vec![1.0], 0.0).map(|m| m.data), e);
    assert_eq!(densify(2, 2, &vec![2], &vec![0], &vec![1.0], 0.0).map(|m| m.data), e);
    assert_eq!(densify(2, 2, &vec![0], &vec![-1], &vec![1.0], 0.0).map(|m| m.data), e);
}

#[test]
fn sparsity_is_strictly_under_a_third() {
    assert!(!is_sparse(3, 3, 3));
    assert!(is_sparse(2, 3, 3));
    assert!(is_sparse(3, 10, 1));
    assert!(!is_sparse(0, 0, 5));
}

#[test]
fn recommended_method_table() {
    assert_eq!(SolveMethod::recommend(true, true), SolveMethod::Neumann);
    assert_eq!(SolveMethod::recommend(true, false), SolveMethod::Neumann);
    assert_eq!(SolveMethod::recommend(false, true), SolveMethod::ForwardPush);
    assert_eq!(SolveMethod::recommend(false, false), SolveMethod::Direct);
    assert_eq!(SolveMethod::Neumann.label(), "neumann");
    assert_eq!(SolveMethod::ForwardPush.label(), "forward-push");
    assert_eq!(SolveMethod::Direct.label(), "direct");
}

#[test]
fn identity_matrix_analysis() {
    let service = SublinearServiceImpl;
    let s = service
        .analyze_structure(3, 3, &vec![0, 1, 2], &vec![0, 1, 2], &vec![1.0f64, 1.0, 1.0], 0.0)
        .unwrap();
    assert!(!s.is_sparse);
    let m = &s.dense;
    let mut symmetric = true;
    let mut dominant = true;
    for i in 0..3 {
        let off: f64 = (0..3).filter(|&j| j != i).map(|j| m.get(i, j).abs()).sum();
        if m.get(i, i).abs() <= off {
            dominant = false;
        }
        for j in 0..3 {
            if (m.get(i, j) - m.get(j, i)).abs() > 1e-10 {
                symmetric = false;
            }
        }
    }
    assert!(symmetric);
    assert!(dominant);
    assert_eq!(SolveMethod::recommend(dominant, s.is_sparse).label(), "neumann");
}

#[test]
fn analysis_errors() {
    let service = SublinearServiceImpl;
    let r = service.analyze_structure(2, 2, &vec![0, 5], &vec![0, 0], &vec![1.0, 1.0], 0.0);
    assert_eq!(r.map(|s| s.is_sparse), Err(CoreError::ShapeError));
    let r = service.analyze_structure(usize::MAX, 2, &vec![], &vec![], &Vec::<f64>::new(), 0.0);
    assert_eq!(r.map(|s| s.is_sparse), Err(CoreError::DegenerateInput));
}

#[test]
fn complexity_labels() {
    assert_eq!(complexity_label(1000), "O(log 1000)");
    assert_eq!(complexity_label(0), "O(log 0)");
    assert_eq!(complexity_label(5), "O(log 5)");
    assert_eq!(complexity_label(90), "O(log 90)");
    assert!(complexity_label(12).contains("O(log"));
    assert_eq!(ANALYSIS_COMPLEXITY, "O(log n)");
    assert_eq!(COMPARE_METHOD, "sublinear_jl");
}

#[test]
fn solve_reports_unimplemented() {
    let service = SublinearServiceImpl;
    assert_eq!(service.solve_true_sublinear(&vec![1.0, 2.0]), Err(CoreError::Unimplemented));
}

#[test]
fn prepare_requests() {
    let service = SublinearServiceImpl;
    let half = 0.5f64.to_bits();
    assert_eq!(service.prepare_comparison(3, 4, half, 5), Err(CoreError::DimensionMismatch));
    assert_eq!(service.prepare_comparison(0, 0, half, 0), Err(CoreError::DegenerateInput));
    let shape = service.prepare_comparison(5, 5, half, log_bound(5, 0.5)).unwrap();
    assert_eq!(shape.target_dimension, 7);
    assert_eq!(
        service.prepare_search(3, &vec![3, 4], half, 5),
        Err(CoreError::DimensionMismatch)
    );
    assert_eq!(
        service.prepare_search(3, &vec![3], 2.0f64.to_bits(), 5),
        Err(CoreError::DegenerateInput)
    );
    assert_eq!(service.prepare_search(3, &vec![3, 3], half, 2).unwrap().target_dimension, 4);
}
