use automl::comparison::build_report;
use automl::ranking::{failed_algorithms, rank};
use automl::{Algorithm, AutoMlError, ComparisonEntry, Evaluation, Metric, Settings};

/// Order-preserving key of a non-negative score.
fn key(x: f32) -> u64 {
    x.to_bits() as u64
}

fn scored(algorithm: Algorithm, x: f32) -> Evaluation {
    Evaluation { algorithm, score: Some(key(x)) }
}

fn scores(entries: &[ComparisonEntry]) -> Vec<u64> {
    entries.iter().map(|e| e.score).collect()
}

#[test]
fn error_metrics_rank_ascending() {
    let evals = vec![
        scored(Algorithm::Linear, 0.5),
        scored(Algorithm::Ridge, 0.2),
        scored(Algorithm::Lasso, 0.8),
    ];
    let ranked = rank(Metric::MeanSquaredError, &evals).unwrap();
    assert_eq!(scores(&ranked), vec![key(0.2), key(0.5), key(0.8)]);
    assert_eq!(ranked[0].algorithm, Algorithm::Ridge);
}

#[test]
fn accuracy_ranks_descending() {
    let evals = vec![
        scored(Algorithm::SVC, 0.7),
        scored(Algorithm::LogisticRegression, 0.9),
        scored(Algorithm::GaussianNaiveBayes, 0.5),
    ];
    let ranked = rank(Metric::Accuracy, &evals).unwrap();
    assert_eq!(scores(&ranked), vec![key(0.9), key(0.7), key(0.5)]);
    assert_eq!(ranked[0].algorithm, Algorithm::LogisticRegression);
}

#[test]
fn equal_scores_keep_registry_order() {
    let evals = vec![
        scored(Algorithm::Lasso, 0.3),
        scored(Algorithm::KNNRegressor, 0.3),
        scored(Algorithm::Linear, 0.3),
    ];
    for _ in 0..3 {
        let ranked = rank(Metric::MeanAbsoluteError, &evals).unwrap();
        let algs: Vec<Algorithm> = ranked.iter().map(|e| e.algorithm).collect();
        assert_eq!(algs, vec![Algorithm::KNNRegressor, Algorithm::Linear, Algorithm::Lasso]);
    }
}

#[test]
fn failed_algorithm_is_left_out() {
    let evals = vec![
        scored(Algorithm::DecisionTreeRegressor, 0.4),
        Evaluation { algorithm: Algorithm::KNNRegressor, score: None },
        scored(Algorithm::Linear, 0.6),
    ];
    let ranked = rank(Metric::RSquared, &evals).unwrap();
    let algs: Vec<Algorithm> = ranked.iter().map(|e| e.algorithm).collect();
    assert_eq!(algs, vec![Algorithm::Linear, Algorithm::DecisionTreeRegressor]);
    assert_eq!(failed_algorithms(&evals), vec![Algorithm::KNNRegressor]);
}

#[test]
fn unset_metric_cannot_rank() {
    let evals = vec![scored(Algorithm::Linear, 0.5)];
    assert_eq!(rank(Metric::Unset, &evals).unwrap_err(), AutoMlError::UnsetMetric);
}

#[test]
fn report_separates_skipped_and_failed() {
    let s = Settings::default_regression()
        .skip(Algorithm::SVR)
        .sorted_by(Metric::MeanSquaredError);
    let evals = vec![
        scored(Algorithm::Ridge, 0.9),
        Evaluation { algorithm: Algorithm::Lasso, score: None },
        scored(Algorithm::ElasticNet, 0.1),
    ];
    let report = build_report(&s, &evals).unwrap();
    assert_eq!(report.skipped, vec![Algorithm::SVR]);
    assert_eq!(report.failed, vec![Algorithm::Lasso]);
    assert_eq!(report.entries.len(), 2);
    assert_eq!(report.entries[0].algorithm, Algorithm::ElasticNet);
    let unset = s.sorted_by(Metric::Unset);
    assert_eq!(build_report(&unset, &evals).unwrap_err(), AutoMlError::UnsetMetric);
}
