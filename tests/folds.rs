use automl::comparison::{cross_validation_fold, plan_comparison};
use automl::folds::{check_row_order, fold_bounds, row_order};
use automl::{Algorithm, AutoMlError, Metric, Settings};

#[test]
fn fold_bounds_split_remainder_first() {
    assert_eq!(fold_bounds(10, 3, 0), (0, 4));
    assert_eq!(fold_bounds(10, 3, 1), (4, 7));
    assert_eq!(fold_bounds(10, 3, 2), (7, 10));
}

#[test]
fn held_out_rows_cover_every_row_once() {
    let order: Vec<usize> = vec![4, 9, 0, 7, 2, 5, 1, 8, 3, 6];
    let k = 4;
    let mut seen = vec![0usize; 10];
    for f in 0..k {
        let fold = cross_validation_fold(&order, k, f);
        assert_eq!(fold.train.len() + fold.test.len(), 10);
        for r in &fold.test {
            seen[*r] += 1;
            assert!(!fold.train.contains(r));
        }
    }
    assert_eq!(seen, vec![1; 10]);
}

#[test]
fn row_order_check() {
    assert!(check_row_order(&vec![2, 0, 1], 3));
    assert!(!check_row_order(&vec![2, 0, 2], 3));
    assert!(!check_row_order(&vec![0, 1, 3], 3));
    assert!(!check_row_order(&vec![0, 1], 3));
    assert!(check_row_order(&vec![], 0));
}

#[test]
fn plan_holds_active_algorithms_and_folds() {
    let s = Settings::default_regression()
        .with_number_of_folds(2)
        .unwrap()
        .skip(Algorithm::ElasticNet);
    let order: Vec<usize> = (0..5).collect();
    let plan = plan_comparison(&s, &order).unwrap();
    assert_eq!(plan.algorithms.len(), 7);
    assert!(!plan.algorithms.contains(&Algorithm::ElasticNet));
    assert_eq!(plan.folds.len(), 2);
    assert_eq!(plan.folds[0].test, vec![0, 1, 2]);
    assert_eq!(plan.folds[0].train, vec![3, 4]);
    assert_eq!(plan.folds[1].test, vec![3, 4]);
    assert_eq!(plan.folds[1].train, vec![0, 1, 2]);
}

#[test]
fn unset_metric_fails_before_any_training() {
    let s = Settings::default_regression().sorted_by(Metric::Unset);
    let order: Vec<usize> = (0..20).collect();
    let mut training_calls = 0;
    match plan_comparison(&s, &order) {
        Ok(plan) => {
            for _a in &plan.algorithms {
                for _f in &plan.folds {
                    training_calls += 1;
                }
            }
        }
        Err(e) => assert_eq!(e, AutoMlError::UnsetMetric),
    }
    assert_eq!(training_calls, 0);
}

#[test]
fn too_few_rows_are_refused() {
    let s = Settings::default_regression();
    let order: Vec<usize> = (0..9).collect();
    assert_eq!(plan_comparison(&s, &order).unwrap_err(), AutoMlError::InsufficientData);
}

#[test]
fn bad_row_order_is_refused() {
    let s = Settings::default_regression().with_number_of_folds(2).unwrap();
    let order: Vec<usize> = vec![0, 0, 1];
    assert_eq!(plan_comparison(&s, &order).unwrap_err(), AutoMlError::InvalidRowOrder);
}

#[test]
fn row_order_plain_and_shuffled() {
    assert_eq!(row_order(5, false, 7), vec![0, 1, 2, 3, 4]);
    let a = row_order(50, true, 42);
    let b = row_order(50, true, 42);
    assert_eq!(a, b);
    assert!(check_row_order(&a, 50));
    assert_ne!(a, row_order(50, false, 42));
    assert!(row_order(0, true, 1).is_empty());
}
