use automl::blending::{blending_split, plan_final_model, stack_predictions};
use automl::comparison::build_report;
use automl::{
    Algorithm, AutoMlError, BlendingSplit, Evaluation, FinalModel, FinalPlan, Metric, Settings,
};

#[test]
fn split_by_thousandths() {
    assert_eq!(
        blending_split(100, 150, 150),
        Ok(BlendingSplit { training_end: 15, testing_end: 30 })
    );
    assert_eq!(
        blending_split(10, 500, 300),
        Ok(BlendingSplit { training_end: 5, testing_end: 8 })
    );
}

#[test]
fn split_errors() {
    assert_eq!(blending_split(100, 700, 400), Err(AutoMlError::InvalidBlendingFractions));
    assert_eq!(blending_split(5, 150, 150), Err(AutoMlError::InsufficientData));
    assert_eq!(blending_split(100, 0, 150), Err(AutoMlError::InsufficientData));
}

#[test]
fn meta_learner_gets_one_value_per_base_model() {
    // three stub base models predicting on two rows
    let base: Vec<Vec<f32>> = vec![vec![1.0, 2.0], vec![10.0, 20.0], vec![100.0, 200.0]];
    let stacked = stack_predictions(&base, 2);
    assert_eq!(stacked, vec![vec![1.0, 10.0, 100.0], vec![2.0, 20.0, 200.0]]);
    for row in &stacked {
        assert_eq!(row.len(), base.len());
    }
}

#[test]
fn final_model_choices() {
    let s = Settings::default_regression().sorted_by(Metric::MeanSquaredError);
    let evals = vec![
        Evaluation { algorithm: Algorithm::Ridge, score: Some(9) },
        Evaluation { algorithm: Algorithm::Lasso, score: Some(3) },
    ];
    let report = build_report(&s, &evals).unwrap();
    match plan_final_model(&s, &report, 100).unwrap() {
        FinalPlan::Best { algorithm } => assert_eq!(algorithm, Algorithm::Lasso),
        _ => panic!("expected the best model"),
    }

    let blending = s.clone().with_final_model(FinalModel::default_blending()).unwrap();
    match plan_final_model(&blending, &report, 100).unwrap() {
        FinalPlan::Blending { meta_learner, base, split } => {
            assert_eq!(meta_learner, Algorithm::Linear);
            assert_eq!(base, blending.active_algorithms());
            assert_eq!(split, BlendingSplit { training_end: 15, testing_end: 30 });
        }
        _ => panic!("expected a blending model"),
    }

    let none = s.with_final_model(FinalModel::Nothing).unwrap();
    assert_eq!(plan_final_model(&none, &report, 100).unwrap_err(), AutoMlError::NoFinalModel);
}
