use automl::algorithm::family_algorithms;
use automl::{
    Algorithm, AutoMlError, DecisionTreeClassifierParameters, DecisionTreeRegressorParameters,
    Family, FinalModel, LinearRegressionParameters, Metric, PreProcessing,
    RandomForestClassifierParameters, RandomForestRegressorParameters, Settings,
};

#[test]
fn default_regression_activates_whole_family() {
    let s = Settings::default_regression();
    let active = s.active_algorithms();
    assert_eq!(active, family_algorithms(Family::Regression));
    assert_eq!(active.len(), 8);
    assert_eq!(s.number_of_folds, 10);
    assert_eq!(s.sort_by, Metric::RSquared);
    assert!(!s.shuffle);
    assert!(!s.verbose);
    assert_eq!(s.preprocessing, PreProcessing::Nothing);
    assert_eq!(s.final_model_approach, FinalModel::Best);
}

#[test]
fn default_classification_activates_whole_family() {
    let s = Settings::default_classification();
    let active = s.active_algorithms();
    assert_eq!(active.len(), 7);
    assert_eq!(active[0], Algorithm::DecisionTreeClassifier);
    assert_eq!(active[6], Algorithm::CategoricalNaiveBayes);
    assert_eq!(s.sort_by, Metric::Accuracy);
}

#[test]
fn skip_linear_removes_only_linear() {
    let s = Settings::default_regression().skip(Algorithm::Linear);
    let active = s.active_algorithms();
    assert_eq!(
        active,
        vec![
            Algorithm::DecisionTreeRegressor,
            Algorithm::KNNRegressor,
            Algorithm::RandomForestRegressor,
            Algorithm::Ridge,
            Algorithm::Lasso,
            Algorithm::ElasticNet,
            Algorithm::SVR,
        ]
    );
}

#[test]
fn repeated_skips_accumulate() {
    let s = Settings::default_regression()
        .skip(Algorithm::DecisionTreeRegressor)
        .skip(Algorithm::Ridge);
    assert_eq!(s.skiplist, vec![Algorithm::DecisionTreeRegressor, Algorithm::Ridge]);
    let active = s.active_algorithms();
    assert_eq!(active.len(), 6);
    assert!(!active.contains(&Algorithm::Ridge));
    assert!(!active.contains(&Algorithm::DecisionTreeRegressor));
    assert!(s.is_skipped(Algorithm::Ridge));
    assert!(!s.is_skipped(Algorithm::Lasso));
}

#[test]
fn skipping_other_family_leaves_active_set() {
    let s = Settings::default_regression().skip(Algorithm::SVC);
    assert_eq!(s.skiplist, vec![Algorithm::SVC]);
    assert_eq!(s.active_algorithms(), family_algorithms(Family::Regression));
}

#[test]
fn zero_folds_are_refused() {
    let r = Settings::default_regression().with_number_of_folds(0);
    assert_eq!(r.unwrap_err(), AutoMlError::InvalidFoldCount);
    let s = Settings::default_regression().with_number_of_folds(3).unwrap();
    assert_eq!(s.number_of_folds, 3);
}

#[test]
fn fluent_mutators_overwrite() {
    let s = Settings::default_regression()
        .shuffle_data(true)
        .verbose(true)
        .sorted_by(Metric::MeanAbsoluteError)
        .sorted_by(Metric::MeanSquaredError)
        .with_preprocessing(PreProcessing::AddInteractions);
    assert!(s.shuffle);
    assert!(s.verbose);
    assert_eq!(s.sort_by, Metric::MeanSquaredError);
    assert_eq!(s.preprocessing, PreProcessing::AddInteractions);
}

#[test]
fn blending_fractions_are_checked() {
    let bad = FinalModel::Blending {
        algorithm: Algorithm::Linear,
        meta_training_fraction: 600,
        meta_testing_fraction: 500,
    };
    let r = Settings::default_regression().with_final_model(bad);
    assert_eq!(r.unwrap_err(), AutoMlError::InvalidBlendingFractions);
    let s = Settings::default_regression()
        .with_final_model(FinalModel::default_blending())
        .unwrap();
    assert_eq!(s.final_model_approach, FinalModel::default_blending());
}

#[test]
fn default_blending_values() {
    assert_eq!(
        FinalModel::default_blending(),
        FinalModel::Blending {
            algorithm: Algorithm::Linear,
            meta_training_fraction: 150,
            meta_testing_fraction: 150,
        }
    );
}

#[test]
fn names_and_descriptions() {
    assert_eq!(Algorithm::Lasso.name(), "LASSO Regressor");
    assert_eq!(Algorithm::SVC.name(), "Support Vector Classifier");
    assert_eq!(Algorithm::GaussianNaiveBayes.name(), "Gaussian Naive Bayes");
    assert_eq!(Metric::RSquared.name(), "R^2");
    assert_eq!(Metric::MeanSquaredError.name(), "MSE");
    assert!(!Metric::Unset.is_set());
    assert!(Metric::Accuracy.higher_is_better());
    assert!(!Metric::MeanAbsoluteError.higher_is_better());
    assert_eq!(PreProcessing::Nothing.describe(), "None");
    assert_eq!(
        PreProcessing::AddPolynomial { order: 3 }.describe(),
        "Polynomial terms added (order = 3)"
    );
    assert_eq!(
        PreProcessing::ReplaceWithPCA { number_of_components: 120 }.describe(),
        "Replaced with PCA features (n = 120)"
    );
    assert_eq!(
        PreProcessing::ReplaceWithSVD { number_of_components: 7 }.describe(),
        "Replaced with SVD features (n = 7)"
    );
}

#[test]
fn registry_order_and_families() {
    for i in 0..15 {
        let a = Algorithm::from_index(i);
        assert_eq!(a.index(), i);
        let expected = if i < 8 { Family::Regression } else { Family::Classification };
        assert_eq!(a.family(), expected);
    }
}

#[test]
fn parameter_bundles_follow_family() {
    let reg = Settings::default_regression();
    assert!(reg.linear_settings.is_some());
    assert!(reg.decision_tree_regressor_settings.is_some());
    assert!(reg.random_forest_regressor_settings.is_some());
    assert!(reg.decision_tree_classifier_settings.is_none());
    assert!(reg.random_forest_classifier_settings.is_none());

    let tuned = reg
        .clone()
        .with_decision_tree_regressor_settings(
            DecisionTreeRegressorParameters::default().with_max_depth(5),
        )
        .unwrap();
    assert_eq!(tuned.decision_tree_regressor_settings.unwrap().max_depth, Some(5));
    assert!(reg.clone().with_linear_settings(LinearRegressionParameters::default()).is_ok());
    assert!(reg
        .clone()
        .with_random_forest_regressor_settings(RandomForestRegressorParameters::default())
        .is_ok());
    assert_eq!(
        reg.clone()
            .with_random_forest_classifier_settings(RandomForestClassifierParameters::default())
            .unwrap_err(),
        AutoMlError::FamilyMismatch
    );

    let cls = Settings::default_classification();
    assert!(cls.random_forest_classifier_settings.is_some());
    assert!(cls.linear_settings.is_none());
    assert_eq!(
        cls.clone().with_linear_settings(LinearRegressionParameters::default()).unwrap_err(),
        AutoMlError::FamilyMismatch
    );
    let tuned = cls
        .with_decision_tree_classifier_settings(
            DecisionTreeClassifierParameters::default().with_min_samples_leaf(20),
        )
        .unwrap();
    assert_eq!(tuned.decision_tree_classifier_settings.unwrap().min_samples_leaf, 20);
}
