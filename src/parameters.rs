//! Hyperparameter bundles of smartcore that the settings carry.
use vstd::prelude::*;

verus! {

#[verifier::external_type_specification]
#[verifier::external_body]
pub struct ExLinearRegressionParameters(
    smartcore::linear::linear_regression::LinearRegressionParameters,
);

#[verifier::external_type_specification]
#[verifier::external_body]
pub struct ExDecisionTreeRegressorParameters(
    smartcore::tree::decision_tree_regressor::DecisionTreeRegressorParameters,
);

#[verifier::external_type_specification]
#[verifier::external_body]
pub struct ExRandomForestRegressorParameters(
    smartcore::ensemble::random_forest_regressor::RandomForestRegressorParameters,
);

#[verifier::external_type_specification]
#[verifier::external_body]
pub struct ExDecisionTreeClassifierParameters(
    smartcore::tree::decision_tree_classifier::DecisionTreeClassifierParameters,
);

#[verifier::external_type_specification]
#[verifier::external_body]
pub struct ExRandomForestClassifierParameters(
    smartcore::ensemble::random_forest_classifier::RandomForestClassifierParameters,
);

/// Relies on smartcore's default linear regression parameters (SVD solver).
pub assume_specification[
    <smartcore::linear::linear_regression::LinearRegressionParameters as core::default::Default>::default
]() -> smartcore::linear::linear_regression::LinearRegressionParameters;

/// Relies on smartcore's default decision tree regression parameters.
pub assume_specification[
    <smartcore::tree::decision_tree_regressor::DecisionTreeRegressorParameters as core::default::Default>::default
]() -> smartcore::tree::decision_tree_regressor::DecisionTreeRegressorParameters;

/// Relies on smartcore's default random forest regression parameters.
pub assume_specification[
    <smartcore::ensemble::random_forest_regressor::RandomForestRegressorParameters as core::default::Default>::default
]() -> smartcore::ensemble::random_forest_regressor::RandomForestRegressorParameters;

/// Relies on smartcore's default decision tree classification parameters.
pub assume_specification[
    <smartcore::tree::decision_tree_classifier::DecisionTreeClassifierParameters as core::default::Default>::default
]() -> smartcore::tree::decision_tree_classifier::DecisionTreeClassifierParameters;

/// Relies on smartcore's default random forest classification parameters.
pub assume_specification[
    <smartcore::ensemble::random_forest_classifier::RandomForestClassifierParameters as core::default::Default>::default
]() -> smartcore::ensemble::random_forest_classifier::RandomForestClassifierParameters;

} // verus!
