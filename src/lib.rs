//! Configuration, cross-validation and ranking for comparing machine-learning
//! algorithms, with a blended final model.
pub mod algorithm;
pub mod blending;
pub mod comparison;
pub mod error;
pub mod folds;
pub mod metric;
pub mod parameters;
pub mod ranking;
pub mod settings;
pub mod utils;

pub use algorithm::{Algorithm, Family};
pub use blending::{BlendingSplit, FinalPlan};
pub use comparison::{ComparisonPlan, ComparisonReport};
pub use error::AutoMlError;
pub use folds::Fold;
pub use metric::Metric;
pub use ranking::{ComparisonEntry, Evaluation};
pub use settings::{FinalModel, PreProcessing, Settings};
pub use smartcore::ensemble::random_forest_classifier::RandomForestClassifierParameters;
pub use smartcore::ensemble::random_forest_regressor::RandomForestRegressorParameters;
pub use smartcore::linear::linear_regression::LinearRegressionParameters;
pub use smartcore::tree::decision_tree_classifier::DecisionTreeClassifierParameters;
pub use smartcore::tree::decision_tree_regressor::DecisionTreeRegressorParameters;
pub use utils::{debug_option, print_option, Distance};
