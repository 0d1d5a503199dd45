use vstd::prelude::*;

verus! {

/// Errors that abort a whole operation.
#[derive(PartialEq, Eq, Structural, Clone, Copy, Debug)]
pub enum AutoMlError {
    /// No metric was chosen to rank by.
    UnsetMetric,
    /// The number of cross-validation folds is out of range.
    InvalidFoldCount,
    /// The blending fractions are out of range or add up to more than the whole.
    InvalidBlendingFractions,
    /// The algorithm does not belong to the family the settings were made for.
    FamilyMismatch,
    /// The row order does not list every row exactly once.
    InvalidRowOrder,
    /// The dataset has too few rows for the requested split.
    InsufficientData,
    /// A prediction was asked for while no final model exists.
    NoFinalModel,
}

} // verus!
