use vstd::prelude::*;
use vstd::string::StringExecFns;

verus! {

/// Metrics for evaluating algorithms.
#[derive(PartialEq, Eq, Structural, Clone, Copy, Debug)]
pub enum Metric {
    /// Sort by R^2
    RSquared,
    /// Sort by MAE
    MeanAbsoluteError,
    /// Sort by MSE
    MeanSquaredError,
    /// Sort by Accuracy
    Accuracy,
    /// No metric chosen yet; ranking cannot proceed from here
    Unset,
}

impl Metric {
    pub open spec fn is_set_spec(self) -> bool {
        self != Metric::Unset
    }

    /// Whether a larger score is a better one (R^2 and accuracy); error
    /// metrics are better when smaller.
    pub open spec fn higher_is_better_spec(self) -> bool {
        self == Metric::RSquared || self == Metric::Accuracy
    }

    pub open spec fn name_spec(self) -> Seq<char> {
        match self {
            Metric::RSquared => "R^2"@,
            Metric::MeanAbsoluteError => "MAE"@,
            Metric::MeanSquaredError => "MSE"@,
            Metric::Accuracy => "Accuracy"@,
            Metric::Unset => Seq::empty(),
        }
    }

    /// Whether a metric has been chosen.
    pub fn is_set(&self) -> (r: bool)
        ensures
            r == self.is_set_spec(),
    {
        !matches!(self, Metric::Unset)
    }

    /// Whether a larger score ranks first under this metric.
    pub fn higher_is_better(&self) -> (r: bool)
        ensures
            r == self.higher_is_better_spec(),
    {
        matches!(self, Metric::RSquared | Metric::Accuracy)
    }

    /// Short name of the metric.
    pub fn name(&self) -> (r: String)
        requires
            self.is_set_spec(),
        ensures
            r@ == self.name_spec(),
    {
        match self {
            Metric::RSquared => String::from_str("R^2"),
            Metric::MeanAbsoluteError => String::from_str("MAE"),
            Metric::MeanSquaredError => String::from_str("MSE"),
            Metric::Accuracy => String::from_str("Accuracy"),
            Metric::Unset => String::new(),
        }
    }
}

} // verus!
