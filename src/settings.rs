use vstd::prelude::*;

use crate::algorithm::{family_algorithms, family_members, Algorithm, Family};
use crate::error::AutoMlError;
use crate::metric::Metric;
use smartcore::ensemble::random_forest_classifier::RandomForestClassifierParameters;
use smartcore::ensemble::random_forest_regressor::RandomForestRegressorParameters;
use smartcore::linear::linear_regression::LinearRegressionParameters;
use smartcore::tree::decision_tree_classifier::DecisionTreeClassifierParameters;
use smartcore::tree::decision_tree_regressor::DecisionTreeRegressorParameters;
use crate::utils::{decimal, decimal_string};
use vstd::string::StringExecFns;

verus! {

/// Whole of a blending fraction: fractions are written in thousandths.
pub const PERMILLE: u32 = 1000;

/// Options for pre-processing the data.
#[derive(PartialEq, Eq, Structural, Clone, Copy, Debug)]
pub enum PreProcessing {
    /// Don't do any preprocessing
    Nothing,
    /// Add interaction terms to the data
    AddInteractions,
    /// Add polynomial terms of order n to the data
    AddPolynomial {
        /// The order of the polynomial to add (i.e., x^order)
        order: usize,
    },
    /// Replace the data with n PCA terms
    ReplaceWithPCA {
        /// The number of components to use from PCA
        number_of_components: usize,
    },
    /// Replace the data with n SVD terms
    ReplaceWithSVD {
        /// The number of components to use from SVD
        number_of_components: usize,
    },
}

impl PreProcessing {
    pub open spec fn describe_spec(self) -> Seq<char> {
        match self {
            PreProcessing::Nothing => "None"@,
            PreProcessing::AddInteractions => "Interaction terms added"@,
            PreProcessing::AddPolynomial { order } => "Polynomial terms added (order = "@
                + decimal(order as nat) + ")"@,
            PreProcessing::ReplaceWithPCA { number_of_components } =>
                "Replaced with PCA features (n = "@ + decimal(number_of_components as nat) + ")"@,
            PreProcessing::ReplaceWithSVD { number_of_components } =>
                "Replaced with SVD features (n = "@ + decimal(number_of_components as nat) + ")"@,
        }
    }

    /// Human-readable description of the pre-processing.
    pub fn describe(&self) -> (r: String)
        ensures
            r@ == self.describe_spec(),
    {
        match self {
            PreProcessing::Nothing => String::from_str("None"),
            PreProcessing::AddInteractions => String::from_str("Interaction terms added"),
            PreProcessing::AddPolynomial { order } => {
                let mut s = String::from_str("Polynomial terms added (order = ");
                let digits = decimal_string(*order);
                s.append(digits.as_str());
                s.append(")");
                s
            },
            PreProcessing::ReplaceWithPCA { number_of_components } => {
                let mut s = String::from_str("Replaced with PCA features (n = ");
                let digits = decimal_string(*number_of_components);
                s.append(digits.as_str());
                s.append(")");
                s
            },
            PreProcessing::ReplaceWithSVD { number_of_components } => {
                let mut s = String::from_str("Replaced with SVD features (n = ");
                let digits = decimal_string(*number_of_components);
                s.append(digits.as_str());
                s.append(")");
                s
            },
        }
    }
}

/// Final model approach.
#[derive(PartialEq, Eq, Structural, Clone, Copy, Debug)]
pub enum FinalModel {
    /// Do not train a final model
    Nothing,
    /// Select the best model from the comparison set as the final model
    Best,
    /// Use a blending approach to produce a final model
    Blending {
        /// Which algorithm to use as a meta-learner
        algorithm: Algorithm,
        /// Share of the data, in thousandths, that trains the base models
        meta_training_fraction: u32,
        /// Share of the data, in thousandths, on which the base models predict
        /// to train the meta-learner
        meta_testing_fraction: u32,
    },
}

impl FinalModel {
    /// Whether the blending fractions, if any, add up to at most the whole.
    pub open spec fn wf(self) -> bool {
        match self {
            FinalModel::Blending { meta_training_fraction, meta_testing_fraction, .. } =>
                meta_training_fraction + meta_testing_fraction <= PERMILLE,
            _ => true,
        }
    }

    /// Default values for a blending model (linear regression, 30% of all data
    /// reserved for training the blending model).
    pub fn default_blending() -> (r: FinalModel)
        ensures
            r == (FinalModel::Blending {
                algorithm: Algorithm::Linear,
                meta_training_fraction: 150,
                meta_testing_fraction: 150,
            }),
            r.wf(),
    {
        FinalModel::Blending {
            algorithm: Algorithm::Linear,
            meta_training_fraction: 150,
            meta_testing_fraction: 150,
        }
    }
}

/// Settings of a comparison run.
#[derive(Clone, Debug)]
pub struct Settings {
    /// Family of algorithms the settings were made for
    pub family: Family,
    /// Number of cross-validation folds
    pub number_of_folds: usize,
    /// Whether to shuffle the rows once before splitting them into folds
    pub shuffle: bool,
    /// Whether to report progress and failures
    pub verbose: bool,
    /// Metric to rank the algorithms by
    pub sort_by: Metric,
    /// Algorithms left out of the comparison
    pub skiplist: Vec<Algorithm>,
    /// Pre-processing applied to the features
    pub preprocessing: PreProcessing,
    /// How the final model is built
    pub final_model_approach: FinalModel,
    /// Parameters of the linear regressor
    pub linear_settings: Option<LinearRegressionParameters>,
    /// Parameters of the decision tree regressor
    pub decision_tree_regressor_settings: Option<DecisionTreeRegressorParameters>,
    /// Parameters of the random forest regressor
    pub random_forest_regressor_settings: Option<RandomForestRegressorParameters>,
    /// Parameters of the decision tree classifier
    pub decision_tree_classifier_settings: Option<DecisionTreeClassifierParameters>,
    /// Parameters of the random forest classifier
    pub random_forest_classifier_settings: Option<RandomForestClassifierParameters>,
}

/// Whether the settings hold parameters for exactly the algorithms of their
/// own family.
pub open spec fn bundles_match_family(s: Settings) -> bool {
    let reg = s.family == Family::Regression;
    &&& (s.linear_settings is Some) == reg
    &&& (s.decision_tree_regressor_settings is Some) == reg
    &&& (s.random_forest_regressor_settings is Some) == reg
    &&& (s.decision_tree_classifier_settings is Some) == !reg
    &&& (s.random_forest_classifier_settings is Some) == !reg
}

/// Whether `a` takes part in a comparison run under these settings.
pub open spec fn is_active(s: Settings, a: Algorithm) -> bool {
    a.family_spec() == s.family && !s.skiplist@.contains(a)
}

/// The algorithms that take part in a comparison run.
pub open spec fn active_set(s: Settings) -> Set<Algorithm> {
    Set::new(|a: Algorithm| is_active(s, a))
}

impl Settings {
    /// Invariant kept by every constructor and mutator.
    pub open spec fn wf(self) -> bool {
        &&& self.number_of_folds >= 1
        &&& self.final_model_approach.wf()
        &&& bundles_match_family(self)
    }

    /// Settings with default values for the given family: 10 folds, no
    /// shuffle, not verbose, nothing skipped, no pre-processing, best model.
    pub fn default_for(family: Family) -> (r: Settings)
        ensures
            r.wf(),
            r.family == family,
            r.number_of_folds == 10,
            !r.shuffle,
            !r.verbose,
            r.sort_by == (match family {
                Family::Regression => Metric::RSquared,
                Family::Classification => Metric::Accuracy,
            }),
            r.skiplist@ == Seq::<Algorithm>::empty(),
            r.preprocessing == PreProcessing::Nothing,
            r.final_model_approach == FinalModel::Best,
    {
        let regression = family == Family::Regression;
        Settings {
            family,
            number_of_folds: 10,
            shuffle: false,
            verbose: false,
            sort_by: match family {
                Family::Regression => Metric::RSquared,
                Family::Classification => Metric::Accuracy,
            },
            skiplist: Vec::new(),
            preprocessing: PreProcessing::Nothing,
            final_model_approach: FinalModel::Best,
            linear_settings: if regression {
                Some(LinearRegressionParameters::default())
            } else {
                None
            },
            decision_tree_regressor_settings: if regression {
                Some(DecisionTreeRegressorParameters::default())
            } else {
                None
            },
            random_forest_regressor_settings: if regression {
                Some(RandomForestRegressorParameters::default())
            } else {
                None
            },
            decision_tree_classifier_settings: if regression {
                None
            } else {
                Some(DecisionTreeClassifierParameters::default())
            },
            random_forest_classifier_settings: if regression {
                None
            } else {
                Some(RandomForestClassifierParameters::default())
            },
        }
    }

    /// Replaces the linear regression parameters; refused outside regression.
    pub fn with_linear_settings(self, p: LinearRegressionParameters) -> (r: Result<
        Settings,
        AutoMlError,
    >)
        requires
            self.wf(),
        ensures
            self.family != Family::Regression ==> r == Err::<Settings, AutoMlError>(
                AutoMlError::FamilyMismatch,
            ),
            self.family == Family::Regression ==> r == Ok::<Settings, AutoMlError>(
                Settings { linear_settings: Some(p), ..self },
            ),
            r is Ok ==> r->Ok_0.wf(),
    {
        if self.family != Family::Regression {
            return Err(AutoMlError::FamilyMismatch);
        }
        Ok(Settings { linear_settings: Some(p), ..self })
    }

    /// Replaces the decision tree regression parameters; refused outside
    /// regression.
    pub fn with_decision_tree_regressor_settings(self, p: DecisionTreeRegressorParameters) -> (r: Result<
        Settings,
        AutoMlError,
    >)
        requires
            self.wf(),
        ensures
            self.family != Family::Regression ==> r == Err::<Settings, AutoMlError>(
                AutoMlError::FamilyMismatch,
            ),
            self.family == Family::Regression ==> r == Ok::<Settings, AutoMlError>(
                Settings { decision_tree_regressor_settings: Some(p), ..self },
            ),
            r is Ok ==> r->Ok_0.wf(),
    {
        if self.family != Family::Regression {
            return Err(AutoMlError::FamilyMismatch);
        }
        Ok(Settings { decision_tree_regressor_settings: Some(p), ..self })
    }

    /// Replaces the random forest regression parameters; refused outside
    /// regression.
    pub fn with_random_forest_regressor_settings(self, p: RandomForestRegressorParameters) -> (r: Result<
        Settings,
        AutoMlError,
    >)
        requires
            self.wf(),
        ensures
            self.family != Family::Regression ==> r == Err::<Settings, AutoMlError>(
                AutoMlError::FamilyMismatch,
            ),
            self.family == Family::Regression ==> r == Ok::<Settings, AutoMlError>(
                Settings { random_forest_regressor_settings: Some(p), ..self },
            ),
            r is Ok ==> r->Ok_0.wf(),
    {
        if self.family != Family::Regression {
            return Err(AutoMlError::FamilyMismatch);
        }
        Ok(Settings { random_forest_regressor_settings: Some(p), ..self })
    }

    /// Replaces the decision tree classification parameters; refused outside
    /// classification.
    pub fn with_decision_tree_classifier_settings(self, p: DecisionTreeClassifierParameters) -> (r: Result<
        Settings,
        AutoMlError,
    >)
        requires
            self.wf(),
        ensures
            self.family != Family::Classification ==> r == Err::<Settings, AutoMlError>(
                AutoMlError::FamilyMismatch,
            ),
            self.family == Family::Classification ==> r == Ok::<Settings, AutoMlError>(
                Settings { decision_tree_classifier_settings: Some(p), ..self },
            ),
            r is Ok ==> r->Ok_0.wf(),
    {
        if self.family != Family::Classification {
            return Err(AutoMlError::FamilyMismatch);
        }
        Ok(Settings { decision_tree_classifier_settings: Some(p), ..self })
    }

    /// Replaces the random forest classification parameters; refused outside
    /// classification.
    pub fn with_random_forest_classifier_settings(self, p: RandomForestClassifierParameters) -> (r: Result<
        Settings,
        AutoMlError,
    >)
        requires
            self.wf(),
        ensures
            self.family != Family::Classification ==> r == Err::<Settings, AutoMlError>(
                AutoMlError::FamilyMismatch,
            ),
            self.family == Family::Classification ==> r == Ok::<Settings, AutoMlError>(
                Settings { random_forest_classifier_settings: Some(p), ..self },
            ),
            r is Ok ==> r->Ok_0.wf(),
    {
        if self.family != Family::Classification {
            return Err(AutoMlError::FamilyMismatch);
        }
        Ok(Settings { random_forest_classifier_settings: Some(p), ..self })
    }

    /// Default settings for regression.
    pub fn default_regression() -> (r: Settings)
        ensures
            r.wf(),
            r.family == Family::Regression,
            r.number_of_folds == 10,
            !r.shuffle,
            !r.verbose,
            r.sort_by == Metric::RSquared,
            r.skiplist@ == Seq::<Algorithm>::empty(),
            r.preprocessing == PreProcessing::Nothing,
            r.final_model_approach == FinalModel::Best,
            active_set(r) == family_members(Family::Regression).to_set(),
    {
        let r = Settings::default_for(Family::Regression);
        proof {
            lemma_full_family_active(r);
        }
        r
    }

    /// Default settings for classification.
    pub fn default_classification() -> (r: Settings)
        ensures
            r.wf(),
            r.family == Family::Classification,
            r.number_of_folds == 10,
            !r.shuffle,
            !r.verbose,
            r.sort_by == Metric::Accuracy,
            r.skiplist@ == Seq::<Algorithm>::empty(),
            r.preprocessing == PreProcessing::Nothing,
            r.final_model_approach == FinalModel::Best,
            active_set(r) == family_members(Family::Classification).to_set(),
    {
        let r = Settings::default_for(Family::Classification);
        proof {
            lemma_full_family_active(r);
        }
        r
    }

    /// Sets the number of cross-validation folds; zero folds is refused.
    pub fn with_number_of_folds(self, n: usize) -> (r: Result<Settings, AutoMlError>)
        requires
            self.wf(),
        ensures
            n == 0 ==> r == Err::<Settings, AutoMlError>(AutoMlError::InvalidFoldCount),
            n >= 1 ==> r is Ok && r->Ok_0 == (Settings { number_of_folds: n, ..self }),
            r is Ok ==> r->Ok_0.wf(),
    {
        if n == 0 {
            Err(AutoMlError::InvalidFoldCount)
        } else {
            Ok(Settings { number_of_folds: n, ..self })
        }
    }

    /// Whether to shuffle the rows before splitting them into folds.
    pub fn shuffle_data(self, shuffle: bool) -> (r: Settings)
        requires
            self.wf(),
        ensures
            r == (Settings { shuffle, ..self }),
            r.wf(),
    {
        Settings { shuffle, ..self }
    }

    /// Whether to report progress and failures.
    pub fn verbose(self, verbose: bool) -> (r: Settings)
        requires
            self.wf(),
        ensures
            r == (Settings { verbose, ..self }),
            r.wf(),
    {
        Settings { verbose, ..self }
    }

    /// Chooses the metric to rank by, replacing the earlier choice.
    pub fn sorted_by(self, sort_by: Metric) -> (r: Settings)
        requires
            self.wf(),
        ensures
            r == (Settings { sort_by, ..self }),
            r.wf(),
    {
        Settings { sort_by, ..self }
    }

    /// Chooses the pre-processing of the features.
    pub fn with_preprocessing(self, preprocessing: PreProcessing) -> (r: Settings)
        requires
            self.wf(),
        ensures
            r == (Settings { preprocessing, ..self }),
            r.wf(),
    {
        Settings { preprocessing, ..self }
    }

    /// Chooses how the final model is built. Blending fractions that add up to
    /// more than the whole are refused.
    pub fn with_final_model(self, approach: FinalModel) -> (r: Result<Settings, AutoMlError>)
        requires
            self.wf(),
        ensures
            !approach.wf() ==> r == Err::<Settings, AutoMlError>(
                AutoMlError::InvalidBlendingFractions,
            ),
            approach.wf() ==> r == Ok::<Settings, AutoMlError>(
                Settings { final_model_approach: approach, ..self },
            ),
            r is Ok ==> r->Ok_0.wf(),
    {
        match approach {
            FinalModel::Blending { meta_training_fraction, meta_testing_fraction, .. } => {
                if meta_training_fraction > PERMILLE || meta_testing_fraction > PERMILLE
                    - meta_training_fraction {
                    return Err(AutoMlError::InvalidBlendingFractions);
                }
            },
            _ => {},
        }
        Ok(Settings { final_model_approach: approach, ..self })
    }

    pub fn skip(self, a: Algorithm) -> (r: Settings)
        requires
            self.wf(),
        ensures
            r == (Settings { skiplist: r.skiplist, ..self }),
            r.skiplist@ == self.skiplist@.push(a),
            r.wf(),
    {
        let mut s = self;
        s.skiplist.push(a);
        s
    }

    /// Whether `a` is in the skip list.
    pub fn is_skipped(&self, a: Algorithm) -> (r: bool)
        ensures
            r == self.skiplist@.contains(a),
    {
        let mut i: usize = 0;
        while i < self.skiplist.len()
            invariant
                i <= self.skiplist@.len(),
                forall|j: int| 0 <= j < i ==> self.skiplist@[j] != a,
            decreases self.skiplist@.len() - i,
        {
            if self.skiplist[i] == a {
                return true;
            }
            i = i + 1;
        }
        false
    }

    /// The algorithms that take part in a comparison run: the family the
    /// settings were made for, less the skipped ones, in registry order.
    pub fn active_algorithms(&self) -> (r: Vec<Algorithm>)
        ensures
            forall|a: Algorithm| r@.contains(a) <==> active_set(*self).contains(a),
            forall|i: int, j: int|
                0 <= i < j < r@.len() ==> (#[trigger] r@[i]).index_spec() < (#[trigger] r@[
                    j
                ]).index_spec(),
    {
        let members = family_algorithms(self.family);
        let mut out: Vec<Algorithm> = Vec::new();
        let mut i: usize = 0;
        while i < members.len()
            invariant
                members@ == family_members(self.family),
                forall|k: int|
                    0 <= k < members@.len() ==> (#[trigger] members@[k]).family_spec()
                        == self.family,
                forall|b: Algorithm| b.family_spec() == self.family ==> members@.contains(b),
                i <= members@.len(),
                active_prefix(*self, members@, i as int, out@),
                forall|k: int|
                    0 <= k < out@.len() ==> (#[trigger] out@[k]).index_spec() < if i
                        < members@.len() {
                        members@[i as int].index_spec()
                    } else {
                        15
                    },
                forall|p: int, q: int|
                    0 <= p < q < out@.len() ==> (#[trigger] out@[p]).index_spec() < (#[trigger] out@[
                        q
                    ]).index_spec(),
            decreases members@.len() - i,
        {
            let a = members[i];
            let ghost r0 = out@;
            assert(active_prefix(*self, members@, i as int, r0));
            let skipped = self.is_skipped(a);
            if !skipped {
                out.push(a);
            }
            proof {
                assert(members@.take(i + 1) =~= members@.take(i as int).push(a));
                assert(a.family_spec() == self.family);
            }
            i = i + 1;
            proof {
                assert forall|b: Algorithm|
                    #![trigger out@.contains(b)]
                    out@.contains(b) <==> (members@.take(i as int).contains(b) && is_active(
                        *self,
                        b,
                    )) by {
                    lemma_push_contains(members@.take(i - 1), a, b);
                    lemma_push_contains(r0, a, b);
                    assert(r0.contains(b) <==> (members@.take(i - 1).contains(b) && is_active(
                        *self,
                        b,
                    )));
                }
                assert(active_prefix(*self, members@, i as int, out@));
            }
        }
        proof {
            assert(members@.take(i as int) =~= members@);
            assert forall|a: Algorithm| out@.contains(a) <==> active_set(*self).contains(a) by {
                if is_active(*self, a) {
                    assert(members@.contains(a));
                }
            }
        }
        out
    }
}

/// `out` holds exactly the active algorithms among the first `n` of `members`.
pub open spec fn active_prefix(s: Settings, members: Seq<Algorithm>, n: int, out: Seq<Algorithm>) -> bool {
    forall|b: Algorithm| #[trigger] out.contains(b) <==> (members.take(n).contains(b) && is_active(s, b))
}

proof fn lemma_push_contains(s: Seq<Algorithm>, a: Algorithm, b: Algorithm)
    ensures
        s.push(a).contains(b) <==> (s.contains(b) || b == a),
{
    if s.contains(b) {
        let k = choose|k: int| 0 <= k < s.len() && s[k] == b;
        assert(s.push(a)[k] == b);
    }
    if b == a {
        assert(s.push(a)[s.len() as int] == a);
    }
    if s.push(a).contains(b) && b != a {
        let k = choose|k: int| 0 <= k < s.push(a).len() && s.push(a)[k] == b;
        assert(s[k] == b);
    }
}

/// With nothing skipped, every member of the family is active.
proof fn lemma_full_family_active(s: Settings)
    requires
        s.skiplist@ == Seq::<Algorithm>::empty(),
    ensures
        active_set(s) == family_members(s.family).to_set(),
{
    let _ = family_members(s.family);
    assert forall|a: Algorithm| active_set(s).contains(a) <==> family_members(
        s.family,
    ).to_set().contains(a) by {
        if a.family_spec() == s.family {
            assert(family_members(s.family)[a.index_spec() - if s.family == Family::Regression {
                0int
            } else {
                8
            }] == a);
        }
    }
    assert(active_set(s) =~= family_members(s.family).to_set());
}

/// Skipping an algorithm takes exactly that algorithm out of the active set
/// and no other: `t` is what `s.skip(a)` returns.
pub proof fn skip_removes_exactly(s: Settings, t: Settings, a: Algorithm)
    requires
        t.family == s.family,
        t.skiplist@ == s.skiplist@.push(a),
    ensures
        active_set(t) == active_set(s).remove(a),
{
    assert forall|b: Algorithm| active_set(t).contains(b) <==> active_set(s).remove(a).contains(b) by {
        lemma_push_contains(s.skiplist@, a, b);
    }
    assert(active_set(t) =~= active_set(s).remove(a));
}

} // verus!
