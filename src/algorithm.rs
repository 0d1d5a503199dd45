use vstd::prelude::*;
use vstd::string::StringExecFns;

verus! {

/// The task that an algorithm solves; the regression and classification
/// families are disjoint.
#[derive(PartialEq, Eq, Structural, Clone, Copy, Debug)]
pub enum Family {
    Regression,
    Classification,
}

/// Algorithm options, in registry declaration order.
#[derive(PartialEq, Eq, Structural, Clone, Copy, Debug)]
pub enum Algorithm {
    /// Decision tree regressor
    DecisionTreeRegressor,
    /// KNN Regressor
    KNNRegressor,
    /// Random forest regressor
    RandomForestRegressor,
    /// Linear regressor
    Linear,
    /// Ridge regressor
    Ridge,
    /// Lasso regressor
    Lasso,
    /// Elastic net regressor
    ElasticNet,
    /// Support vector regressor
    SVR,
    /// Decision tree classifier
    DecisionTreeClassifier,
    /// KNN classifier
    KNNClassifier,
    /// Random forest classifier
    RandomForestClassifier,
    /// Support vector classifier
    SVC,
    /// Logistic regression classifier
    LogisticRegression,
    /// Gaussian Naive Bayes classifier
    GaussianNaiveBayes,
    /// Categorical Naive Bayes classifier
    CategoricalNaiveBayes,
}

/// Number of algorithms in the registry.
pub const ALGORITHM_COUNT: usize = 15;

/// The algorithm declared at position `i` of the registry.
pub open spec fn algorithm_at(i: int) -> Algorithm {
    if i == 0 {
        Algorithm::DecisionTreeRegressor
    } else if i == 1 {
        Algorithm::KNNRegressor
    } else if i == 2 {
        Algorithm::RandomForestRegressor
    } else if i == 3 {
        Algorithm::Linear
    } else if i == 4 {
        Algorithm::Ridge
    } else if i == 5 {
        Algorithm::Lasso
    } else if i == 6 {
        Algorithm::ElasticNet
    } else if i == 7 {
        Algorithm::SVR
    } else if i == 8 {
        Algorithm::DecisionTreeClassifier
    } else if i == 9 {
        Algorithm::KNNClassifier
    } else if i == 10 {
        Algorithm::RandomForestClassifier
    } else if i == 11 {
        Algorithm::SVC
    } else if i == 12 {
        Algorithm::LogisticRegression
    } else if i == 13 {
        Algorithm::GaussianNaiveBayes
    } else {
        Algorithm::CategoricalNaiveBayes
    }
}

/// Every member of a family, in registry declaration order.
pub open spec fn family_members(f: Family) -> Seq<Algorithm> {
    match f {
        Family::Regression => seq![
            Algorithm::DecisionTreeRegressor,
            Algorithm::KNNRegressor,
            Algorithm::RandomForestRegressor,
            Algorithm::Linear,
            Algorithm::Ridge,
            Algorithm::Lasso,
            Algorithm::ElasticNet,
            Algorithm::SVR,
        ],
        Family::Classification => seq![
            Algorithm::DecisionTreeClassifier,
            Algorithm::KNNClassifier,
            Algorithm::RandomForestClassifier,
            Algorithm::SVC,
            Algorithm::LogisticRegression,
            Algorithm::GaussianNaiveBayes,
            Algorithm::CategoricalNaiveBayes,
        ],
    }
}

impl Algorithm {
    /// Position of the algorithm in the registry.
    pub open spec fn index_spec(self) -> nat {
        match self {
            Algorithm::DecisionTreeRegressor => 0,
            Algorithm::KNNRegressor => 1,
            Algorithm::RandomForestRegressor => 2,
            Algorithm::Linear => 3,
            Algorithm::Ridge => 4,
            Algorithm::Lasso => 5,
            Algorithm::ElasticNet => 6,
            Algorithm::SVR => 7,
            Algorithm::DecisionTreeClassifier => 8,
            Algorithm::KNNClassifier => 9,
            Algorithm::RandomForestClassifier => 10,
            Algorithm::SVC => 11,
            Algorithm::LogisticRegression => 12,
            Algorithm::GaussianNaiveBayes => 13,
            Algorithm::CategoricalNaiveBayes => 14,
        }
    }

    pub open spec fn family_spec(self) -> Family {
        if self.index_spec() < 8 {
            Family::Regression
        } else {
            Family::Classification
        }
    }

    pub open spec fn name_spec(self) -> Seq<char> {
        match self {
            Algorithm::DecisionTreeRegressor => "Decision Tree Regressor"@,
            Algorithm::KNNRegressor => "KNN Regressor"@,
            Algorithm::RandomForestRegressor => "Random Forest Regressor"@,
            Algorithm::Linear => "Linear Regressor"@,
            Algorithm::Ridge => "Ridge Regressor"@,
            Algorithm::Lasso => "LASSO Regressor"@,
            Algorithm::ElasticNet => "Elastic Net Regressor"@,
            Algorithm::SVR => "Support Vector Regressor"@,
            Algorithm::DecisionTreeClassifier => "Decision Tree Classifier"@,
            Algorithm::KNNClassifier => "KNN Classifier"@,
            Algorithm::RandomForestClassifier => "Random Forest Classifier"@,
            Algorithm::LogisticRegression => "Logistic Regression Classifier"@,
            Algorithm::SVC => "Support Vector Classifier"@,
            Algorithm::GaussianNaiveBayes => "Gaussian Naive Bayes"@,
            Algorithm::CategoricalNaiveBayes => "Categorical Naive Bayes"@,
        }
    }

    /// Position of the algorithm in the registry; ties in a ranking are
    /// broken by it.
    pub fn index(&self) -> (r: usize)
        ensures
            r == self.index_spec(),
            r < ALGORITHM_COUNT,
    {
        match self {
            Algorithm::DecisionTreeRegressor => 0,
            Algorithm::KNNRegressor => 1,
            Algorithm::RandomForestRegressor => 2,
            Algorithm::Linear => 3,
            Algorithm::Ridge => 4,
            Algorithm::Lasso => 5,
            Algorithm::ElasticNet => 6,
            Algorithm::SVR => 7,
            Algorithm::DecisionTreeClassifier => 8,
            Algorithm::KNNClassifier => 9,
            Algorithm::RandomForestClassifier => 10,
            Algorithm::SVC => 11,
            Algorithm::LogisticRegression => 12,
            Algorithm::GaussianNaiveBayes => 13,
            Algorithm::CategoricalNaiveBayes => 14,
        }
    }

    /// The algorithm declared at position `i` of the registry.
    pub fn from_index(i: usize) -> (r: Algorithm)
        requires
            i < ALGORITHM_COUNT,
        ensures
            r == algorithm_at(i as int),
            r.index_spec() == i,
    {
        if i == 0 {
            Algorithm::DecisionTreeRegressor
        } else if i == 1 {
            Algorithm::KNNRegressor
        } else if i == 2 {
            Algorithm::RandomForestRegressor
        } else if i == 3 {
            Algorithm::Linear
        } else if i == 4 {
            Algorithm::Ridge
        } else if i == 5 {
            Algorithm::Lasso
        } else if i == 6 {
            Algorithm::ElasticNet
        } else if i == 7 {
            Algorithm::SVR
        } else if i == 8 {
            Algorithm::DecisionTreeClassifier
        } else if i == 9 {
            Algorithm::KNNClassifier
        } else if i == 10 {
            Algorithm::RandomForestClassifier
        } else if i == 11 {
            Algorithm::SVC
        } else if i == 12 {
            Algorithm::LogisticRegression
        } else if i == 13 {
            Algorithm::GaussianNaiveBayes
        } else {
            Algorithm::CategoricalNaiveBayes
        }
    }

    /// The family the algorithm belongs to.
    pub fn family(&self) -> (r: Family)
        ensures
            r == self.family_spec(),
    {
        if self.index() < 8 {
            Family::Regression
        } else {
            Family::Classification
        }
    }

    /// Human-readable name of the algorithm.
    pub fn name(&self) -> (r: String)
        ensures
            r@ == self.name_spec(),
    {
        match self {
            Algorithm::DecisionTreeRegressor => String::from_str("Decision Tree Regressor"),
            Algorithm::KNNRegressor => String::from_str("KNN Regressor"),
            Algorithm::RandomForestRegressor => String::from_str("Random Forest Regressor"),
            Algorithm::Linear => String::from_str("Linear Regressor"),
            Algorithm::Ridge => String::from_str("Ridge Regressor"),
            Algorithm::Lasso => String::from_str("LASSO Regressor"),
            Algorithm::ElasticNet => String::from_str("Elastic Net Regressor"),
            Algorithm::SVR => String::from_str("Support Vector Regressor"),
            Algorithm::DecisionTreeClassifier => String::from_str("Decision Tree Classifier"),
            Algorithm::KNNClassifier => String::from_str("KNN Classifier"),
            Algorithm::RandomForestClassifier => String::from_str("Random Forest Classifier"),
            Algorithm::LogisticRegression => String::from_str("Logistic Regression Classifier"),
            Algorithm::SVC => String::from_str("Support Vector Classifier"),
            Algorithm::GaussianNaiveBayes => String::from_str("Gaussian Naive Bayes"),
            Algorithm::CategoricalNaiveBayes => String::from_str("Categorical Naive Bayes"),
        }
    }
}

/// Every member of family `f`, in registry declaration order.
pub fn family_algorithms(f: Family) -> (r: Vec<Algorithm>)
    ensures
        r@ == family_members(f),
        forall|i: int| 0 <= i < r@.len() ==> (#[trigger] r@[i]).family_spec() == f,
        forall|a: Algorithm| a.family_spec() == f ==> r@.contains(a),
{
    let mut r: Vec<Algorithm> = Vec::new();
    let (lo, hi): (usize, usize) = match f {
        Family::Regression => (0, 8),
        Family::Classification => (8, ALGORITHM_COUNT),
    };
    let mut i: usize = lo;
    while i < hi
        invariant
            lo <= i <= hi,
            hi <= ALGORITHM_COUNT,
            f == Family::Regression ==> lo == 0 && hi == 8,
            f == Family::Classification ==> lo == 8 && hi == 15,
            r@ == family_members(f).take(i - lo),
        decreases hi - i,
    {
        let a = Algorithm::from_index(i);
        proof {
            assert(family_members(f)[i - lo] == a);
            assert(family_members(f).take(i - lo + 1) =~= family_members(f).take(i - lo).push(a));
        }
        r.push(a);
        i = i + 1;
    }
    proof {
        assert(family_members(f).take(i - lo) =~= family_members(f));
        assert forall|a: Algorithm| a.family_spec() == f implies r@.contains(a) by {
            let k = a.index_spec() - lo;
            assert(r@[k] == a);
        }
    }
    r
}

} // verus!
