use vstd::prelude::*;
use vstd::string::{to_string_from_display_ensures, StringExecFns};

use smartcore::algorithm::neighbour::KNNAlgorithmName;
use smartcore::neighbors::KNNWeightFunction;

verus! {

#[verifier::external_type_specification]
pub struct ExKNNWeightFunction(KNNWeightFunction);

#[verifier::external_type_specification]
pub struct ExKNNAlgorithmName(KNNAlgorithmName);

/// The character of decimal digit `d`.
pub open spec fn digit_char(d: nat) -> char {
    if d == 0 {
        '0'
    } else if d == 1 {
        '1'
    } else if d == 2 {
        '2'
    } else if d == 3 {
        '3'
    } else if d == 4 {
        '4'
    } else if d == 5 {
        '5'
    } else if d == 6 {
        '6'
    } else if d == 7 {
        '7'
    } else if d == 8 {
        '8'
    } else {
        '9'
    }
}

/// Decimal digits of `n`, most significant first, without leading zeros.
pub open spec fn decimal(n: nat) -> Seq<char>
    decreases n,
{
    if n < 10 {
        seq![digit_char(n)]
    } else {
        decimal(n / 10).push(digit_char(n % 10))
    }
}

fn digit_str(d: usize) -> (r: &'static str)
    requires
        d < 10,
    ensures
        r@ == seq![digit_char(d as nat)],
{
    proof {
        reveal_strlit("0");
        reveal_strlit("1");
        reveal_strlit("2");
        reveal_strlit("3");
        reveal_strlit("4");
        reveal_strlit("5");
        reveal_strlit("6");
        reveal_strlit("7");
        reveal_strlit("8");
        reveal_strlit("9");
    }
    if d == 0 {
        "0"
    } else if d == 1 {
        "1"
    } else if d == 2 {
        "2"
    } else if d == 3 {
        "3"
    } else if d == 4 {
        "4"
    } else if d == 5 {
        "5"
    } else if d == 6 {
        "6"
    } else if d == 7 {
        "7"
    } else if d == 8 {
        "8"
    } else {
        "9"
    }
}

/// Decimal representation of `n`.
pub fn decimal_string(n: usize) -> (r: String)
    ensures
        r@ == decimal(n as nat),
    decreases n,
{
    if n < 10 {
        String::from_str(digit_str(n))
    } else {
        let mut s = decimal_string(n / 10);
        s.append(digit_str(n % 10));
        s
    }
}

/// `x` shown with `Display`, or "None".
pub fn print_option<T: std::fmt::Display>(x: Option<T>) -> (r: String)
    ensures
        x is None ==> r@ == "None"@,
        x is Some ==> to_string_from_display_ensures::<T>(&x->Some_0, r),
{
    match x {
        None => String::from_str("None"),
        Some(y) => y.to_string(),
    }
}

/// Relies on std's `format!` with `{:#?}`: the pretty-printed `Debug` form of
/// a value, of which nothing is promised here.
#[verifier::external_body]
fn pretty_debug<T: std::fmt::Debug>(y: &T) -> String {
    format!("{:#?}", y)
}

/// `x` shown with pretty-printed `Debug`, or "None".
pub fn debug_option<T: std::fmt::Debug>(x: Option<T>) -> (r: String)
    ensures
        x is None ==> r@ == "None"@,
{
    match x {
        None => String::from_str("None"),
        Some(y) => pretty_debug(&y),
    }
}

/// Name of a smartcore KNN weighting function.
pub fn print_knn_weight_function(f: &KNNWeightFunction) -> (r: String)
    ensures
        *f is Uniform ==> r@ == "Uniform"@,
        *f is Distance ==> r@ == "Distance"@,
{
    match f {
        KNNWeightFunction::Uniform => String::from_str("Uniform"),
        KNNWeightFunction::Distance => String::from_str("Distance"),
    }
}

/// Name of a smartcore KNN search algorithm.
pub fn print_knn_search_algorithm(a: &KNNAlgorithmName) -> (r: String)
    ensures
        *a is LinearSearch ==> r@ == "Linear Search"@,
        *a is CoverTree ==> r@ == "Cover Tree"@,
{
    match a {
        KNNAlgorithmName::LinearSearch => String::from_str("Linear Search"),
        KNNAlgorithmName::CoverTree => String::from_str("Cover Tree"),
    }
}

/// Distance metrics.
#[derive(PartialEq, Eq, Structural, Clone, Copy, Debug)]
pub enum Distance {
    /// Euclidean distance
    Euclidean,
    /// Manhattan distance
    Manhattan,
    /// Minkowski distance, parameterized by p
    Minkowski(u16),
    /// Mahalanobis distance
    Mahalanobis,
    /// Hamming distance
    Hamming,
}

impl Distance {
    pub open spec fn describe_spec(self) -> Seq<char> {
        match self {
            Distance::Euclidean => "Euclidean"@,
            Distance::Manhattan => "Manhattan"@,
            Distance::Minkowski(p) => "Minkowski\n    p = "@ + decimal(p as nat),
            Distance::Mahalanobis => "Mahalanobis"@,
            Distance::Hamming => "Hamming"@,
        }
    }

    /// Human-readable description of the distance.
    pub fn describe(&self) -> (r: String)
        ensures
            r@ == self.describe_spec(),
    {
        match self {
            Distance::Euclidean => String::from_str("Euclidean"),
            Distance::Manhattan => String::from_str("Manhattan"),
            Distance::Minkowski(p) => {
                let mut s = String::from_str("Minkowski\n    p = ");
                let digits = decimal_string(*p as usize);
                s.append(digits.as_str());
                s
            },
            Distance::Mahalanobis => String::from_str("Mahalanobis"),
            Distance::Hamming => String::from_str("Hamming"),
        }
    }
}

} // verus!
