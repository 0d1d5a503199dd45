use automl::utils::{decimal_string, print_knn_search_algorithm, print_knn_weight_function};
use automl::{debug_option, print_option, Distance};
use smartcore::algorithm::neighbour::KNNAlgorithmName;
use smartcore::neighbors::KNNWeightFunction;

#[test]
fn options_print() {
    assert_eq!(print_option(Some(42)), "42");
    assert_eq!(print_option::<u8>(None), "None");
    assert_eq!(debug_option(Some("a")), "\"a\"");
    assert_eq!(debug_option::<u8>(None), "None");
}

#[test]
fn knn_names() {
    assert_eq!(print_knn_weight_function(&KNNWeightFunction::Uniform), "Uniform");
    assert_eq!(print_knn_weight_function(&KNNWeightFunction::Distance), "Distance");
    assert_eq!(print_knn_search_algorithm(&KNNAlgorithmName::LinearSearch), "Linear Search");
    assert_eq!(print_knn_search_algorithm(&KNNAlgorithmName::CoverTree), "Cover Tree");
}

#[test]
fn distances_describe() {
    assert_eq!(Distance::Euclidean.describe(), "Euclidean");
    assert_eq!(Distance::Minkowski(3).describe(), "Minkowski\n    p = 3");
    assert_eq!(Distance::Minkowski(65535).describe(), "Minkowski\n    p = 65535");
    assert_eq!(Distance::Hamming.describe(), "Hamming");
}

#[test]
fn decimals() {
    assert_eq!(decimal_string(0), "0");
    assert_eq!(decimal_string(10), "10");
    assert_eq!(decimal_string(907), "907");
}
