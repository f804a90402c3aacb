use dimensional_reduction::basic_decomposition::BasicDecomposition;
use dimensional_reduction::basic_iterative_decomposition::BasicIterativeDecomposition;
use dimensional_reduction::traits::{Decomposition, IterativeDecomposition};

#[test]
fn new_rejects_an_empty_model_name() {
    let result = BasicDecomposition::new("", Some(7), Some(false));
    assert_eq!(result.err(), Some("The provided model name is empty.".to_string()));
}

#[test]
fn new_keeps_the_given_options() {
    let options = BasicDecomposition::new("Sigmoid Decomposition", Some(7), Some(false)).unwrap();
    assert_eq!(options.get_model_name(), "Sigmoid Decomposition");
    assert_eq!(options.get_random_state(), 7);
    assert!(!options.is_verbose());
}

#[test]
fn new_fills_in_the_defaults() {
    let options = BasicDecomposition::new("m", None, None).unwrap();
    assert_eq!(options.get_random_state(), 42);
    assert!(options.is_verbose());
}

#[test]
fn iterative_options_reject_an_empty_model_name() {
    let result = BasicIterativeDecomposition::new(Some(3), None, "", None, None);
    assert_eq!(result.err(), Some("The provided model name is empty.".to_string()));
}

#[test]
fn iterative_options_fill_in_the_defaults() {
    let options = BasicIterativeDecomposition::new(None, None, "model", None, None).unwrap();
    assert_eq!(options.get_iterations(), 100);
    assert_eq!(f32::from_bits(options.get_learning_rate()), 0.01_f32);
    assert_eq!(options.get_basic_decomposition().get_random_state(), 42);
    assert!(options.get_basic_decomposition().is_verbose());
    assert_eq!(options.get_basic_decomposition().get_model_name(), "model");
}

#[test]
fn iterative_options_keep_the_given_values() {
    let options = BasicIterativeDecomposition::new(
        Some(5),
        Some(0.5_f32.to_bits()),
        "model",
        Some(9),
        Some(false),
    )
    .unwrap();
    assert_eq!(options.get_iterations(), 5);
    assert_eq!(f32::from_bits(options.get_learning_rate()), 0.5_f32);
    assert_eq!(options.get_basic_decomposition().get_random_state(), 9);
    assert!(!options.get_basic_decomposition().is_verbose());
}

#[test]
fn basic_options_are_their_own_decomposition() {
    let options = BasicDecomposition::new("plain", Some(1), Some(true)).unwrap();
    assert_eq!(Decomposition::get_model_name(&options), "plain");
    assert_eq!(Decomposition::get_random_state(&options), 1);
    assert!(Decomposition::is_verbose(&options));
    assert_eq!(options.get_basic_decomposition().get_model_name(), "plain");
}
