use dimensional_reduction::barnes_hut_sigmoid_decomposition::BarnesHutSigmoidDecomposition;
use dimensional_reduction::basic_iterative_decomposition::BasicIterativeDecomposition;
use dimensional_reduction::numpy_decomposition::{
    check_contiguous, get_number_of_dimensions, select_precision, TargetPrecision,
};
use dimensional_reduction::sampled_sigmoid_decomposition::{
    partner_seed, sampled_partner, SampledSigmoidDecomposition,
};
use dimensional_reduction::sigmoid_decomposition::SigmoidDecomposition;
use dimensional_reduction::matrix_statistics::check_matrix_shape;
use dimensional_reduction::traits::{
    check_target_shape, has_initial_seed, initial_seed, Decomposition, DimensionalReduction,
    IterativeDecomposition,
};

const BAR: &str =
    "{msg} {spinner:.green} [{elapsed_precise}] [{bar:40.cyan/blue}] ({pos}/{len}, ETA {eta})";

#[test]
fn the_exact_model_reports_under_its_name() {
    let model = SigmoidDecomposition::new(None, None, None, None).unwrap();
    assert_eq!(model.get_model_name(), "Sigmoid Decomposition");
    assert_eq!(model.get_iterations(), 100);
    assert_eq!(model.get_random_state(), 42);
    assert!(model.is_verbose());
    assert_eq!(f32::from_bits(model.get_learning_rate()), 0.01_f32);
}

#[test]
fn the_sampled_model_reports_under_its_name() {
    let model = SampledSigmoidDecomposition::from_options(Some(200), None, Some(7), None).unwrap();
    assert_eq!(model.get_model_name(), "Sampled Sigmoid Decomposition");
    assert_eq!(model.get_iterations(), 200);
    assert_eq!(model.get_random_state(), 7);
}

#[test]
fn the_sampled_model_is_made_from_its_options() {
    let options =
        BasicIterativeDecomposition::new(Some(4), None, "custom", Some(3), Some(false)).unwrap();
    let model = SampledSigmoidDecomposition::from(options);
    assert_eq!(model.get_model_name(), "custom");
    assert_eq!(model.get_iterations(), 4);
    assert_eq!(model.get_random_state(), 3);
    assert!(!model.is_verbose());
}

#[test]
fn the_barnes_hut_model_reports_under_its_name() {
    let model =
        BarnesHutSigmoidDecomposition::from_options(Some(50), None, Some(7), None, None).unwrap();
    assert_eq!(model.get_model_name(), "Barnes-Hut Sigmoid Decomposition");
    assert_eq!(model.get_depth(), 3);
    assert_eq!(model.get_iterations(), 50);
}

#[test]
fn the_barnes_hut_model_keeps_the_given_depth() {
    let options = BasicIterativeDecomposition::new(None, None, "bh", None, None).unwrap();
    let model = BarnesHutSigmoidDecomposition::new(options, Some(5));
    assert_eq!(model.get_depth(), 5);
    assert_eq!(model.get_model_name(), "bh");
}

#[test]
fn a_verbose_model_has_a_loading_bar_template() {
    let model = SigmoidDecomposition::new(None, None, None, Some(true)).unwrap();
    assert_eq!(
        model.get_loading_bar_template(),
        Some(format!("Sigmoid Decomposition{}", BAR))
    );
}

#[test]
fn a_silent_model_has_no_loading_bar_template() {
    let model = SigmoidDecomposition::new(None, None, None, Some(false)).unwrap();
    assert_eq!(model.get_loading_bar_template(), None);
}

#[test]
fn a_target_of_five_values_in_two_dimensions_is_rejected() {
    let expected = "The provided target slice has length 5 which is not compatible with the provided target dimension 2.".to_string();
    assert_eq!(check_target_shape(5, 2), Err(expected.clone()));
    let exact = SigmoidDecomposition::new(None, None, None, None).unwrap();
    assert_eq!(exact.check_target(5, 2), Err(expected.clone()));
    let sampled = SampledSigmoidDecomposition::from_options(None, None, None, None).unwrap();
    assert_eq!(sampled.check_target(5, 2), Err(expected.clone()));
    let barnes_hut =
        BarnesHutSigmoidDecomposition::from_options(None, None, None, None, None).unwrap();
    assert_eq!(barnes_hut.check_target(5, 2), Err(expected));
}

#[test]
fn a_fitting_target_has_its_rows_counted() {
    assert_eq!(check_target_shape(16, 2), Ok(8));
    assert_eq!(check_target_shape(0, 2), Ok(0));
    let exact = SigmoidDecomposition::new(None, None, None, None).unwrap();
    assert_eq!(exact.check_target(12, 3), Ok(4));
    let sampled = SampledSigmoidDecomposition::from_options(None, None, None, None).unwrap();
    assert_eq!(sampled.check_target(12, 4), Ok(3));
    let barnes_hut =
        BarnesHutSigmoidDecomposition::from_options(None, None, None, None, None).unwrap();
    assert_eq!(barnes_hut.check_target(128, 2), Ok(64));
}

#[test]
fn the_barnes_hut_model_takes_two_dimensions_only() {
    let barnes_hut =
        BarnesHutSigmoidDecomposition::from_options(None, None, None, None, None).unwrap();
    assert_eq!(barnes_hut.check_target(12, 3), Err("Currently we only support 2".to_string()));
    assert_eq!(barnes_hut.check_target(12, 1), Err("Currently we only support 2".to_string()));
    assert_eq!(
        barnes_hut.check_target(13, 3),
        Err("The provided target slice has length 13 which is not compatible with the provided target dimension 3.".to_string())
    );
}

#[test]
fn a_fit_starts_on_buffers_with_rows() {
    let exact = SigmoidDecomposition::new(None, None, None, None).unwrap();
    assert_eq!(exact.check_fit(16, 2, 32, 4), Ok(8));
    assert_eq!(exact.check_fit(12, 3, 8, 2), Ok(4));
    let barnes_hut =
        BarnesHutSigmoidDecomposition::from_options(None, None, None, None, None).unwrap();
    assert_eq!(barnes_hut.check_fit(128, 2, 512, 8), Ok(64));
}

#[test]
fn a_fit_reports_the_first_fault_of_its_buffers() {
    let target = "The provided target slice has length 5 which is not compatible with the provided target dimension 2.".to_string();
    let dimension = "Currently we only support 2".to_string();
    let empty = "The provided object is empty".to_string();
    let original = "The provided dimensionality 4 is not compatible with the length of this object 10.".to_string();
    let sampled = SampledSigmoidDecomposition::from_options(None, None, None, None).unwrap();
    assert_eq!(sampled.check_fit(5, 2, 0, 4), Err(target.clone()));
    assert_eq!(sampled.check_fit(6, 2, 0, 4), Err(empty.clone()));
    assert_eq!(sampled.check_fit(6, 2, 10, 4), Err(original.clone()));
    assert_eq!(sampled.check_fit(0, 2, 10, 4), Err(original.clone()));
    assert_eq!(sampled.check_fit(0, 2, 12, 4), Err(empty.clone()));
    assert_eq!(sampled.check_fit(0, 2, 0, 4), Err(empty.clone()));
    let barnes_hut =
        BarnesHutSigmoidDecomposition::from_options(None, None, None, None, None).unwrap();
    assert_eq!(barnes_hut.check_fit(5, 2, 0, 4), Err(target));
    assert_eq!(barnes_hut.check_fit(6, 3, 0, 4), Err(dimension.clone()));
    assert_eq!(barnes_hut.check_fit(0, 3, 12, 4), Err(dimension));
    assert_eq!(barnes_hut.check_fit(6, 2, 0, 4), Err(empty.clone()));
    assert_eq!(barnes_hut.check_fit(6, 2, 10, 4), Err(original));
    assert_eq!(barnes_hut.check_fit(0, 2, 12, 4), Err(empty));
}

#[test]
fn a_matrix_needs_rows() {
    assert_eq!(check_matrix_shape(32, 4), Ok(8));
    assert_eq!(check_matrix_shape(0, 4), Err("The provided object is empty".to_string()));
    assert_eq!(
        check_matrix_shape(10, 4),
        Err("The provided dimensionality 4 is not compatible with the length of this object 10.".to_string())
    );
}

#[test]
fn the_initial_seed_grows_with_the_position() {
    assert_eq!(initial_seed(42, 0), 42);
    assert_eq!(initial_seed(42, 1), 84);
    assert_eq!(initial_seed(42, 11), 504);
    assert_eq!(initial_seed(0, usize::MAX), 0);
    assert_eq!(initial_seed(u64::MAX, 0), u64::MAX);
}

#[test]
fn the_initial_seed_must_fit() {
    assert!(has_initial_seed(42, 1000));
    assert!(has_initial_seed(u64::MAX, 0));
    assert!(!has_initial_seed(u64::MAX, 1));
    assert!(!has_initial_seed(1 << 63, 1));
    assert!(has_initial_seed((1 << 63) - 1, 1));
    assert!(!has_initial_seed(3, usize::MAX));
}

#[test]
fn the_same_seed_gives_the_same_initial_seeds() {
    let first: Vec<u64> = (0..12).map(|position| initial_seed(42, position)).collect();
    let second: Vec<u64> = (0..12).map(|position| initial_seed(42, position)).collect();
    assert_eq!(first, second);
}

#[test]
fn the_partner_seed_wraps() {
    assert_eq!(partner_seed(10, 0), 10);
    assert_eq!(partner_seed(10, 3), 40);
    assert_eq!(partner_seed(u64::MAX, 1), u64::MAX - 1);
    assert_eq!(partner_seed(1 << 63, 2), 1 << 63);
}

#[test]
fn the_partner_is_the_drawn_number_modulo_the_rows() {
    assert_eq!(sampled_partner(0, 7), 0);
    assert_eq!(sampled_partner(23, 7), 2);
    assert_eq!(sampled_partner(u64::MAX, 1), 0);
    assert_eq!(sampled_partner(u64::MAX, 10), (u64::MAX as usize) % 10);
}

#[test]
fn the_number_of_dimensions_defaults_to_two() {
    assert_eq!(get_number_of_dimensions(None), 2);
    assert_eq!(get_number_of_dimensions(Some(5)), 5);
}

#[test]
fn the_precision_defaults_to_single() {
    assert_eq!(select_precision(None), Ok(TargetPrecision::Single));
    assert_eq!(select_precision(Some("f32")), Ok(TargetPrecision::Single));
    assert_eq!(select_precision(Some("f64")), Ok(TargetPrecision::Double));
}

#[test]
fn half_precision_is_not_supported() {
    assert_eq!(
        select_precision(Some("f16")),
        Err("The data type f16 is not supported.".to_string())
    );
    assert_eq!(select_precision(Some("")), Err("The data type  is not supported.".to_string()));
}

#[test]
fn a_strided_matrix_is_rejected() {
    assert_eq!(check_contiguous(true), Ok(()));
    assert_eq!(
        check_contiguous(false),
        Err("provided vector is not a contiguous vector in C orientation".to_string())
    );
}
