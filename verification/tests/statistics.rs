use dimensional_reduction::matrix_statistics::{
    MatrixMean, MatrixMinMax, MatrixSum, MatrixVariance,
};
use dimensional_reduction::utils::{divide, dot, normal_dot, DataRaceAware};

#[test]
fn divide_rounds_towards_zero() {
    assert_eq!(divide(7, 2), 3);
    assert_eq!(divide(-7, 2), -3);
    assert_eq!(divide(7, -2), -3);
    assert_eq!(divide(-7, -2), 3);
    assert_eq!(divide(0, -5), 0);
    assert_eq!(divide(i64::MIN, i64::MIN), 1);
    assert_eq!(divide(5, i64::MIN), 0);
    assert_eq!(divide(-5, i64::MIN), 0);
    assert_eq!(divide(i64::MIN, 2), i64::MIN / 2);
    assert_eq!(divide(i64::MIN, -2), i64::MIN / -2);
    assert_eq!(divide(i64::MAX, -1), -i64::MAX);
    assert_eq!(divide(i64::MIN, 1), i64::MIN);
}

#[test]
fn dot_adds_the_products() {
    assert_eq!(dot(&[1, 2, 3], &[4, 5, 6]), 32);
    assert_eq!(dot(&[], &[]), 0);
    assert_eq!(dot(&[-1, 2], &[3, -4]), -11);
}

#[test]
fn dot_stops_at_the_shorter_row() {
    assert_eq!(dot(&[1, 2, 3], &[4, 5]), 14);
    assert_eq!(dot(&[1], &[4, 5, 6]), 4);
}

#[test]
fn normal_dot_normalises_both_rows() {
    // ((10 - 4) / 2) * ((8 - 4) / 2) + ((1 - 7) / 3) * ((13 - 7) / 3) = 3 * 2 + (-2) * 2
    assert_eq!(normal_dot(&[10, 1], &[8, 13], &[4, 7], &[2, 3]), 2);
    // (5 / 2) * (-5 / 2) = 2 * (-2)
    assert_eq!(normal_dot(&[5], &[-5], &[0], &[2]), -4);
    assert_eq!(normal_dot(&[5], &[-5], &[0], &[-2]), -4);
}

#[test]
fn the_cell_hands_its_value_out_and_back() {
    let mut cell = DataRaceAware::from(vec![1, 2, 3]);
    assert_eq!(cell.get(), &vec![1, 2, 3]);
    cell.get_mut()[1] = 7;
    assert_eq!(cell.get(), &vec![1, 7, 3]);
    assert_eq!(cell.into_inner(), vec![1, 7, 3]);
}

#[test]
fn matrix_sum_adds_each_column() {
    let values: &[i64] = &[1, 2, 3, 10, 20, 30, 100, 200, 300, -111, -222, -333];
    assert_eq!(values.matrix_sum(3), Ok(vec![0, 0, 0]));
    assert_eq!(values.matrix_sum(4), Ok(vec![1 + 20 + 300, 2 + 30 - 111, 3 + 100 - 222, 10 + 200 - 333]));
    assert_eq!(values.matrix_sum(12), Ok(values.to_vec()));
    assert_eq!(values.matrix_sum(1), Ok(vec![0]));
}

#[test]
fn matrix_sum_rejects_an_empty_matrix() {
    let values: &[i64] = &[];
    assert_eq!(values.matrix_sum(3), Err("The provided object is empty".to_string()));
    assert_eq!(values.matrix_sum(1), Err("The provided object is empty".to_string()));
}

#[test]
fn a_single_row_is_its_own_sum_and_mean_and_has_no_variance() {
    let values: &[i64] = &[7, -3, 0];
    assert_eq!(values.matrix_sum(3), Ok(vec![7, -3, 0]));
    assert_eq!(values.matrix_mean(3), Ok(vec![7, -3, 0]));
    assert_eq!(values.matrix_var(3), Ok(vec![0, 0, 0]));
}

#[test]
fn matrix_sum_rejects_a_partial_row() {
    let values: &[i64] = &[1, 2, 3, 4, 5];
    assert_eq!(
        values.matrix_sum(2),
        Err("The provided dimensionality 2 is not compatible with the length of this object 5.".to_string())
    );
}

#[test]
fn matrix_mean_divides_the_sums_by_the_rows() {
    let values: &[i64] = &[1, -2, 3, -4, 5, -7];
    assert_eq!(values.matrix_mean(2), Ok(vec![3, -4]));
    assert_eq!(values.matrix_mean(3), Ok(vec![-1, 1, -2]));
    let sums = values.matrix_sum(2).unwrap();
    let means = values.matrix_mean(2).unwrap();
    for column in 0..2 {
        assert_eq!(means[column], sums[column] / 3);
    }
}

#[test]
fn matrix_mean_rejects_an_empty_matrix() {
    let values: &[i64] = &[];
    assert_eq!(values.matrix_mean(2), Err("The provided object is empty".to_string()));
}

#[test]
fn matrix_mean_rejects_a_partial_row() {
    let values: &[i64] = &[1, 2, 3];
    assert_eq!(
        values.matrix_mean(2),
        Err("The provided dimensionality 2 is not compatible with the length of this object 3.".to_string())
    );
}

#[test]
fn matrix_var_divides_by_the_number_of_rows() {
    // One column 2, 4, 4, 4, 5, 5, 7, 9: mean 5, squared deviations 9 1 1 1 0 0 4 16, sum 32.
    let values: &[i64] = &[2, 4, 4, 4, 5, 5, 7, 9];
    assert_eq!(values.matrix_var(1), Ok(vec![4]));
    // Two rows: dividing by one less would double the result.
    let pair: &[i64] = &[0, 10, 4, 30];
    assert_eq!(pair.matrix_var(2), Ok(vec![4, 100]));
}

#[test]
fn matrix_var_fails_as_the_mean_does() {
    let empty: &[i64] = &[];
    assert_eq!(empty.matrix_var(2), Err("The provided object is empty".to_string()));
    let partial: &[i64] = &[1, 2, 3];
    assert_eq!(
        partial.matrix_var(2),
        Err("The provided dimensionality 2 is not compatible with the length of this object 3.".to_string())
    );
}

#[test]
fn matrix_min_max_finds_the_extremes_of_each_column() {
    let values: &[i64] = &[3, -1, 0, 5, 9, -7];
    assert_eq!(values.matrix_min_max(2), Ok((vec![0, -7], vec![9, 5])));
    assert_eq!(values.matrix_min_max(3), Ok((vec![3, -1, -7], vec![5, 9, 0])));
    assert_eq!(values.matrix_min_max(6), Ok((values.to_vec(), values.to_vec())));
}

#[test]
fn matrix_min_max_keeps_the_bounds_of_the_type() {
    let values: &[i64] = &[i64::MAX, i64::MIN];
    assert_eq!(values.matrix_min_max(1), Ok((vec![i64::MIN], vec![i64::MAX])));
}

#[test]
fn matrix_min_max_rejects_an_empty_matrix_first() {
    let values: &[i64] = &[];
    assert_eq!(values.matrix_min_max(2), Err("The provided object is empty".to_string()));
    let partial: &[i64] = &[1, 2, 3];
    assert_eq!(
        partial.matrix_min_max(2),
        Err("The provided dimensionality 2 is not compatible with the length of this object 3.".to_string())
    );
}
