//! Column statistics of a matrix of integer features stored row after row.

use vstd::prelude::*;
use crate::messages::{
    empty_object,
    empty_object_message,
    incompatible_dimensionality,
    incompatible_dimensionality_message,
};
use crate::utils::{lemma_truncated_quotient_bound, truncated_quotient};

verus! {

/// The number of complete rows of a matrix with rows of `dimensionality`
/// values.
pub open spec fn number_of_rows(values: Seq<i64>, dimensionality: nat) -> nat
    recommends
        dimensionality > 0,
{
    values.len() / dimensionality
}

/// The value in the given row and column.
pub open spec fn matrix_cell(values: Seq<i64>, dimensionality: nat, row: int, column: int) -> i64 {
    values[row * dimensionality + column]
}

/// The sum of the first `rows` values of a column.
pub open spec fn column_sum(values: Seq<i64>, dimensionality: nat, column: int, rows: nat) -> int
    decreases rows,
{
    if rows == 0 {
        0
    } else {
        column_sum(values, dimensionality, column, (rows - 1) as nat) + matrix_cell(
            values,
            dimensionality,
            rows - 1,
            column,
        )
    }
}

/// Every running sum of every column is an `i64`.
pub open spec fn sums_fit(values: Seq<i64>, dimensionality: nat) -> bool {
    forall|column: int, rows: nat|
        0 <= column < dimensionality && rows <= number_of_rows(values, dimensionality) ==> i64::MIN
            <= #[trigger] column_sum(values, dimensionality, column, rows) <= i64::MAX
}

/// The sums of the columns.
pub open spec fn matrix_sum_spec(values: Seq<i64>, dimensionality: nat) -> Seq<i64> {
    Seq::new(
        dimensionality,
        |column: int|
            column_sum(
                values,
                dimensionality,
                column,
                number_of_rows(values, dimensionality),
            ) as i64,
    )
}

/// The means of the columns: each sum of `matrix_sum_spec` divided by the
/// number of rows.
pub open spec fn matrix_mean_spec(values: Seq<i64>, dimensionality: nat) -> Seq<i64> {
    Seq::new(
        dimensionality,
        |column: int|
            truncated_quotient(
                matrix_sum_spec(values, dimensionality)[column] as int,
                number_of_rows(values, dimensionality) as int,
            ) as i64,
    )
}

/// The square of the distance of a value from the mean of its column.
pub open spec fn squared_deviation(
    values: Seq<i64>,
    dimensionality: nat,
    mean: Seq<i64>,
    row: int,
    column: int,
) -> int {
    (matrix_cell(values, dimensionality, row, column) - mean[column]) * (matrix_cell(
        values,
        dimensionality,
        row,
        column,
    ) - mean[column])
}

/// The sum, over the first `rows` values of a column, of the squared
/// deviations from `mean`.
pub open spec fn squared_deviation_sum(
    values: Seq<i64>,
    dimensionality: nat,
    mean: Seq<i64>,
    column: int,
    rows: nat,
) -> int
    decreases rows,
{
    if rows == 0 {
        0
    } else {
        squared_deviation_sum(values, dimensionality, mean, column, (rows - 1) as nat)
            + squared_deviation(values, dimensionality, mean, rows - 1, column)
    }
}

/// The variances of the columns: the sum of the squared deviations from the
/// mean, divided by the number of rows.
pub open spec fn matrix_var_spec(values: Seq<i64>, dimensionality: nat) -> Seq<i64> {
    Seq::new(
        dimensionality,
        |column: int|
            truncated_quotient(
                squared_deviation_sum(
                    values,
                    dimensionality,
                    matrix_mean_spec(values, dimensionality),
                    column,
                    number_of_rows(values, dimensionality),
                ),
                number_of_rows(values, dimensionality) as int,
            ) as i64,
    )
}

/// Every deviation from the mean, every square of one and every running sum
/// of the squares is an `i64`.
pub open spec fn deviations_fit(values: Seq<i64>, dimensionality: nat) -> bool {
    let mean = matrix_mean_spec(values, dimensionality);
    &&& forall|row: int, column: int|
        0 <= row < number_of_rows(values, dimensionality) && 0 <= column < dimensionality ==> {
            &&& i64::MIN <= matrix_cell(values, dimensionality, row, column) - mean[column]
                <= i64::MAX
            &&& #[trigger] squared_deviation(values, dimensionality, mean, row, column)
                <= i64::MAX
        }
    &&& forall|column: int, rows: nat|
        0 <= column < dimensionality && rows <= number_of_rows(values, dimensionality)
            ==> #[trigger] squared_deviation_sum(values, dimensionality, mean, column, rows)
            <= i64::MAX
}

/// The least of the first `rows` values of a column; the greatest `i64`
/// where there is none.
pub open spec fn column_min(values: Seq<i64>, dimensionality: nat, column: int, rows: nat) -> i64
    decreases rows,
{
    if rows == 0 {
        i64::MAX
    } else {
        let before = column_min(values, dimensionality, column, (rows - 1) as nat);
        let value = matrix_cell(values, dimensionality, rows - 1, column);
        if before > value {
            value
        } else {
            before
        }
    }
}

/// The greatest of the first `rows` values of a column; the least `i64`
/// where there is none.
pub open spec fn column_max(values: Seq<i64>, dimensionality: nat, column: int, rows: nat) -> i64
    decreases rows,
{
    if rows == 0 {
        i64::MIN
    } else {
        let before = column_max(values, dimensionality, column, (rows - 1) as nat);
        let value = matrix_cell(values, dimensionality, rows - 1, column);
        if before < value {
            value
        } else {
            before
        }
    }
}

/// A matrix without a partial row is exactly its rows, and each of its cells
/// lies within it.
pub proof fn lemma_cell_in_bounds(length: nat, dimensionality: nat, row: int, column: int)
    requires
        dimensionality > 0,
        length % dimensionality == 0,
        0 <= row < length / dimensionality,
        0 <= column < dimensionality,
    ensures
        (length / dimensionality) * dimensionality == length,
        0 <= row * dimensionality + column < length,
        (row + 1) * dimensionality == row * dimensionality + dimensionality,
{
    vstd::arithmetic::div_mod::lemma_fundamental_div_mod(length as int, dimensionality as int);
    let rows = (length / dimensionality) as int;
    let width = dimensionality as int;
    assert((row + 1) * width <= rows * width) by (nonlinear_arith)
        requires
            row + 1 <= rows,
            width > 0,
    ;
    assert((row + 1) * width == row * width + width) by (nonlinear_arith);
    assert(row * width >= 0) by (nonlinear_arith)
        requires
            row >= 0,
            width > 0,
    ;
    assert(rows * width == width * rows) by (nonlinear_arith);
}

/// The message with which the mean, the variance and the extremes of a matrix
/// fail: for an empty matrix that it is empty, else that its length does not
/// fit its row length.
pub open spec fn shape_message(length: nat, dimensionality: nat) -> Seq<char> {
    if length == 0 {
        empty_object_message()
    } else {
        incompatible_dimensionality_message(dimensionality, length)
    }
}

/// The matrix has at least one row and no partial row.
pub open spec fn has_rows(length: nat, dimensionality: nat) -> bool {
    length != 0 && length % dimensionality == 0
}

/// The number of rows of a matrix of the given length, or why its statistics
/// cannot be had: first that it is empty, then that its length is no multiple
/// of the row length.
pub fn check_matrix_shape(length: usize, dimensionality: usize) -> (rows: Result<usize, String>)
    requires
        dimensionality > 0,
    ensures
        has_rows(length as nat, dimensionality as nat) <==> rows is Ok,
        rows matches Err(message) ==> message@ == shape_message(
            length as nat,
            dimensionality as nat,
        ),
        rows matches Ok(count) ==> count == length / dimensionality && count * dimensionality
            == length && count > 0,
{
    if length == 0 {
        return Err(empty_object());
    }
    if length % dimensionality != 0 {
        return Err(incompatible_dimensionality(dimensionality, length));
    }
    proof {
        vstd::arithmetic::div_mod::lemma_fundamental_div_mod(length as int, dimensionality as int);
        assert((length / dimensionality) * dimensionality == dimensionality * (length
            / dimensionality)) by (nonlinear_arith);
        assert(length / dimensionality > 0) by (nonlinear_arith)
            requires
                (length / dimensionality) * dimensionality == length,
                length > 0,
        ;
    }
    Ok(length / dimensionality)
}

/// Column sums of a matrix stored row after row.
pub trait MatrixSum<F> {
    /// What a caller owes: a row length above 0, and sums that the feature
    /// type can hold.
    spec fn can_sum(&self, dimensionality: usize) -> bool;

    /// The sum of every column.
    fn matrix_sum(&self, dimensionality: usize) -> (result: Result<Vec<F>, String>)
        requires
            self.can_sum(dimensionality),
    ;
}

impl MatrixSum<i64> for &[i64] {
    open spec fn can_sum(&self, dimensionality: usize) -> bool {
        dimensionality > 0 && sums_fit(self@, dimensionality as nat)
    }

    /// Fails when the matrix is empty, and when its length is no multiple of
    /// the row length.
    fn matrix_sum(&self, dimensionality: usize) -> (result: Result<Vec<i64>, String>)
        ensures
            has_rows(self@.len(), dimensionality as nat) <==> result is Ok,
            result matches Err(message) ==> message@ == shape_message(
                self@.len(),
                dimensionality as nat,
            ),
            result matches Ok(sums) ==> sums@ == matrix_sum_spec(self@, dimensionality as nat),
    {
        let values: &[i64] = *self;
        let rows = match check_matrix_shape(values.len(), dimensionality) {
            Ok(rows) => rows,
            Err(message) => {
                return Err(message);
            },
        };
        let mut sums: Vec<i64> = Vec::new();
        while sums.len() < dimensionality
            invariant
                sums.len() <= dimensionality,
                forall|column: int| 0 <= column < sums.len() ==> sums[column] == 0,
            decreases dimensionality - sums.len(),
        {
            sums.push(0);
        }
        let mut row: usize = 0;
        while row < rows
            invariant
                row <= rows,
                dimensionality > 0,
                values@.len() <= usize::MAX,
                values@.len() % (dimensionality as nat) == 0,
                rows == number_of_rows(values@, dimensionality as nat),
                sums_fit(values@, dimensionality as nat),
                sums.len() == dimensionality,
                forall|column: int|
                    0 <= column < dimensionality ==> sums[column] == column_sum(
                        values@,
                        dimensionality as nat,
                        column,
                        row as nat,
                    ),
            decreases rows - row,
        {
            let mut column: usize = 0;
            while column < dimensionality
                invariant
                    column <= dimensionality,
                    row < rows,
                    dimensionality > 0,
                    values@.len() <= usize::MAX,
                    values@.len() % (dimensionality as nat) == 0,
                    rows == number_of_rows(values@, dimensionality as nat),
                    sums_fit(values@, dimensionality as nat),
                    sums.len() == dimensionality,
                    forall|done: int|
                        0 <= done < column ==> sums[done] == column_sum(
                            values@,
                            dimensionality as nat,
                            done,
                            (row + 1) as nat,
                        ),
                    forall|ahead: int|
                        column <= ahead < dimensionality ==> sums[ahead] == column_sum(
                            values@,
                            dimensionality as nat,
                            ahead,
                            row as nat,
                        ),
                decreases dimensionality - column,
            {
                proof {
                    lemma_cell_in_bounds(
                        values@.len(),
                        dimensionality as nat,
                        row as int,
                        column as int,
                    );
                    assert(i64::MIN <= column_sum(
                        values@,
                        dimensionality as nat,
                        column as int,
                        (row + 1) as nat,
                    ) <= i64::MAX);
                }
                sums[column] = sums[column] + values[row * dimensionality + column];
                column = column + 1;
            }
            row = row + 1;
        }
        assert(sums@ =~= matrix_sum_spec(values@, dimensionality as nat));
        Ok(sums)
    }
}

/// Column means of a matrix stored row after row.
pub trait MatrixMean<F> {
    /// What a caller owes: what the sums need, and a number of rows that the
    /// feature type can hold.
    spec fn can_average(&self, dimensionality: usize) -> bool;

    /// The mean of every column.
    fn matrix_mean(&self, dimensionality: usize) -> (result: Result<Vec<F>, String>)
        requires
            self.can_average(dimensionality),
    ;
}

impl MatrixMean<i64> for &[i64] {
    open spec fn can_average(&self, dimensionality: usize) -> bool {
        &&& dimensionality > 0
        &&& sums_fit(self@, dimensionality as nat)
        &&& number_of_rows(self@, dimensionality as nat) <= i64::MAX
    }

    /// Fails when the matrix is empty, and when its length is no multiple of
    /// the row length; else every sum is divided by the number of rows.
    fn matrix_mean(&self, dimensionality: usize) -> (result: Result<Vec<i64>, String>)
        ensures
            has_rows(self@.len(), dimensionality as nat) <==> result is Ok,
            result matches Err(message) ==> message@ == shape_message(
                self@.len(),
                dimensionality as nat,
            ),
            result matches Ok(means) ==> means@ == matrix_mean_spec(self@, dimensionality as nat),
    {
        let values: &[i64] = *self;
        let rows = match check_matrix_shape(values.len(), dimensionality) {
            Ok(rows) => rows,
            Err(message) => {
                return Err(message);
            },
        };
        let mut means = match values.matrix_sum(dimensionality) {
            Ok(sums) => sums,
            Err(message) => {
                return Err(message);
            },
        };
        let number_of_samples = rows as i64;
        let ghost sums = means@;
        let mut column: usize = 0;
        while column < dimensionality
            invariant
                column <= dimensionality,
                number_of_samples > 0,
                means.len() == dimensionality,
                sums.len() == dimensionality,
                forall|done: int|
                    0 <= done < column ==> means[done] == truncated_quotient(
                        sums[done] as int,
                        number_of_samples as int,
                    ),
                forall|ahead: int| column <= ahead < dimensionality ==> means[ahead] == sums[ahead],
            decreases dimensionality - column,
        {
            means[column] = means[column] / number_of_samples;
            column = column + 1;
        }
        assert(means@ =~= matrix_mean_spec(values@, dimensionality as nat));
        Ok(means)
    }
}

/// Column minimums and maximums of a matrix stored row after row.
pub trait MatrixMinMax<F> {
    /// What a caller owes: a row length above 0.
    spec fn can_min_max(&self, dimensionality: usize) -> bool;

    /// The least and the greatest value of every column.
    fn matrix_min_max(&self, dimensionality: usize) -> (result: Result<(Vec<F>, Vec<F>), String>)
        requires
            self.can_min_max(dimensionality),
    ;
}

impl MatrixMinMax<i64> for &[i64] {
    open spec fn can_min_max(&self, dimensionality: usize) -> bool {
        dimensionality > 0
    }

    /// Fails when the matrix is empty, and when its length is no multiple of
    /// the row length.
    fn matrix_min_max(&self, dimensionality: usize) -> (result: Result<
        (Vec<i64>, Vec<i64>),
        String,
    >)
        ensures
            has_rows(self@.len(), dimensionality as nat) <==> result is Ok,
            result matches Err(message) ==> message@ == shape_message(
                self@.len(),
                dimensionality as nat,
            ),
            result matches Ok(extremes) ==> {
                &&& extremes.0@ == Seq::new(
                    dimensionality as nat,
                    |column: int|
                        column_min(
                            self@,
                            dimensionality as nat,
                            column,
                            number_of_rows(self@, dimensionality as nat),
                        ),
                )
                &&& extremes.1@ == Seq::new(
                    dimensionality as nat,
                    |column: int|
                        column_max(
                            self@,
                            dimensionality as nat,
                            column,
                            number_of_rows(self@, dimensionality as nat),
                        ),
                )
            },
    {
        let values: &[i64] = *self;
        let rows = match check_matrix_shape(values.len(), dimensionality) {
            Ok(rows) => rows,
            Err(message) => {
                return Err(message);
            },
        };
        let mut minimums: Vec<i64> = Vec::new();
        let mut maximums: Vec<i64> = Vec::new();
        while minimums.len() < dimensionality
            invariant
                minimums.len() <= dimensionality,
                maximums.len() == minimums.len(),
                forall|column: int| 0 <= column < minimums.len() ==> minimums[column] == i64::MAX,
                forall|column: int| 0 <= column < maximums.len() ==> maximums[column] == i64::MIN,
            decreases dimensionality - minimums.len(),
        {
            minimums.push(i64::MAX);
            maximums.push(i64::MIN);
        }
        let mut row: usize = 0;
        while row < rows
            invariant
                row <= rows,
                dimensionality > 0,
                values@.len() <= usize::MAX,
                values@.len() % (dimensionality as nat) == 0,
                rows == number_of_rows(values@, dimensionality as nat),
                minimums.len() == dimensionality,
                maximums.len() == dimensionality,
                forall|column: int|
                    0 <= column < dimensionality ==> minimums[column] == column_min(
                        values@,
                        dimensionality as nat,
                        column,
                        row as nat,
                    ),
                forall|column: int|
                    0 <= column < dimensionality ==> maximums[column] == column_max(
                        values@,
                        dimensionality as nat,
                        column,
                        row as nat,
                    ),
            decreases rows - row,
        {
            let mut column: usize = 0;
            while column < dimensionality
                invariant
                    column <= dimensionality,
                    row < rows,
                    dimensionality > 0,
                    values@.len() <= usize::MAX,
                    values@.len() % (dimensionality as nat) == 0,
                    rows == number_of_rows(values@, dimensionality as nat),
                    minimums.len() == dimensionality,
                    maximums.len() == dimensionality,
                    forall|done: int|
                        0 <= done < column ==> minimums[done] == column_min(
                            values@,
                            dimensionality as nat,
                            done,
                            (row + 1) as nat,
                        ),
                    forall|ahead: int|
                        column <= ahead < dimensionality ==> minimums[ahead] == column_min(
                            values@,
                            dimensionality as nat,
                            ahead,
                            row as nat,
                        ),
                    forall|done: int|
                        0 <= done < column ==> maximums[done] == column_max(
                            values@,
                            dimensionality as nat,
                            done,
                            (row + 1) as nat,
                        ),
                    forall|ahead: int|
                        column <= ahead < dimensionality ==> maximums[ahead] == column_max(
                            values@,
                            dimensionality as nat,
                            ahead,
                            row as nat,
                        ),
                decreases dimensionality - column,
            {
                proof {
                    lemma_cell_in_bounds(
                        values@.len(),
                        dimensionality as nat,
                        row as int,
                        column as int,
                    );
                }
                let value = values[row * dimensionality + column];
                if minimums[column] > value {
                    minimums[column] = value;
                }
                if maximums[column] < value {
                    maximums[column] = value;
                }
                column = column + 1;
            }
            row = row + 1;
        }
        assert(minimums@ =~= Seq::new(
            dimensionality as nat,
            |column: int| column_min(values@, dimensionality as nat, column, rows as nat),
        ));
        assert(maximums@ =~= Seq::new(
            dimensionality as nat,
            |column: int| column_max(values@, dimensionality as nat, column, rows as nat),
        ));
        Ok((minimums, maximums))
    }
}

/// A sum of squared deviations is never negative.
pub proof fn lemma_squared_deviation_sum_is_not_negative(
    values: Seq<i64>,
    dimensionality: nat,
    mean: Seq<i64>,
    column: int,
    rows: nat,
)
    ensures
        0 <= squared_deviation_sum(values, dimensionality, mean, column, rows),
    decreases rows,
{
    if rows > 0 {
        lemma_squared_deviation_sum_is_not_negative(
            values,
            dimensionality,
            mean,
            column,
            (rows - 1) as nat,
        );
        let delta = matrix_cell(values, dimensionality, rows - 1, column) - mean[column];
        assert(delta * delta >= 0) by (nonlinear_arith);
    }
}

/// Column variances of a matrix stored row after row.
pub trait MatrixVariance<F> {
    /// What a caller owes: what the means need, and deviations whose squares
    /// and sums of squares the feature type can hold.
    spec fn can_vary(&self, dimensionality: usize) -> bool;

    /// The variance of every column.
    fn matrix_var(&self, dimensionality: usize) -> (result: Result<Vec<F>, String>)
        requires
            self.can_vary(dimensionality),
    ;
}

impl MatrixVariance<i64> for &[i64] {
    open spec fn can_vary(&self, dimensionality: usize) -> bool {
        &&& dimensionality > 0
        &&& sums_fit(self@, dimensionality as nat)
        &&& number_of_rows(self@, dimensionality as nat) <= i64::MAX
        &&& deviations_fit(self@, dimensionality as nat)
    }

    /// Fails as the mean does; else the squared deviations from the mean are
    /// added up and divided by the number of rows, not by one less.
    fn matrix_var(&self, dimensionality: usize) -> (result: Result<Vec<i64>, String>)
        ensures
            has_rows(self@.len(), dimensionality as nat) <==> result is Ok,
            result matches Err(message) ==> message@ == shape_message(
                self@.len(),
                dimensionality as nat,
            ),
            result matches Ok(variances) ==> variances@ == matrix_var_spec(
                self@,
                dimensionality as nat,
            ),
    {
        let values: &[i64] = *self;
        let mean = match values.matrix_mean(dimensionality) {
            Ok(mean) => mean,
            Err(message) => {
                return Err(message);
            },
        };
        proof {
            vstd::arithmetic::div_mod::lemma_fundamental_div_mod(
                values@.len() as int,
                dimensionality as int,
            );
            assert(number_of_rows(values@, dimensionality as nat) > 0) by (nonlinear_arith)
                requires
                    values@.len() == dimensionality * number_of_rows(
                        values@,
                        dimensionality as nat,
                    ),
                    values@.len() > 0,
            ;
        }
        let rows = values.len() / dimensionality;
        let mut variances: Vec<i64> = Vec::new();
        while variances.len() < dimensionality
            invariant
                variances.len() <= dimensionality,
                forall|column: int| 0 <= column < variances.len() ==> variances[column] == 0,
            decreases dimensionality - variances.len(),
        {
            variances.push(0);
        }
        let mut row: usize = 0;
        while row < rows
            invariant
                row <= rows,
                dimensionality > 0,
                values@.len() <= usize::MAX,
                values@.len() % (dimensionality as nat) == 0,
                rows == number_of_rows(values@, dimensionality as nat),
                mean@ == matrix_mean_spec(values@, dimensionality as nat),
                deviations_fit(values@, dimensionality as nat),
                variances.len() == dimensionality,
                forall|column: int|
                    0 <= column < dimensionality ==> variances[column] == squared_deviation_sum(
                        values@,
                        dimensionality as nat,
                        mean@,
                        column,
                        row as nat,
                    ),
            decreases rows - row,
        {
            let mut column: usize = 0;
            while column < dimensionality
                invariant
                    column <= dimensionality,
                    row < rows,
                    dimensionality > 0,
                    values@.len() <= usize::MAX,
                    values@.len() % (dimensionality as nat) == 0,
                    rows == number_of_rows(values@, dimensionality as nat),
                    mean@ == matrix_mean_spec(values@, dimensionality as nat),
                    deviations_fit(values@, dimensionality as nat),
                    variances.len() == dimensionality,
                    forall|done: int|
                        0 <= done < column ==> variances[done] == squared_deviation_sum(
                            values@,
                            dimensionality as nat,
                            mean@,
                            done,
                            (row + 1) as nat,
                        ),
                    forall|ahead: int|
                        column <= ahead < dimensionality ==> variances[ahead]
                            == squared_deviation_sum(
                            values@,
                            dimensionality as nat,
                            mean@,
                            ahead,
                            row as nat,
                        ),
                decreases dimensionality - column,
            {
                proof {
                    lemma_cell_in_bounds(
                        values@.len(),
                        dimensionality as nat,
                        row as int,
                        column as int,
                    );
                    let square = squared_deviation(
                        values@,
                        dimensionality as nat,
                        mean@,
                        row as int,
                        column as int,
                    );
                    assert(square <= i64::MAX);
                    let delta = matrix_cell(values@, dimensionality as nat, row as int, column as int)
                        - mean@[column as int];
                    assert(delta * delta >= 0) by (nonlinear_arith);
                    assert(squared_deviation_sum(
                        values@,
                        dimensionality as nat,
                        mean@,
                        column as int,
                        (row + 1) as nat,
                    ) <= i64::MAX);
                    lemma_squared_deviation_sum_is_not_negative(
                        values@,
                        dimensionality as nat,
                        mean@,
                        column as int,
                        row as nat,
                    );
                }
                let delta = values[row * dimensionality + column] - mean[column];
                variances[column] = variances[column] + delta * delta;
                column = column + 1;
            }
            row = row + 1;
        }
        let number_of_samples = rows as i64;
        let ghost sums = variances@;
        let mut column: usize = 0;
        while column < dimensionality
            invariant
                column <= dimensionality,
                number_of_samples > 0,
                variances.len() == dimensionality,
                sums.len() == dimensionality,
                forall|done: int|
                    0 <= done < column ==> variances[done] == truncated_quotient(
                        sums[done] as int,
                        number_of_samples as int,
                    ),
                forall|ahead: int|
                    column <= ahead < dimensionality ==> variances[ahead] == sums[ahead],
            decreases dimensionality - column,
        {
            variances[column] = variances[column] / number_of_samples;
            column = column + 1;
        }
        assert(variances@ =~= matrix_var_spec(values@, dimensionality as nat));
        Ok(variances)
    }
}

/// The mean of a column is its sum divided by the number of rows, whatever
/// the matrix.
pub proof fn lemma_mean_is_sum_over_rows(values: Seq<i64>, dimensionality: nat, column: int)
    requires
        0 <= column < dimensionality,
    ensures
        matrix_mean_spec(values, dimensionality)[column] == truncated_quotient(
            matrix_sum_spec(values, dimensionality)[column] as int,
            number_of_rows(values, dimensionality) as int,
        ) as i64,
{
}

/// Where the sums of a matrix with rows can be held, the sum of a column is
/// the sum of its values and the mean is that sum divided by the number of
/// rows, rounded towards zero.
pub proof fn lemma_mean_of_sums_that_fit(values: Seq<i64>, dimensionality: nat, column: int)
    requires
        sums_fit(values, dimensionality),
        number_of_rows(values, dimensionality) > 0,
        0 <= column < dimensionality,
    ensures
        matrix_sum_spec(values, dimensionality)[column] == column_sum(
            values,
            dimensionality,
            column,
            number_of_rows(values, dimensionality),
        ),
        matrix_mean_spec(values, dimensionality)[column] == truncated_quotient(
            column_sum(values, dimensionality, column, number_of_rows(values, dimensionality)),
            number_of_rows(values, dimensionality) as int,
        ),
{
    let rows = number_of_rows(values, dimensionality);
    let sum = column_sum(values, dimensionality, column, rows);
    assert(i64::MIN <= sum <= i64::MAX);
    lemma_truncated_quotient_bound(sum, rows as int);
}

/// The variance of a column is the sum of the squared deviations from its
/// mean divided by the number of rows, not by one less; so a matrix of one
/// row has the variances 0.
pub proof fn lemma_variance_divides_by_rows(values: Seq<i64>, dimensionality: nat, column: int)
    requires
        0 <= column < dimensionality,
    ensures
        matrix_var_spec(values, dimensionality)[column] == truncated_quotient(
            squared_deviation_sum(
                values,
                dimensionality,
                matrix_mean_spec(values, dimensionality),
                column,
                number_of_rows(values, dimensionality),
            ),
            number_of_rows(values, dimensionality) as int,
        ) as i64,
        number_of_rows(values, dimensionality) == 1 ==> matrix_var_spec(
            values,
            dimensionality,
        )[column] == 0,
{
    if number_of_rows(values, dimensionality) == 1 {
        let mean = matrix_mean_spec(values, dimensionality);
        assert(column_sum(values, dimensionality, column, 0) == 0);
        assert(column_sum(values, dimensionality, column, 1) == matrix_cell(
            values,
            dimensionality,
            0,
            column,
        ));
        assert(mean[column] == matrix_cell(values, dimensionality, 0, column));
        assert(squared_deviation_sum(values, dimensionality, mean, column, 0) == 0);
        assert(squared_deviation(values, dimensionality, mean, 0, column) == 0);
        assert(squared_deviation_sum(values, dimensionality, mean, column, 1) == 0);
    }
}

/// The least value of a column is at most, the greatest at least, each of
/// its values.
pub proof fn lemma_column_extremes_bound(
    values: Seq<i64>,
    dimensionality: nat,
    column: int,
    rows: nat,
    row: int,
)
    requires
        0 <= row < rows,
    ensures
        column_min(values, dimensionality, column, rows) <= matrix_cell(
            values,
            dimensionality,
            row,
            column,
        ) <= column_max(values, dimensionality, column, rows),
    decreases rows,
{
    if row < rows - 1 {
        lemma_column_extremes_bound(values, dimensionality, column, (rows - 1) as nat, row);
    }
}

/// The least and the greatest value of a column with values are among them:
/// the result names a row of each.
pub proof fn lemma_column_extremes_attained(
    values: Seq<i64>,
    dimensionality: nat,
    column: int,
    rows: nat,
) -> (at: (int, int))
    requires
        rows > 0,
    ensures
        0 <= at.0 < rows,
        0 <= at.1 < rows,
        column_min(values, dimensionality, column, rows) == matrix_cell(
            values,
            dimensionality,
            at.0,
            column,
        ),
        column_max(values, dimensionality, column, rows) == matrix_cell(
            values,
            dimensionality,
            at.1,
            column,
        ),
    decreases rows,
{
    if rows == 1 {
        assert(column_min(values, dimensionality, column, 0) == i64::MAX);
        assert(column_max(values, dimensionality, column, 0) == i64::MIN);
        (0, 0)
    } else {
        let before = lemma_column_extremes_attained(
            values,
            dimensionality,
            column,
            (rows - 1) as nat,
        );
        let value = matrix_cell(values, dimensionality, rows - 1, column);
        (
            if column_min(values, dimensionality, column, (rows - 1) as nat) > value {
                rows - 1
            } else {
                before.0
            },
            if column_max(values, dimensionality, column, (rows - 1) as nat) < value {
                rows - 1
            } else {
                before.1
            },
        )
    }
}

} // verus!
