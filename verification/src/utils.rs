//! Numerical kernels over integer features, and the cell that owns a buffer
//! on behalf of the passes of a model.

use vstd::prelude::*;

verus! {

/// The quotient of two integers rounded towards zero, as the machine divides.
pub open spec fn truncated_quotient(dividend: int, divisor: int) -> int
    recommends
        divisor != 0,
{
    if dividend >= 0 && divisor > 0 {
        dividend / divisor
    } else if dividend < 0 && divisor > 0 {
        -((-dividend) / divisor)
    } else if dividend >= 0 && divisor < 0 {
        -(dividend / (-divisor))
    } else {
        (-dividend) / (-divisor)
    }
}

/// A quotient by a positive divisor lies no further from zero than its
/// dividend.
pub proof fn lemma_truncated_quotient_bound(dividend: int, divisor: int)
    requires
        divisor > 0,
    ensures
        dividend >= 0 ==> 0 <= truncated_quotient(dividend, divisor) <= dividend,
        dividend < 0 ==> dividend <= truncated_quotient(dividend, divisor) <= 0,
{
    if dividend >= 0 {
        vstd::arithmetic::div_mod::lemma_div_basics_4(dividend, divisor);
        vstd::arithmetic::div_mod::lemma_div_basics_5(dividend, divisor);
    } else {
        vstd::arithmetic::div_mod::lemma_div_basics_4(-dividend, divisor);
        vstd::arithmetic::div_mod::lemma_div_basics_5(-dividend, divisor);
    }
}

/// The truncated quotient of two values that have one in `i64`.
pub fn divide(dividend: i64, divisor: i64) -> (quotient: i64)
    requires
        divisor != 0,
        !(dividend == i64::MIN && divisor == -1),
    ensures
        quotient == truncated_quotient(dividend as int, divisor as int),
{
    if divisor > 0 {
        dividend / divisor
    } else if divisor == i64::MIN {
        if dividend == i64::MIN {
            1
        } else {
            proof {
                let magnitude = -(divisor as int);
                if dividend >= 0 {
                    vstd::arithmetic::div_mod::lemma_basic_div(dividend as int, magnitude);
                } else {
                    vstd::arithmetic::div_mod::lemma_basic_div(-(dividend as int), magnitude);
                }
            }
            0
        }
    } else {
        let positive = -divisor;
        proof {
            let magnitude = if dividend >= 0 {
                dividend as int
            } else {
                -(dividend as int)
            };
            vstd::arithmetic::div_mod::lemma_div_basics_4(magnitude, positive as int);
            vstd::arithmetic::div_mod::lemma_div_basics_5(magnitude, positive as int);
            if dividend == i64::MIN {
                vstd::arithmetic::div_mod::lemma_div_decreases(magnitude, positive as int);
            }
        }
        -(dividend / positive)
    }
}

/// The sum of the products of the first `count` pairs of two sequences.
pub open spec fn dot_prefix(left: Seq<i64>, right: Seq<i64>, count: nat) -> int
    decreases count,
{
    if count == 0 {
        0
    } else {
        dot_prefix(left, right, (count - 1) as nat) + left[count - 1] * right[count - 1]
    }
}

/// The number of pairs that two sequences form: the length of the shorter.
pub open spec fn paired_len(left: Seq<i64>, right: Seq<i64>) -> nat {
    if left.len() <= right.len() {
        left.len()
    } else {
        right.len()
    }
}

/// The dot product of two sequences, over the pairs that they form.
pub open spec fn dot_spec(left: Seq<i64>, right: Seq<i64>) -> int {
    dot_prefix(left, right, paired_len(left, right))
}

/// The product of pair `position`.
pub open spec fn pair_product(left: Seq<i64>, right: Seq<i64>, position: int) -> int {
    left[position] * right[position]
}

/// Every product and every running sum of the dot product is an `i64`.
pub open spec fn dot_fits(left: Seq<i64>, right: Seq<i64>) -> bool {
    &&& forall|position: int|
        0 <= position < paired_len(left, right) ==> i64::MIN <= #[trigger] pair_product(
            left,
            right,
            position,
        ) <= i64::MAX
    &&& forall|count: nat|
        count <= paired_len(left, right) ==> i64::MIN <= #[trigger] dot_prefix(left, right, count)
            <= i64::MAX
}

/// The dot product of two rows of integer features.
pub fn dot(left: &[i64], right: &[i64]) -> (product: i64)
    requires
        dot_fits(left@, right@),
    ensures
        product == dot_spec(left@, right@),
{
    let count = if left.len() <= right.len() {
        left.len()
    } else {
        right.len()
    };
    let mut sum: i64 = 0;
    let mut position: usize = 0;
    while position < count
        invariant
            position <= count,
            count == paired_len(left@, right@),
            dot_fits(left@, right@),
            sum == dot_prefix(left@, right@, position as nat),
        decreases count - position,
    {
        assert(i64::MIN <= pair_product(left@, right@, position as int) <= i64::MAX);
        assert(i64::MIN <= dot_prefix(left@, right@, (position + 1) as nat) <= i64::MAX);
        sum = sum + left[position] * right[position];
        position = position + 1;
    }
    sum
}

/// The number of features that can be normalised: the length of the shortest
/// of the row, the means and the deviations.
pub open spec fn normalized_len(values: Seq<i64>, mean: Seq<i64>, std: Seq<i64>) -> nat {
    paired_len(values, if mean.len() <= std.len() {
        mean
    } else {
        std
    })
}

/// A row with, feature by feature, its mean subtracted and the difference
/// divided by the deviation.
pub open spec fn normalized(values: Seq<i64>, mean: Seq<i64>, std: Seq<i64>) -> Seq<i64> {
    Seq::new(
        normalized_len(values, mean, std),
        |feature: int|
            truncated_quotient(values[feature] - mean[feature], std[feature] as int) as i64,
    )
}

/// No deviation is 0, and every difference and quotient is an `i64`.
pub open spec fn can_normalize(values: Seq<i64>, mean: Seq<i64>, std: Seq<i64>) -> bool {
    forall|feature: int|
        0 <= feature < normalized_len(values, mean, std) ==> {
            &&& #[trigger] std[feature] != 0
            &&& i64::MIN <= values[feature] - mean[feature] <= i64::MAX
            &&& !(values[feature] - mean[feature] == i64::MIN && std[feature] == -1)
        }
}

/// The dot product of two rows after both are normalised.
pub open spec fn normal_dot_spec(
    left: Seq<i64>,
    right: Seq<i64>,
    mean: Seq<i64>,
    std: Seq<i64>,
) -> int {
    dot_spec(normalized(left, mean, std), normalized(right, mean, std))
}

fn normalize(values: &[i64], mean: &[i64], std: &[i64]) -> (scores: Vec<i64>)
    requires
        can_normalize(values@, mean@, std@),
    ensures
        scores@ == normalized(values@, mean@, std@),
{
    let shorter = if mean.len() <= std.len() {
        mean.len()
    } else {
        std.len()
    };
    let count = if values.len() <= shorter {
        values.len()
    } else {
        shorter
    };
    let mut scores: Vec<i64> = Vec::new();
    let mut feature: usize = 0;
    while feature < count
        invariant
            feature <= count,
            count == normalized_len(values@, mean@, std@),
            can_normalize(values@, mean@, std@),
            scores@.len() == feature,
            forall|done: int|
                0 <= done < feature ==> scores[done] == truncated_quotient(
                    values[done] - mean[done],
                    std[done] as int,
                ),
        decreases count - feature,
    {
        assert(std[feature as int] != 0);
        scores.push(divide(values[feature] - mean[feature], std[feature]));
        feature = feature + 1;
    }
    assert(scores@ =~= normalized(values@, mean@, std@));
    scores
}

/// The dot product of two rows of integer features, each normalised by the
/// same means and deviations.
pub fn normal_dot(left: &[i64], right: &[i64], mean: &[i64], std: &[i64]) -> (product: i64)
    requires
        can_normalize(left@, mean@, std@),
        can_normalize(right@, mean@, std@),
        dot_fits(normalized(left@, mean@, std@), normalized(right@, mean@, std@)),
    ensures
        product == normal_dot_spec(left@, right@, mean@, std@),
{
    let left_scores = normalize(left, mean, std);
    let right_scores = normalize(right, mean, std);
    dot(left_scores.as_slice(), right_scores.as_slice())
}

/// The owner of a buffer that the passes of a model read and write in turn.
pub struct DataRaceAware<T> {
    pub(crate) value: T,
}

impl<T> View for DataRaceAware<T> {
    type V = T;

    closed spec fn view(&self) -> T {
        self.value
    }
}

impl<T> From<T> for DataRaceAware<T> {
    /// Wraps a value.
    fn from(value: T) -> (cell: Self) {
        Self { value }
    }
}

impl<T> vstd::std_specs::convert::FromSpecImpl<T> for DataRaceAware<T> {
    open spec fn obeys_from_spec() -> bool {
        true
    }

    closed spec fn from_spec(value: T) -> Self {
        DataRaceAware { value }
    }
}

/// The cell that `from` makes of a value holds that value.
pub proof fn lemma_from_holds_the_value<T>(value: T)
    ensures
        <DataRaceAware<T> as vstd::std_specs::convert::FromSpec<T>>::from_spec(value)@ == value,
{
}

impl<T> DataRaceAware<T> {
    /// The value, to read.
    pub fn get(&self) -> (value: &T)
        ensures
            *value == self@,
    {
        &self.value
    }

    /// The value, to write.
    pub fn get_mut(&mut self) -> (value: &mut T)
        ensures
            *value == old(self)@,
            final(self)@ == *final(value),
    {
        &mut self.value
    }

    /// Unwraps the value.
    pub fn into_inner(self) -> (value: T)
        ensures
            value == self@,
    {
        self.value
    }
}

} // verus!
