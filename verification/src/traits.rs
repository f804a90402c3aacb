//! What every model offers: its options, read through the layer it owns, the
//! check of the buffers of a fit, and the numbers from which a target is
//! filled at random.

use vstd::prelude::*;
use vstd::string::StringExecFns;
use crate::basic_decomposition::BasicDecomposition;
use crate::basic_iterative_decomposition::BasicIterativeDecomposition;
use crate::matrix_statistics::{check_matrix_shape, has_rows, shape_message};
use crate::messages::{
    empty_object,
    empty_object_message,
    incompatible_target,
    incompatible_target_message,
    unsupported_dimension_message,
};

verus! {

/// A model with basic options.
pub trait Decomposition {
    /// The basic options of the model.
    spec fn basic_decomposition_spec(&self) -> BasicDecomposition;

    /// The basic options of the model.
    fn get_basic_decomposition(&self) -> (basic: &BasicDecomposition)
        ensures
            *basic == self.basic_decomposition_spec(),
    ;

    /// The name of the model.
    fn get_model_name(&self) -> (name: &str)
        ensures
            name@ == self.basic_decomposition_spec().model_name_spec(),
    {
        self.get_basic_decomposition().get_model_name()
    }

    /// The seed of the model.
    fn get_random_state(&self) -> (random_state: u64)
        ensures
            random_state == self.basic_decomposition_spec().random_state_spec(),
    {
        self.get_basic_decomposition().get_random_state()
    }

    /// Whether the model reports its progress.
    fn is_verbose(&self) -> (verbose: bool)
        ensures
            verbose == self.basic_decomposition_spec().verbose_spec(),
    {
        self.get_basic_decomposition().is_verbose()
    }
}

/// The layout of the progress bar of a model with the given name: the name,
/// then a message, a spinner, the time elapsed, the bar, the position, the
/// total and the time expected to remain.
pub open spec fn loading_bar_template(model_name: Seq<char>) -> Seq<char> {
    model_name
        + "{msg} {spinner:.green} [{elapsed_precise}] [{bar:40.cyan/blue}] ({pos}/{len}, ETA {eta})"@
}

/// A model with the options of the iterative models.
pub trait IterativeDecomposition: Decomposition {
    /// The iterative options of the model.
    spec fn iterative_basic_decomposition_spec(&self) -> BasicIterativeDecomposition;

    /// The iterative options of the model.
    fn get_iterative_basic_decomposition(&self) -> (iterative: &BasicIterativeDecomposition)
        ensures
            *iterative == self.iterative_basic_decomposition_spec(),
    ;

    /// The number of iterations of a fit.
    fn get_iterations(&self) -> (iterations: usize)
        ensures
            iterations == self.iterative_basic_decomposition_spec().iterations_spec(),
    {
        self.get_iterative_basic_decomposition().get_iterations()
    }

    /// The bits of the learning rate.
    fn get_learning_rate(&self) -> (learning_rate: u32)
        ensures
            learning_rate == self.iterative_basic_decomposition_spec().learning_rate_spec(),
    {
        self.get_iterative_basic_decomposition().get_learning_rate()
    }

    /// The layout of the progress bar of a fit: that of the name of a model
    /// that reports its progress, none for a silent one.
    fn get_loading_bar_template(&self) -> (template: Option<String>)
        ensures
            template is Some <==> self.iterative_basic_decomposition_spec().basic_decomposition_spec().verbose_spec(),
            template matches Some(text) ==> text@ == loading_bar_template(
                self.iterative_basic_decomposition_spec().basic_decomposition_spec().model_name_spec(),
            ),
    {
        let basic = self.get_iterative_basic_decomposition().get_basic_decomposition();
        if basic.is_verbose() {
            let mut text = String::from_str(basic.get_model_name());
            text.append(
                "{msg} {spinner:.green} [{elapsed_precise}] [{bar:40.cyan/blue}] ({pos}/{len}, ETA {eta})",
            );
            Some(text)
        } else {
            None
        }
    }
}

/// The message with which a model turns a target buffer down: that its
/// length does not fit the target dimension, else that the model does not
/// take that dimension.
pub open spec fn target_message(target_length: nat, target_dimension: nat) -> Seq<char> {
    if target_length % target_dimension != 0 {
        incompatible_target_message(target_length, target_dimension)
    } else {
        unsupported_dimension_message()
    }
}

/// The number of rows of a target buffer, or why it has none: its length is
/// no multiple of the target dimension.
pub fn check_target_shape(target_length: usize, target_dimension: usize) -> (rows: Result<
    usize,
    String,
>)
    requires
        target_dimension > 0,
    ensures
        target_length % target_dimension == 0 <==> rows is Ok,
        rows matches Err(message) ==> message@ == incompatible_target_message(
            target_length as nat,
            target_dimension as nat,
        ),
        rows matches Ok(count) ==> count == target_length / target_dimension && count
            * target_dimension == target_length,
{
    if target_length % target_dimension != 0 {
        return Err(incompatible_target(target_length, target_dimension));
    }
    proof {
        vstd::arithmetic::div_mod::lemma_fundamental_div_mod(
            target_length as int,
            target_dimension as int,
        );
        assert((target_length / target_dimension) * target_dimension == target_dimension * (
        target_length / target_dimension)) by (nonlinear_arith);
    }
    Ok(target_length / target_dimension)
}

/// The number from which value `position` of a target is drawn when the
/// target is filled at random: the seed of the model plus the seed times
/// the position.
pub open spec fn initial_seed_spec(random_state: u64, position: nat) -> int {
    random_state + random_state * position
}

/// Whether the number from which value `position` is drawn can be held.
pub fn has_initial_seed(random_state: u64, position: usize) -> (fits: bool)
    ensures
        fits == (initial_seed_spec(random_state, position as nat) <= u64::MAX),
{
    match random_state.checked_mul(position as u64) {
        Some(product) => random_state.checked_add(product).is_some(),
        None => {
            assert(random_state * position >= 0) by (nonlinear_arith)
                requires
                    random_state >= 0,
                    position >= 0,
            ;
            false
        },
    }
}

/// The number from which value `position` of a target is drawn when the
/// target is filled at random.
pub fn initial_seed(random_state: u64, position: usize) -> (seed: u64)
    requires
        initial_seed_spec(random_state, position as nat) <= u64::MAX,
    ensures
        seed == initial_seed_spec(random_state, position as nat),
{
    assert(random_state * position >= 0) by (nonlinear_arith)
        requires
            random_state >= 0,
            position >= 0,
    ;
    random_state + random_state * (position as u64)
}

/// The message with which a fit turns its buffers down. In this order: the
/// target's length does not fit the target dimension; the model does not
/// take that dimension; the original matrix is empty; its length does not
/// fit the original dimension; the target is empty.
pub open spec fn fit_message(
    target_length: nat,
    target_dimension: nat,
    supported: bool,
    original_length: nat,
    original_dimension: nat,
) -> Seq<char> {
    if target_length % target_dimension != 0 || !supported {
        target_message(target_length, target_dimension)
    } else if !has_rows(original_length, original_dimension) {
        shape_message(original_length, original_dimension)
    } else {
        empty_object_message()
    }
}

/// A model that can be fitted: it says which buffers it takes.
pub trait DimensionalReduction {
    /// The model takes targets with rows of this length.
    spec fn supports_target_dimension(&self, target_dimension: usize) -> bool;

    /// The number of rows of a target buffer, or why the model does not take
    /// it: first a length that is no multiple of the target dimension, then a
    /// target dimension that the model does not support.
    fn check_target(&self, target_length: usize, target_dimension: usize) -> (rows: Result<
        usize,
        String,
    >)
        requires
            target_dimension > 0,
        ensures
            target_length % target_dimension == 0 && self.supports_target_dimension(
                target_dimension,
            ) <==> rows is Ok,
            rows matches Err(message) ==> message@ == target_message(
                target_length as nat,
                target_dimension as nat,
            ),
            rows matches Ok(count) ==> count == target_length / target_dimension && count
                * target_dimension == target_length,
    ;

    /// The number of rows of the target of a fit, or why the fit cannot
    /// start. A fit starts exactly when the model takes the target, the
    /// original matrix has rows and no partial row, and the target is not
    /// empty.
    fn check_fit(
        &self,
        target_length: usize,
        target_dimension: usize,
        original_length: usize,
        original_dimension: usize,
    ) -> (rows: Result<usize, String>)
        requires
            target_dimension > 0,
            original_dimension > 0,
        ensures
            rows is Ok <==> {
                &&& target_length % target_dimension == 0
                &&& self.supports_target_dimension(target_dimension)
                &&& has_rows(original_length as nat, original_dimension as nat)
                &&& target_length != 0
            },
            rows matches Err(message) ==> message@ == fit_message(
                target_length as nat,
                target_dimension as nat,
                self.supports_target_dimension(target_dimension),
                original_length as nat,
                original_dimension as nat,
            ),
            rows matches Ok(count) ==> count == target_length / target_dimension && count
                * target_dimension == target_length && count > 0,
    {
        let rows = match self.check_target(target_length, target_dimension) {
            Ok(rows) => rows,
            Err(message) => {
                return Err(message);
            },
        };
        match check_matrix_shape(original_length, original_dimension) {
            Ok(_) => {},
            Err(message) => {
                return Err(message);
            },
        }
        if target_length == 0 {
            return Err(empty_object());
        }
        assert(rows > 0) by (nonlinear_arith)
            requires
                rows * target_dimension == target_length,
                target_length > 0,
        ;
        Ok(rows)
    }
}

impl Decomposition for BasicDecomposition {
    open spec fn basic_decomposition_spec(&self) -> BasicDecomposition {
        *self
    }

    fn get_basic_decomposition(&self) -> (basic: &BasicDecomposition) {
        self
    }
}

impl<T> Decomposition for T where T: IterativeDecomposition {
    open spec fn basic_decomposition_spec(&self) -> BasicDecomposition {
        self.iterative_basic_decomposition_spec().basic_decomposition_spec()
    }

    fn get_basic_decomposition(&self) -> (basic: &BasicDecomposition) {
        self.get_iterative_basic_decomposition().get_basic_decomposition()
    }
}

} // verus!
