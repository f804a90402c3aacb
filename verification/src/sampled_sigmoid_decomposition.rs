//! The sampled model: every row is matched with one other row, drawn anew in
//! every iteration.

use vstd::prelude::*;
use crate::basic_decomposition::{DEFAULT_RANDOM_STATE, DEFAULT_VERBOSE};
use crate::basic_iterative_decomposition::{
    BasicIterativeDecomposition,
    DEFAULT_ITERATIONS,
    DEFAULT_LEARNING_RATE,
};
use crate::traits::{check_target_shape, DimensionalReduction, IterativeDecomposition};

verus! {

/// The name under which the sampled model reports.
pub open spec fn sampled_sigmoid_model_name() -> Seq<char> {
    "Sampled Sigmoid Decomposition"@
}

/// The options of the sampled model.
#[derive(Clone, Debug)]
pub struct SampledSigmoidDecomposition {
    decomposition: BasicIterativeDecomposition,
}

impl From<BasicIterativeDecomposition> for SampledSigmoidDecomposition {
    /// The sampled model with the given options.
    fn from(decomposition: BasicIterativeDecomposition) -> (model: Self) {
        Self { decomposition }
    }
}

impl vstd::std_specs::convert::FromSpecImpl<BasicIterativeDecomposition> for SampledSigmoidDecomposition {
    open spec fn obeys_from_spec() -> bool {
        true
    }

    closed spec fn from_spec(decomposition: BasicIterativeDecomposition) -> Self {
        SampledSigmoidDecomposition { decomposition }
    }
}

/// The sampled model made of some options has these options.
pub proof fn lemma_from_keeps_the_options(decomposition: BasicIterativeDecomposition)
    ensures
        <SampledSigmoidDecomposition as vstd::std_specs::convert::FromSpec<
            BasicIterativeDecomposition,
        >>::from_spec(decomposition).iterative_basic_decomposition_spec() == decomposition,
{
}

impl SampledSigmoidDecomposition {
    /// The sampled model with the given options, each with its default where
    /// none is given, under its own name.
    pub fn from_options(
        iterations: Option<usize>,
        learning_rate: Option<u32>,
        random_state: Option<u64>,
        verbose: Option<bool>,
    ) -> (model: Result<Self, String>)
        ensures
            model matches Ok(m) && {
                let options = m.iterative_basic_decomposition_spec();
                &&& options.wf()
                &&& options.basic_decomposition_spec().model_name_spec()
                    == sampled_sigmoid_model_name()
                &&& options.basic_decomposition_spec().random_state_spec() == match random_state {
                    Some(s) => s,
                    None => DEFAULT_RANDOM_STATE,
                }
                &&& options.basic_decomposition_spec().verbose_spec() == match verbose {
                    Some(v) => v,
                    None => DEFAULT_VERBOSE,
                }
                &&& options.iterations_spec() == match iterations {
                    Some(i) => i,
                    None => DEFAULT_ITERATIONS,
                }
                &&& options.learning_rate_spec() == match learning_rate {
                    Some(l) => l,
                    None => DEFAULT_LEARNING_RATE,
                }
            },
    {
        proof {
            reveal_strlit("Sampled Sigmoid Decomposition");
        }
        match BasicIterativeDecomposition::new(
            iterations,
            learning_rate,
            "Sampled Sigmoid Decomposition",
            random_state,
            verbose,
        ) {
            Ok(decomposition) => Ok(Self { decomposition }),
            Err(message) => Err(message),
        }
    }
}

impl IterativeDecomposition for SampledSigmoidDecomposition {
    closed spec fn iterative_basic_decomposition_spec(&self) -> BasicIterativeDecomposition {
        self.decomposition
    }

    fn get_iterative_basic_decomposition(&self) -> (iterative: &BasicIterativeDecomposition) {
        &self.decomposition
    }
}

impl DimensionalReduction for SampledSigmoidDecomposition {
    /// The sampled model takes every target dimension.
    open spec fn supports_target_dimension(&self, target_dimension: usize) -> bool {
        true
    }

    fn check_target(&self, target_length: usize, target_dimension: usize) -> (rows: Result<
        usize,
        String,
    >) {
        check_target_shape(target_length, target_dimension)
    }
}

/// The row that a drawn number picks among `number_of_samples` rows.
pub open spec fn sampled_partner_spec(drawn: u64, number_of_samples: usize) -> usize {
    (drawn as usize) % number_of_samples
}

/// The seed from which the partner of row `sample` is drawn in an iteration
/// with the state `random_state`: the state plus the row times the state,
/// both wrapping.
pub fn partner_seed(random_state: u64, sample: usize) -> (seed: u64)
    ensures
        seed == random_state.wrapping_add((sample as u64).wrapping_mul(random_state)),
{
    random_state.wrapping_add((sample as u64).wrapping_mul(random_state))
}

/// The row that a drawn number picks: the number, cut to the width of an
/// index, modulo the number of rows.
pub fn sampled_partner(drawn: u64, number_of_samples: usize) -> (partner: usize)
    requires
        number_of_samples > 0,
    ensures
        partner == sampled_partner_spec(drawn, number_of_samples),
        partner < number_of_samples,
{
    (#[verifier::truncate] (drawn as usize)) % number_of_samples
}

} // verus!
