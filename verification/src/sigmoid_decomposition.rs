//! The exact model: every pair of rows is matched in every iteration.

use vstd::prelude::*;
use crate::basic_iterative_decomposition::{
    BasicIterativeDecomposition,
    DEFAULT_ITERATIONS,
    DEFAULT_LEARNING_RATE,
};
use crate::basic_decomposition::{DEFAULT_RANDOM_STATE, DEFAULT_VERBOSE};
use crate::traits::{check_target_shape, DimensionalReduction, IterativeDecomposition};

verus! {

/// The name under which the exact model reports.
pub open spec fn sigmoid_model_name() -> Seq<char> {
    "Sigmoid Decomposition"@
}

/// The options of the exact model.
#[derive(Clone, Debug)]
pub struct SigmoidDecomposition {
    decomposition: BasicIterativeDecomposition,
}

impl SigmoidDecomposition {
    /// The exact model with the given options, each with its default where
    /// none is given, under its own name.
    pub fn new(
        iterations: Option<usize>,
        learning_rate: Option<u32>,
        random_state: Option<u64>,
        verbose: Option<bool>,
    ) -> (model: Result<Self, String>)
        ensures
            model matches Ok(m) && {
                let options = m.iterative_basic_decomposition_spec();
                &&& options.wf()
                &&& options.basic_decomposition_spec().model_name_spec() == sigmoid_model_name()
                &&& options.basic_decomposition_spec().random_state_spec() == match random_state {
                    Some(s) => s,
                    None => DEFAULT_RANDOM_STATE,
                }
                &&& options.basic_decomposition_spec().verbose_spec() == match verbose {
                    Some(v) => v,
                    None => DEFAULT_VERBOSE,
                }
                &&& options.iterations_spec() == match iterations {
                    Some(i) => i,
                    None => DEFAULT_ITERATIONS,
                }
                &&& options.learning_rate_spec() == match learning_rate {
                    Some(l) => l,
                    None => DEFAULT_LEARNING_RATE,
                }
            },
    {
        proof {
            reveal_strlit("Sigmoid Decomposition");
        }
        match BasicIterativeDecomposition::new(
            iterations,
            learning_rate,
            "Sigmoid Decomposition",
            random_state,
            verbose,
        ) {
            Ok(decomposition) => Ok(Self { decomposition }),
            Err(message) => Err(message),
        }
    }
}

impl IterativeDecomposition for SigmoidDecomposition {
    closed spec fn iterative_basic_decomposition_spec(&self) -> BasicIterativeDecomposition {
        self.decomposition
    }

    fn get_iterative_basic_decomposition(&self) -> (iterative: &BasicIterativeDecomposition) {
        &self.decomposition
    }
}

impl DimensionalReduction for SigmoidDecomposition {
    /// The exact model takes every target dimension.
    open spec fn supports_target_dimension(&self, target_dimension: usize) -> bool {
        true
    }

    fn check_target(&self, target_length: usize, target_dimension: usize) -> (rows: Result<
        usize,
        String,
    >) {
        check_target_shape(target_length, target_dimension)
    }
}

} // verus!
