//! The Barnes-Hut model: far rows are matched through the cells of a grid,
//! near rows one by one.

use vstd::prelude::*;
use crate::basic_decomposition::{DEFAULT_RANDOM_STATE, DEFAULT_VERBOSE};
use crate::basic_iterative_decomposition::{
    BasicIterativeDecomposition,
    DEFAULT_ITERATIONS,
    DEFAULT_LEARNING_RATE,
};
use crate::messages::unsupported_dimension;
use crate::traits::{check_target_shape, DimensionalReduction, IterativeDecomposition};

verus! {

/// Depth of the grid used when the caller gives none.
pub const DEFAULT_DEPTH: usize = 3;

/// The only target dimension that the grid covers.
pub const SUPPORTED_TARGET_DIMENSION: usize = 2;

/// The name under which the Barnes-Hut model reports.
pub open spec fn barnes_hut_model_name() -> Seq<char> {
    "Barnes-Hut Sigmoid Decomposition"@
}

/// The options of the Barnes-Hut model.
#[derive(Clone, Debug)]
pub struct BarnesHutSigmoidDecomposition {
    decomposition: BasicIterativeDecomposition,
    depth: usize,
}

impl BarnesHutSigmoidDecomposition {
    /// The depth of the grid.
    pub closed spec fn depth_spec(&self) -> usize {
        self.depth
    }

    /// The Barnes-Hut model with the given options; a missing depth is 3.
    pub fn new(decomposition: BasicIterativeDecomposition, depth: Option<usize>) -> (model: Self)
        ensures
            model.iterative_basic_decomposition_spec() == decomposition,
            model.depth_spec() == match depth {
                Some(d) => d,
                None => DEFAULT_DEPTH,
            },
    {
        Self {
            decomposition,
            depth: match depth {
                Some(d) => d,
                None => DEFAULT_DEPTH,
            },
        }
    }

    /// The Barnes-Hut model with the given options, each with its default
    /// where none is given, under its own name.
    pub fn from_options(
        iterations: Option<usize>,
        learning_rate: Option<u32>,
        random_state: Option<u64>,
        verbose: Option<bool>,
        depth: Option<usize>,
    ) -> (model: Result<Self, String>)
        ensures
            model matches Ok(m) && {
                let options = m.iterative_basic_decomposition_spec();
                &&& options.wf()
                &&& options.basic_decomposition_spec().model_name_spec() == barnes_hut_model_name()
                &&& options.basic_decomposition_spec().random_state_spec() == match random_state {
                    Some(s) => s,
                    None => DEFAULT_RANDOM_STATE,
                }
                &&& options.basic_decomposition_spec().verbose_spec() == match verbose {
                    Some(v) => v,
                    None => DEFAULT_VERBOSE,
                }
                &&& options.iterations_spec() == match iterations {
                    Some(i) => i,
                    None => DEFAULT_ITERATIONS,
                }
                &&& options.learning_rate_spec() == match learning_rate {
                    Some(l) => l,
                    None => DEFAULT_LEARNING_RATE,
                }
                &&& m.depth_spec() == match depth {
                    Some(d) => d,
                    None => DEFAULT_DEPTH,
                }
            },
    {
        proof {
            reveal_strlit("Barnes-Hut Sigmoid Decomposition");
        }
        match BasicIterativeDecomposition::new(
            iterations,
            learning_rate,
            "Barnes-Hut Sigmoid Decomposition",
            random_state,
            verbose,
        ) {
            Ok(decomposition) => Ok(Self::new(decomposition, depth)),
            Err(message) => Err(message),
        }
    }

    /// The depth of the grid.
    pub fn get_depth(&self) -> (depth: usize)
        ensures
            depth == self.depth_spec(),
    {
        self.depth
    }
}

impl IterativeDecomposition for BarnesHutSigmoidDecomposition {
    closed spec fn iterative_basic_decomposition_spec(&self) -> BasicIterativeDecomposition {
        self.decomposition
    }

    fn get_iterative_basic_decomposition(&self) -> (iterative: &BasicIterativeDecomposition) {
        &self.decomposition
    }
}

impl DimensionalReduction for BarnesHutSigmoidDecomposition {
    /// The Barnes-Hut model takes targets of two dimensions only.
    open spec fn supports_target_dimension(&self, target_dimension: usize) -> bool {
        target_dimension == SUPPORTED_TARGET_DIMENSION
    }

    fn check_target(&self, target_length: usize, target_dimension: usize) -> (rows: Result<
        usize,
        String,
    >) {
        let rows = check_target_shape(target_length, target_dimension);
        if rows.is_ok() && target_dimension != SUPPORTED_TARGET_DIMENSION {
            return Err(unsupported_dimension());
        }
        rows
    }
}

} // verus!
