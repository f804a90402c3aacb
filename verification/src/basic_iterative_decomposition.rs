//! Options shared by the iterative models: the basic options, a number of
//! iterations and a learning rate.

use vstd::prelude::*;
use crate::basic_decomposition::{empty_model_name_message, BasicDecomposition};

verus! {

/// Number of iterations used when the caller gives none.
pub const DEFAULT_ITERATIONS: usize = 100;

/// Learning rate used when the caller gives none: one hundredth, as the bits
/// of its single-precision encoding.
pub const DEFAULT_LEARNING_RATE: u32 = 0x3C23_D70A;

/// Options shared by the iterative models. The learning rate is carried as
/// the 32 bits of its single-precision encoding.
#[derive(Clone, Debug)]
pub struct BasicIterativeDecomposition {
    pub(crate) basic_decomposition: BasicDecomposition,
    pub(crate) iterations: usize,
    pub(crate) learning_rate: u32,
}

impl BasicIterativeDecomposition {
    /// The basic options are well formed.
    pub closed spec fn wf(&self) -> bool {
        self.basic_decomposition.wf()
    }

    /// The basic options.
    pub closed spec fn basic_decomposition_spec(&self) -> BasicDecomposition {
        self.basic_decomposition
    }

    /// The number of iterations.
    pub closed spec fn iterations_spec(&self) -> usize {
        self.iterations
    }

    /// The bits of the learning rate.
    pub closed spec fn learning_rate_spec(&self) -> u32 {
        self.learning_rate
    }

    /// The basic options.
    pub fn get_basic_decomposition(&self) -> (basic: &BasicDecomposition)
        ensures
            *basic == self.basic_decomposition_spec(),
    {
        &self.basic_decomposition
    }

    /// The number of iterations of a fit.
    pub fn get_iterations(&self) -> (iterations: usize)
        ensures
            iterations == self.iterations_spec(),
    {
        self.iterations
    }

    /// The bits of the learning rate.
    pub fn get_learning_rate(&self) -> (learning_rate: u32)
        ensures
            learning_rate == self.learning_rate_spec(),
    {
        self.learning_rate
    }

    /// Builds the options; missing iterations are 100, a missing learning
    /// rate is one hundredth, and the rest is as for the basic options.
    /// Fails exactly when the name is empty.
    pub fn new(
        iterations: Option<usize>,
        learning_rate: Option<u32>,
        model_name: &str,
        random_state: Option<u64>,
        verbose: Option<bool>,
    ) -> (r: Result<Self, String>)
        ensures
            model_name@.len() == 0 <==> r is Err,
            r matches Err(e) ==> e@ == empty_model_name_message(),
            r matches Ok(d) ==> {
                &&& d.wf()
                &&& d.basic_decomposition_spec().model_name_spec() == model_name@
                &&& d.basic_decomposition_spec().random_state_spec() == match random_state {
                    Some(s) => s,
                    None => crate::basic_decomposition::DEFAULT_RANDOM_STATE,
                }
                &&& d.basic_decomposition_spec().verbose_spec() == match verbose {
                    Some(v) => v,
                    None => crate::basic_decomposition::DEFAULT_VERBOSE,
                }
                &&& d.iterations_spec() == match iterations {
                    Some(i) => i,
                    None => DEFAULT_ITERATIONS,
                }
                &&& d.learning_rate_spec() == match learning_rate {
                    Some(l) => l,
                    None => DEFAULT_LEARNING_RATE,
                }
            },
    {
        let basic_decomposition = match BasicDecomposition::new(model_name, random_state, verbose) {
            Ok(basic_decomposition) => basic_decomposition,
            Err(message) => {
                return Err(message);
            },
        };
        Ok(
            Self {
                basic_decomposition,
                iterations: match iterations {
                    Some(i) => i,
                    None => DEFAULT_ITERATIONS,
                },
                learning_rate: match learning_rate {
                    Some(l) => l,
                    None => DEFAULT_LEARNING_RATE,
                },
            },
        )
    }
}

} // verus!
