//! Options shared by every model: a name, a seed and a verbosity switch.

use vstd::prelude::*;

verus! {

/// Seed used when the caller gives none.
pub const DEFAULT_RANDOM_STATE: u64 = 42;

/// Verbosity used when the caller gives none.
pub const DEFAULT_VERBOSE: bool = true;

/// The message of the error returned for an empty model name.
pub open spec fn empty_model_name_message() -> Seq<char> {
    "The provided model name is empty."@
}

/// Options shared by every model. The name is never empty.
#[derive(Clone, Debug)]
pub struct BasicDecomposition {
    pub(crate) model_name: String,
    pub(crate) random_state: u64,
    pub(crate) verbose: bool,
}

impl BasicDecomposition {
    /// The name of a well-formed value is not empty.
    pub closed spec fn wf(&self) -> bool {
        self.model_name@.len() > 0
    }

    /// The model name, as a sequence of characters.
    pub closed spec fn model_name_spec(&self) -> Seq<char> {
        self.model_name@
    }

    /// The seed.
    pub closed spec fn random_state_spec(&self) -> u64 {
        self.random_state
    }

    /// Whether progress is reported.
    pub closed spec fn verbose_spec(&self) -> bool {
        self.verbose
    }

    /// The name of the model.
    pub fn get_model_name(&self) -> (name: &str)
        ensures
            name@ == self.model_name_spec(),
    {
        self.model_name.as_str()
    }

    /// The seed of the model.
    pub fn get_random_state(&self) -> (random_state: u64)
        ensures
            random_state == self.random_state_spec(),
    {
        self.random_state
    }

    /// Whether the model reports its progress.
    pub fn is_verbose(&self) -> (verbose: bool)
        ensures
            verbose == self.verbose_spec(),
    {
        self.verbose
    }

    /// Builds the options; a missing seed is 42, a missing verbosity is `true`.
    /// Fails exactly when the name is empty.
    pub fn new(model_name: &str, random_state: Option<u64>, verbose: Option<bool>) -> (r: Result<
        Self,
        String,
    >)
        ensures
            model_name@.len() == 0 <==> r is Err,
            r matches Err(e) ==> e@ == empty_model_name_message(),
            r matches Ok(d) ==> {
                &&& d.wf()
                &&& d.model_name_spec() == model_name@
                &&& d.random_state_spec() == match random_state {
                    Some(s) => s,
                    None => DEFAULT_RANDOM_STATE,
                }
                &&& d.verbose_spec() == match verbose {
                    Some(v) => v,
                    None => DEFAULT_VERBOSE,
                }
            },
    {
        if model_name.is_empty() {
            return Err(String::from_str("The provided model name is empty."));
        }
        Ok(
            Self {
                model_name: String::from_str(model_name),
                random_state: match random_state {
                    Some(s) => s,
                    None => DEFAULT_RANDOM_STATE,
                },
                verbose: match verbose {
                    Some(v) => v,
                    None => DEFAULT_VERBOSE,
                },
            },
        )
    }
}

} // verus!
