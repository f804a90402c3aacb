//! What the adapter of a host array decides before a fit: how many target
//! dimensions to use, which precision the target has, and whether the given
//! matrix can be read row after row.

use vstd::prelude::*;
use vstd::string::StringExecFns;
use crate::messages::{
    not_contiguous,
    not_contiguous_message,
    unsupported_dtype,
    unsupported_dtype_message,
};

verus! {

/// Number of target dimensions used when the caller gives none.
pub const DEFAULT_NUMBER_OF_DIMENSIONS: usize = 2;

/// The precision of the values of a target matrix.
#[derive(Clone, Copy, Debug, PartialEq, Eq, Structural)]
pub enum TargetPrecision {
    /// 32 bits a value.
    Single,
    /// 64 bits a value.
    Double,
}

/// The name of the single-precision type.
pub open spec fn single_precision_name() -> Seq<char> {
    "f32"@
}

/// The name of the double-precision type.
pub open spec fn double_precision_name() -> Seq<char> {
    "f64"@
}

/// The number of target dimensions of a fit: the requested one, else 2.
pub fn get_number_of_dimensions(requested: Option<usize>) -> (number_of_dimensions: usize)
    ensures
        number_of_dimensions == match requested {
            Some(n) => n,
            None => DEFAULT_NUMBER_OF_DIMENSIONS,
        },
{
    match requested {
        Some(n) => n,
        None => DEFAULT_NUMBER_OF_DIMENSIONS,
    }
}

/// The precision that a type name asks for; single precision where no name
/// is given. Fails for every name but the two of the supported types.
pub fn select_precision(dtype: Option<&str>) -> (precision: Result<TargetPrecision, String>)
    ensures
        match dtype {
            None => precision == Ok::<TargetPrecision, String>(TargetPrecision::Single),
            Some(name) => if name@ == single_precision_name() {
                precision == Ok::<TargetPrecision, String>(TargetPrecision::Single)
            } else if name@ == double_precision_name() {
                precision == Ok::<TargetPrecision, String>(TargetPrecision::Double)
            } else {
                precision matches Err(message) && message@ == unsupported_dtype_message(name@)
            },
        },
{
    match dtype {
        None => Ok(TargetPrecision::Single),
        Some(name) => {
            let given = String::from_str(name);
            if given == String::from_str("f32") {
                Ok(TargetPrecision::Single)
            } else if given == String::from_str("f64") {
                Ok(TargetPrecision::Double)
            } else {
                Err(unsupported_dtype(name))
            }
        },
    }
}

/// Accepts a matrix that is laid out row after row, and no other.
pub fn check_contiguous(is_c_contiguous: bool) -> (checked: Result<(), String>)
    ensures
        is_c_contiguous <==> checked is Ok,
        checked matches Err(message) ==> message@ == not_contiguous_message(),
{
    if is_c_contiguous {
        Ok(())
    } else {
        Err(not_contiguous())
    }
}

} // verus!
