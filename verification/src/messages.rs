//! The texts of the errors that the library reports.

use vstd::prelude::*;
use vstd::string::StringExecFns;

verus! {

/// The character of one decimal digit.
pub open spec fn digit_char(digit: nat) -> char
    recommends
        digit < 10,
{
    if digit == 0 {
        '0'
    } else if digit == 1 {
        '1'
    } else if digit == 2 {
        '2'
    } else if digit == 3 {
        '3'
    } else if digit == 4 {
        '4'
    } else if digit == 5 {
        '5'
    } else if digit == 6 {
        '6'
    } else if digit == 7 {
        '7'
    } else if digit == 8 {
        '8'
    } else {
        '9'
    }
}

/// A number written in decimal, without sign or leading zeros.
pub open spec fn decimal_digits(value: nat) -> Seq<char>
    decreases value,
{
    if value < 10 {
        seq![digit_char(value)]
    } else {
        decimal_digits(value / 10).push(digit_char(value % 10))
    }
}

/// The message for a matrix whose length is no multiple of its row length.
pub open spec fn incompatible_dimensionality_message(dimensionality: nat, length: nat) -> Seq<
    char,
> {
    "The provided dimensionality "@ + decimal_digits(dimensionality)
        + " is not compatible with the length of this object "@ + decimal_digits(length) + "."@
}

/// The message for a matrix without values.
pub open spec fn empty_object_message() -> Seq<char> {
    "The provided object is empty"@
}

/// The message for a target buffer whose length is no multiple of the target
/// dimension.
pub open spec fn incompatible_target_message(length: nat, dimension: nat) -> Seq<char> {
    "The provided target slice has length "@ + decimal_digits(length)
        + " which is not compatible with the provided target dimension "@ + decimal_digits(
        dimension,
    ) + "."@
}

/// The message for a target dimension that the Barnes-Hut model cannot take.
pub open spec fn unsupported_dimension_message() -> Seq<char> {
    "Currently we only support 2"@
}

/// The message for a matrix that is not laid out row after row.
pub open spec fn not_contiguous_message() -> Seq<char> {
    "provided vector is not a contiguous vector in C orientation"@
}

/// The message for a name that is no supported type of target values.
pub open spec fn unsupported_dtype_message(dtype: Seq<char>) -> Seq<char> {
    "The data type "@ + dtype + " is not supported."@
}

/// The message for a matrix whose values are of no supported type.
pub open spec fn unsupported_features_message() -> Seq<char> {
    "The provided features are not supported in the cosine similarity computation!"@
}

/// The message for an option whose value is not of the type that the option
/// takes.
pub open spec fn cannot_cast_message(parameter: Seq<char>, given: Seq<char>, wanted: Seq<char>) -> Seq<
    char,
> {
    "The value passed as parameter "@ + parameter + " cannot be casted from "@ + given + " to "@
        + wanted + "."@
}

fn digit_text(digit: usize) -> (text: &'static str)
    requires
        digit < 10,
    ensures
        text@ == seq![digit_char(digit as nat)],
{
    proof {
        reveal_strlit("0");
        reveal_strlit("1");
        reveal_strlit("2");
        reveal_strlit("3");
        reveal_strlit("4");
        reveal_strlit("5");
        reveal_strlit("6");
        reveal_strlit("7");
        reveal_strlit("8");
        reveal_strlit("9");
    }
    let text = if digit == 0 {
        "0"
    } else if digit == 1 {
        "1"
    } else if digit == 2 {
        "2"
    } else if digit == 3 {
        "3"
    } else if digit == 4 {
        "4"
    } else if digit == 5 {
        "5"
    } else if digit == 6 {
        "6"
    } else if digit == 7 {
        "7"
    } else if digit == 8 {
        "8"
    } else {
        "9"
    };
    assert(text@ =~= seq![digit_char(digit as nat)]);
    text
}

/// A number written in decimal.
pub fn decimal(value: usize) -> (text: String)
    ensures
        text@ == decimal_digits(value as nat),
    decreases value,
{
    if value < 10 {
        String::from_str(digit_text(value))
    } else {
        let mut text = decimal(value / 10);
        text.append(digit_text(value % 10));
        assert(text@ =~= decimal_digits(value as nat));
        text
    }
}

/// The message for a matrix whose length is no multiple of its row length.
pub fn incompatible_dimensionality(dimensionality: usize, length: usize) -> (message: String)
    ensures
        message@ == incompatible_dimensionality_message(dimensionality as nat, length as nat),
{
    let mut message = String::from_str("The provided dimensionality ");
    message.append(decimal(dimensionality).as_str());
    message.append(" is not compatible with the length of this object ");
    message.append(decimal(length).as_str());
    message.append(".");
    message
}

/// The message for a matrix without values.
pub fn empty_object() -> (message: String)
    ensures
        message@ == empty_object_message(),
{
    String::from_str("The provided object is empty")
}

/// The message for a target buffer whose length is no multiple of the target
/// dimension.
pub fn incompatible_target(length: usize, dimension: usize) -> (message: String)
    ensures
        message@ == incompatible_target_message(length as nat, dimension as nat),
{
    let mut message = String::from_str("The provided target slice has length ");
    message.append(decimal(length).as_str());
    message.append(" which is not compatible with the provided target dimension ");
    message.append(decimal(dimension).as_str());
    message.append(".");
    message
}

/// The message for a target dimension that the Barnes-Hut model cannot take.
pub fn unsupported_dimension() -> (message: String)
    ensures
        message@ == unsupported_dimension_message(),
{
    String::from_str("Currently we only support 2")
}

/// The message for a matrix that is not laid out row after row.
pub fn not_contiguous() -> (message: String)
    ensures
        message@ == not_contiguous_message(),
{
    String::from_str("provided vector is not a contiguous vector in C orientation")
}

/// The message for a name that is no supported type of target values.
pub fn unsupported_dtype(dtype: &str) -> (message: String)
    ensures
        message@ == unsupported_dtype_message(dtype@),
{
    let mut message = String::from_str("The data type ");
    message.append(dtype);
    message.append(" is not supported.");
    message
}

/// The message for a matrix whose values are of no supported type.
pub fn unsupported_features() -> (message: String)
    ensures
        message@ == unsupported_features_message(),
{
    String::from_str("The provided features are not supported in the cosine similarity computation!")
}

/// The message for an option whose value is not of the type that the option
/// takes.
pub fn cannot_cast(parameter: &str, given: &str, wanted: &str) -> (message: String)
    ensures
        message@ == cannot_cast_message(parameter@, given@, wanted@),
{
    let mut message = String::from_str("The value passed as parameter ");
    message.append(parameter);
    message.append(" cannot be casted from ");
    message.append(given);
    message.append(" to ");
    message.append(wanted);
    message.append(".");
    message
}

} // verus!
