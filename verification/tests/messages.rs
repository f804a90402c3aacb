use dimensional_reduction::messages::{
    cannot_cast, decimal, empty_object, incompatible_dimensionality, incompatible_target,
    not_contiguous, unsupported_dimension, unsupported_dtype, unsupported_features,
};

#[test]
fn decimal_agrees_with_the_standard_formatting() {
    for value in [0usize, 1, 9, 10, 11, 99, 100, 101, 65535, 65536, 4294967295] {
        assert_eq!(decimal(value), value.to_string());
    }
}

#[test]
fn the_messages_name_the_numbers_given() {
    assert_eq!(
        incompatible_dimensionality(3, 100),
        "The provided dimensionality 3 is not compatible with the length of this object 100."
    );
    assert_eq!(
        incompatible_target(5, 2),
        "The provided target slice has length 5 which is not compatible with the provided target dimension 2."
    );
}

#[test]
fn the_fixed_messages_read_as_documented() {
    assert_eq!(empty_object(), "The provided object is empty");
    assert_eq!(unsupported_dimension(), "Currently we only support 2");
    assert_eq!(
        not_contiguous(),
        "provided vector is not a contiguous vector in C orientation"
    );
    assert_eq!(
        unsupported_features(),
        "The provided features are not supported in the cosine similarity computation!"
    );
}

#[test]
fn the_messages_name_the_texts_given() {
    assert_eq!(unsupported_dtype("f16"), "The data type f16 is not supported.");
    assert_eq!(
        cannot_cast("iterations", "str", "usize"),
        "The value passed as parameter iterations cannot be casted from str to usize."
    );
}
