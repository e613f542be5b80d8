use cairo_fuzzer::relocatable::{CompareOp, PyMaybeRelocatable, PyRelocatable, RelocatableError};

#[test]
fn py_relocatable_new() {
    let values = (1, 2);

    let py_relocatable = PyRelocatable::new(values);

    assert_eq!(
        py_relocatable,
        PyRelocatable {
            segment_index: values.0,
            offset: values.1,
        }
    );
}

#[test]
fn py_relocatable_repr() {
    let values = (1, 2);

    let py_relocatable = PyRelocatable::new(values);

    assert_eq!(
        py_relocatable.__repr__(),
        format!(
            "({}, {})",
            py_relocatable.segment_index, py_relocatable.offset
        )
    );
}

#[test]
fn py_relocatable_add() {
    let values = (1, 2);

    let py_relocatable = PyRelocatable::new(values);

    assert_eq!(py_relocatable.__add__(2), PyRelocatable::new((1, 4)));
}

#[test]
fn py_relocatable_sub_with_int() {
    let values = (1, 2);

    let py_relocatable = PyRelocatable::new(values);
    let py_maybe_relocatable_int_variant = PyMaybeRelocatable::Int(1);
    let substraction = py_relocatable
        .__sub__(py_maybe_relocatable_int_variant)
        .unwrap();

    assert_eq!(
        substraction,
        PyMaybeRelocatable::RelocatableValue(PyRelocatable {
            segment_index: 1,
            offset: 1,
        })
    );
}

#[test]
fn py_relocatable_sub_with_relocatable_value() {
    let values1 = (2, 5);
    let values2 = (2, 4);

    let py_relocatable1 = PyRelocatable::new(values1);
    let py_relocatable2 = PyRelocatable::new(values2);

    let py_maybe_relocatable = PyMaybeRelocatable::RelocatableValue(py_relocatable2);
    let substraction = py_relocatable1.__sub__(py_maybe_relocatable).unwrap();

    assert_eq!(substraction, PyMaybeRelocatable::Int(1));
}

#[test]
fn py_relocatable_sub_with_relocatable_value_err() {
    let values1 = (12, 5);
    let values2 = (2, 4);

    let py_relocatable1 = PyRelocatable::new(values1);
    let py_relocatable2 = PyRelocatable::new(values2);

    let py_maybe_relocatable = PyMaybeRelocatable::RelocatableValue(py_relocatable2);
    assert!(py_relocatable1.__sub__(py_maybe_relocatable).is_err());
}

#[test]
fn py_relocatable_richcmp_valid() {
    let values1 = (2, 5);
    let values2 = (2, 4);

    let py_relocatable1 = PyRelocatable::new(values1);
    let py_relocatable2 = PyRelocatable::new(values2);

    assert!(!py_relocatable1
        .__richcmp__(&py_relocatable2, CompareOp::Eq)
        .unwrap());
    assert!(py_relocatable1
        .__richcmp__(&py_relocatable2, CompareOp::Ge)
        .unwrap());
    assert!(py_relocatable1
        .__richcmp__(&py_relocatable2, CompareOp::Gt)
        .unwrap());
    assert!(!py_relocatable1
        .__richcmp__(&py_relocatable2, CompareOp::Le)
        .unwrap());
    assert!(!py_relocatable1
        .__richcmp__(&py_relocatable2, CompareOp::Lt)
        .unwrap());
    assert!(py_relocatable1
        .__richcmp__(&py_relocatable2, CompareOp::Ne)
        .unwrap());
}

#[test]
fn py_relocatable_richcmp_error() {
    let values1 = (1, 5);
    let values2 = (2, 4);

    let py_relocatable1 = PyRelocatable::new(values1);
    let py_relocatable2 = PyRelocatable::new(values2);

    assert!(py_relocatable1
        .__richcmp__(&py_relocatable2, CompareOp::Ge)
        .is_err());
    assert!(py_relocatable1
        .__richcmp__(&py_relocatable2, CompareOp::Gt)
        .is_err());
    assert!(py_relocatable1
        .__richcmp__(&py_relocatable2, CompareOp::Le)
        .is_err());
    assert!(py_relocatable1
        .__richcmp__(&py_relocatable2, CompareOp::Lt)
        .is_err());
}

#[test]
fn py_relocatable_from_tuple() {
    let values: (isize, usize) = (123, 456);

    assert_eq!(
        PyRelocatable::from(values),
        PyRelocatable {
            segment_index: 123,
            offset: 456,
        }
    );
}

#[test]
fn py_maybe_relocatable_from_py_relocatable() {
    let relocatable = PyRelocatable {
        segment_index: 32,
        offset: 12,
    };

    assert_eq!(
        PyMaybeRelocatable::from(relocatable),
        PyMaybeRelocatable::RelocatableValue(PyRelocatable {
            segment_index: 32,
            offset: 12,
        })
    );
}

#[test]
fn py_maybe_relocatable_from_bigint() {
    let value: i128 = 7654321;

    assert_eq!(
        PyMaybeRelocatable::from(value.clone()),
        PyMaybeRelocatable::Int(value)
    );
}

#[test]
fn py_maybe_relocatable_from_bigint_ref() {
    let value: i128 = 7654321;

    assert_eq!(
        PyMaybeRelocatable::from(&value),
        PyMaybeRelocatable::Int(value)
    );
}

#[test]
fn relocatable_repr_of_negative_segment() {
    let r = PyRelocatable::new((-3, 40));
    assert_eq!(r.__repr__(), "(-3, 40)");
    let m = PyRelocatable::new((isize::MIN, 0));
    assert_eq!(m.__repr__(), format!("({}, 0)", isize::MIN));
}

#[test]
fn relocatable_sub_error_and_messages() {
    let a = PyRelocatable::new((1, 9));
    let b = PyRelocatable::new((2, 3));
    assert_eq!(
        a.__sub__(PyMaybeRelocatable::RelocatableValue(b)),
        Err(RelocatableError::SubtractDifferentSegments)
    );
    assert_eq!(
        a.__richcmp__(&b, CompareOp::Lt),
        Err(RelocatableError::CompareDifferentSegments)
    );
    assert_eq!(
        RelocatableError::CompareDifferentSegments.message(),
        "Cannot compare Relocatables of different segments"
    );
    assert_eq!(
        RelocatableError::SubtractDifferentSegments.message(),
        "Can only subtract two relocatable values of the same segment"
    );
}

#[test]
fn relocatable_equality_across_segments_never_fails() {
    let a = PyRelocatable::new((1, 9));
    let b = PyRelocatable::new((2, 9));
    assert_eq!(a.__richcmp__(&b, CompareOp::Eq), Ok(false));
    assert_eq!(a.__richcmp__(&b, CompareOp::Ne), Ok(true));
    assert_eq!(a.__richcmp__(&a, CompareOp::Eq), Ok(true));
}

#[test]
fn relocatable_same_segment_orders_agree() {
    let a = PyRelocatable::new((4, 2));
    let b = PyRelocatable::new((4, 7));
    assert_eq!(a.__richcmp__(&b, CompareOp::Le), Ok(true));
    assert_eq!(b.__richcmp__(&a, CompareOp::Lt), Ok(false));
    assert_eq!(a.__richcmp__(&b, CompareOp::Ge), b.__richcmp__(&a, CompareOp::Le));
    assert_eq!(a.__richcmp__(&b, CompareOp::Gt), b.__richcmp__(&a, CompareOp::Lt));
    assert_eq!(a.__richcmp__(&a, CompareOp::Le), Ok(true));
    assert_eq!(a.__richcmp__(&a, CompareOp::Lt), Ok(false));
}
