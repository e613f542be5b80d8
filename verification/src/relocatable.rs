//! Addresses of the Cairo VM memory as hints see them: a segment and an
//! offset, with the arithmetic and comparisons hints may use.
use vstd::prelude::*;
use vstd::std_specs::convert::FromSpecImpl;
use crate::native::utils::{decimal, spec_decimal};

verus! {

/// An address of the Cairo VM memory: a segment and an offset in it.
#[derive(Debug, Clone, Copy, PartialEq, Eq, Structural)]
pub struct PyRelocatable {
    pub segment_index: isize,
    pub offset: usize,
}

/// A memory value: an integer or an address.
#[derive(Debug, Clone, Copy, PartialEq, Eq, Structural)]
pub enum PyMaybeRelocatable {
    Int(i128),
    RelocatableValue(PyRelocatable),
}

/// The comparisons a hint may ask for.
#[derive(Debug, Clone, Copy, PartialEq, Eq, Structural)]
pub enum CompareOp {
    Lt,
    Le,
    Eq,
    Ne,
    Gt,
    Ge,
}

/// Why an operation on addresses failed.
#[derive(Debug, Clone, Copy, PartialEq, Eq, Structural)]
pub enum RelocatableError {
    /// Two addresses of different segments were ordered.
    CompareDifferentSegments,
    /// An address was subtracted from one of another segment.
    SubtractDifferentSegments,
}

impl RelocatableError {
    /// The message of the error.
    pub fn message(&self) -> (r: String)
        ensures
            *self == RelocatableError::CompareDifferentSegments ==> r@ == "Cannot compare Relocatables of different segments"@,
            *self == RelocatableError::SubtractDifferentSegments ==> r@ == "Can only subtract two relocatable values of the same segment"@,
    {
        match self {
            RelocatableError::CompareDifferentSegments => String::from_str("Cannot compare Relocatables of different segments"),
            RelocatableError::SubtractDifferentSegments => String::from_str("Can only subtract two relocatable values of the same segment"),
        }
    }
}

/// The result of comparing `a` with `b`: equality compares both parts,
/// orderings compare the offsets of two addresses of the same segment and
/// fail for different segments.
pub open spec fn spec_richcmp(a: PyRelocatable, b: PyRelocatable, op: CompareOp) -> Result<bool, RelocatableError> {
    match op {
        CompareOp::Eq => Ok(a == b),
        CompareOp::Ne => Ok(a != b),
        _ => if a.segment_index != b.segment_index {
            Err(RelocatableError::CompareDifferentSegments)
        } else {
            Ok(match op {
                CompareOp::Lt => a.offset < b.offset,
                CompareOp::Le => a.offset <= b.offset,
                CompareOp::Gt => a.offset > b.offset,
                _ => a.offset >= b.offset,
            })
        },
    }
}

/// The text of an integer in decimal, with a minus sign when negative.
pub open spec fn spec_signed_decimal(i: int) -> Seq<char> {
    if i < 0 {
        seq!['-'] + spec_decimal((-i) as nat)
    } else {
        spec_decimal(i as nat)
    }
}

/// The decimal text of an `isize`.
pub fn signed_decimal(i: isize) -> (r: String)
    ensures
        r@ == spec_signed_decimal(i as int),
{
    if i < 0 {
        let magnitude = (-(i as i128)) as u64;
        assert(magnitude == -i);
        proof {
            reveal_strlit("-");
        }
        let r = String::from_str("-").concat(decimal(magnitude).as_str());
        assert(r@ =~= seq!['-'] + spec_decimal((-i) as nat));
        r
    } else {
        decimal(i as u64)
    }
}

/// Whether a subtraction can be carried out: an integer must be a size no
/// larger than the offset; an address must be in the same segment, where
/// its offset must be no larger than the offset.
pub open spec fn sub_defined(a: PyRelocatable, value: PyMaybeRelocatable) -> bool {
    match value {
        PyMaybeRelocatable::Int(v) => 0 <= v <= a.offset,
        PyMaybeRelocatable::RelocatableValue(b) => a.segment_index == b.segment_index ==> b.offset <= a.offset,
    }
}

impl PyRelocatable {
    /// The address at `offset` of segment `segment_index`.
    pub fn new(tuple: (isize, usize)) -> (r: PyRelocatable)
        ensures
            r == (PyRelocatable { segment_index: tuple.0, offset: tuple.1 }),
    {
        PyRelocatable { segment_index: tuple.0, offset: tuple.1 }
    }

    /// The address `value` cells further in the same segment.
    pub fn __add__(&self, value: usize) -> (r: PyRelocatable)
        requires
            self.offset + value <= usize::MAX,
        ensures
            r == (PyRelocatable { segment_index: self.segment_index, offset: (self.offset + value) as usize }),
    {
        PyRelocatable { segment_index: self.segment_index, offset: self.offset + value }
    }

    /// Subtracts an integer (giving the address that many cells back) or
    /// an address of the same segment (giving the distance between them);
    /// an address of another segment is an error.
    pub fn __sub__(&self, value: PyMaybeRelocatable) -> (r: Result<PyMaybeRelocatable, RelocatableError>)
        requires
            sub_defined(*self, value),
        ensures
            match value {
                PyMaybeRelocatable::Int(v) => r == Ok::<PyMaybeRelocatable, RelocatableError>(
                    PyMaybeRelocatable::RelocatableValue(
                        PyRelocatable { segment_index: self.segment_index, offset: (self.offset - v) as usize },
                    ),
                ),
                PyMaybeRelocatable::RelocatableValue(b) => if self.segment_index != b.segment_index {
                    r == Err::<PyMaybeRelocatable, RelocatableError>(RelocatableError::SubtractDifferentSegments)
                } else {
                    r == Ok::<PyMaybeRelocatable, RelocatableError>(PyMaybeRelocatable::Int((self.offset - b.offset) as i128))
                },
            },
    {
        match value {
            PyMaybeRelocatable::Int(v) => {
                let v = v as usize;
                Ok(PyMaybeRelocatable::RelocatableValue(
                    PyRelocatable { segment_index: self.segment_index, offset: self.offset - v },
                ))
            },
            PyMaybeRelocatable::RelocatableValue(address) => {
                if self.segment_index != address.segment_index {
                    return Err(RelocatableError::SubtractDifferentSegments);
                }
                Ok(PyMaybeRelocatable::Int((self.offset - address.offset) as i128))
            },
        }
    }

    /// Compares two addresses: equality compares both parts, orderings
    /// compare the offsets of two addresses of the same segment and fail for
    /// different segments.
    pub fn __richcmp__(&self, other: &Self, op: CompareOp) -> (r: Result<bool, RelocatableError>)
        ensures
            r == spec_richcmp(*self, *other, op),
    {
        match op {
            CompareOp::Lt => {
                if self.segment_index == other.segment_index {
                    Ok(self.offset < other.offset)
                } else {
                    Err(RelocatableError::CompareDifferentSegments)
                }
            },
            CompareOp::Le => {
                if self.segment_index == other.segment_index {
                    Ok(self.offset <= other.offset)
                } else {
                    Err(RelocatableError::CompareDifferentSegments)
                }
            },
            CompareOp::Eq => Ok(self.segment_index == other.segment_index && self.offset == other.offset),
            CompareOp::Ne => Ok(!(self.segment_index == other.segment_index && self.offset == other.offset)),
            CompareOp::Gt => {
                if self.segment_index == other.segment_index {
                    Ok(self.offset > other.offset)
                } else {
                    Err(RelocatableError::CompareDifferentSegments)
                }
            },
            CompareOp::Ge => {
                if self.segment_index == other.segment_index {
                    Ok(self.offset >= other.offset)
                } else {
                    Err(RelocatableError::CompareDifferentSegments)
                }
            },
        }
    }

    /// The address written `(segment, offset)`.
    pub fn __repr__(&self) -> (r: String)
        ensures
            r@ == "("@ + spec_signed_decimal(self.segment_index as int) + ", "@ + spec_decimal(self.offset as nat) + ")"@,
    {
        String::from_str("(")
            .concat(signed_decimal(self.segment_index).as_str())
            .concat(", ")
            .concat(decimal(self.offset as u64).as_str())
            .concat(")")
    }
}

impl From<(isize, usize)> for PyRelocatable {
    fn from(val: (isize, usize)) -> (r: PyRelocatable) {
        PyRelocatable::new((val.0, val.1))
    }
}

impl FromSpecImpl<(isize, usize)> for PyRelocatable {
    open spec fn obeys_from_spec() -> bool {
        true
    }

    open spec fn from_spec(val: (isize, usize)) -> PyRelocatable {
        PyRelocatable { segment_index: val.0, offset: val.1 }
    }
}

impl From<PyRelocatable> for PyMaybeRelocatable {
    fn from(val: PyRelocatable) -> (r: PyMaybeRelocatable) {
        PyMaybeRelocatable::RelocatableValue(val)
    }
}

impl FromSpecImpl<PyRelocatable> for PyMaybeRelocatable {
    open spec fn obeys_from_spec() -> bool {
        true
    }

    open spec fn from_spec(val: PyRelocatable) -> PyMaybeRelocatable {
        PyMaybeRelocatable::RelocatableValue(val)
    }
}

impl From<i128> for PyMaybeRelocatable {
    fn from(val: i128) -> (r: PyMaybeRelocatable) {
        PyMaybeRelocatable::Int(val)
    }
}

impl FromSpecImpl<i128> for PyMaybeRelocatable {
    open spec fn obeys_from_spec() -> bool {
        true
    }

    open spec fn from_spec(val: i128) -> PyMaybeRelocatable {
        PyMaybeRelocatable::Int(val)
    }
}

impl<'a> From<&'a i128> for PyMaybeRelocatable {
    fn from(val: &'a i128) -> (r: PyMaybeRelocatable) {
        PyMaybeRelocatable::Int(*val)
    }
}

impl<'a> FromSpecImpl<&'a i128> for PyMaybeRelocatable {
    open spec fn obeys_from_spec() -> bool {
        true
    }

    open spec fn from_spec(val: &'a i128) -> PyMaybeRelocatable {
        PyMaybeRelocatable::Int(*val)
    }
}

/// Comparing two addresses for equality never fails, and the two
/// equalities are each other's negation.
pub proof fn lemma_equality_is_total(a: PyRelocatable, b: PyRelocatable)
    ensures
        spec_richcmp(a, b, CompareOp::Eq) == Ok::<bool, RelocatableError>(a == b),
        spec_richcmp(a, b, CompareOp::Ne) == Ok::<bool, RelocatableError>(!(a == b)),
{
}

/// Two addresses of the same segment are ordered one way exactly when
/// they are not ordered strictly the other way, and the converse orderings
/// agree.
pub proof fn lemma_same_segment_orders(a: PyRelocatable, b: PyRelocatable)
    requires
        a.segment_index == b.segment_index,
    ensures
        spec_richcmp(a, b, CompareOp::Le) == Ok::<bool, RelocatableError>(!(spec_richcmp(b, a, CompareOp::Lt)->Ok_0)),
        spec_richcmp(a, b, CompareOp::Ge) == spec_richcmp(b, a, CompareOp::Le),
        spec_richcmp(a, b, CompareOp::Gt) == spec_richcmp(b, a, CompareOp::Lt),
{
}

} // verus!
