//! The registers of a paused Cairo VM as a hint sees them.
use vstd::prelude::*;
use crate::relocatable::PyRelocatable;

verus! {

/// The program counter, allocation pointer and frame pointer of a VM.
#[derive(Debug, Clone, Copy, PartialEq, Eq, Structural)]
pub struct PyRunContext {
    pc: PyRelocatable,
    ap: PyRelocatable,
    fp: PyRelocatable,
}

impl PyRunContext {
    /// The registers `pc`, `ap` and `fp`.
    pub fn new(pc: PyRelocatable, ap: PyRelocatable, fp: PyRelocatable) -> (r: PyRunContext)
        ensures
            r.pc() == pc,
            r.ap() == ap,
            r.fp() == fp,
    {
        PyRunContext { pc, ap, fp }
    }

    /// The program counter.
    pub closed spec fn pc_spec(&self) -> PyRelocatable {
        self.pc
    }

    /// The allocation pointer.
    pub closed spec fn ap_spec(&self) -> PyRelocatable {
        self.ap
    }

    /// The frame pointer.
    pub closed spec fn fp_spec(&self) -> PyRelocatable {
        self.fp
    }

    /// The program counter.
    #[verifier::when_used_as_spec(pc_spec)]
    pub fn pc(&self) -> (r: PyRelocatable)
        ensures
            r == self.pc_spec(),
    {
        self.pc
    }

    /// The allocation pointer.
    #[verifier::when_used_as_spec(ap_spec)]
    pub fn ap(&self) -> (r: PyRelocatable)
        ensures
            r == self.ap_spec(),
    {
        self.ap
    }

    /// The frame pointer.
    #[verifier::when_used_as_spec(fp_spec)]
    pub fn fp(&self) -> (r: PyRelocatable)
        ensures
            r == self.fp_spec(),
    {
        self.fp
    }
}

} // verus!
