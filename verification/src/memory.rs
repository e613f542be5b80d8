//! The memory of a paused Cairo VM as a hint reads and writes it: single
//! cells, and continuous ranges of cells.
use vstd::prelude::*;
use crate::ids::{cell, holds_other, same_state, VmState};
use crate::relocatable::{PyMaybeRelocatable, PyRelocatable};

verus! {

/// Why an access to the memory failed.
#[derive(Debug, Clone, Copy, PartialEq, Eq, Structural)]
pub enum MemoryError {
    /// A value could not be written.
    SetValue,
    /// A range could not be read: its start is no address, or one of its
    /// cells holds nothing.
    GetRange,
    /// The cell at this address holds no integer.
    ExpectedInteger(PyRelocatable),
}

impl MemoryError {
    /// The message the hint sees for the errors of the memory object
    /// itself; `None` for the VM's own error.
    pub fn message(&self) -> (r: Option<String>)
        ensures
            self is SetValue ==> r is Some && r->0@ == "Failed to set value to Cairo memory"@,
            self is GetRange ==> r is Some && r->0@ == "Failed to call get_range method from Cairo memory"@,
            self is ExpectedInteger ==> r is None,
    {
        match self {
            MemoryError::SetValue => Some(String::from_str("Failed to set value to Cairo memory")),
            MemoryError::GetRange => Some(String::from_str("Failed to call get_range method from Cairo memory")),
            MemoryError::ExpectedInteger(_) => None,
        }
    }
}

/// The address `i` cells after `a`.
pub open spec fn cell_after(a: PyRelocatable, i: int) -> PyRelocatable {
    PyRelocatable { segment_index: a.segment_index, offset: (a.offset + i) as usize }
}

/// Whether the `size` cells from `a` on all hold a value.
pub open spec fn range_filled(vm: VmState, a: PyRelocatable, size: int) -> bool {
    forall|i: int| 0 <= i < size ==> #[trigger] cell(vm, cell_after(a, i)) is Some
}

/// The memory of a VM, as a hint sees it.
pub struct PyMemory {
    pub vm: VmState,
}

impl PyMemory {
    /// The memory of `vm`.
    pub fn new(vm: VmState) -> (r: PyMemory)
        ensures
            r.vm == vm,
    {
        PyMemory { vm }
    }

    /// The value of the cell at `key`, if it holds one.
    pub fn __getitem__(&self, key: PyRelocatable) -> (r: Option<PyMaybeRelocatable>)
        ensures
            r == cell(self.vm, key),
    {
        self.vm.get_maybe(key)
    }

    /// Writes `value` to the cell at `key`; a failed write is reported as
    /// `MemoryError::SetValue`, with the memory unchanged.
    pub fn __setitem__(&mut self, key: PyRelocatable, value: PyMaybeRelocatable) -> (r: Result<(), MemoryError>)
        ensures
            r is Ok <==> (0 <= key.segment_index < old(self).vm.segments@.len() && !holds_other(old(self).vm, key, value)),
            r is Ok ==> forall|a: PyRelocatable| #[trigger] cell(final(self).vm, a)
                == (if a == key { Some(value) } else { cell(old(self).vm, a) }),
            r is Err ==> r == Err::<(), MemoryError>(MemoryError::SetValue) && same_state(final(self).vm, old(self).vm),
            final(self).vm.ap == old(self).vm.ap,
            final(self).vm.fp == old(self).vm.fp,
    {
        match self.vm.insert_value(key, value) {
            Ok(()) => Ok(()),
            Err(_) => Err(MemoryError::SetValue),
        }
    }

    /// The values of the `size` cells from `addr` on: an error when `addr`
    /// is no address or one of those cells holds nothing.
    pub fn get_range(&self, addr: PyMaybeRelocatable, size: usize) -> (r: Result<Vec<PyMaybeRelocatable>, MemoryError>)
        requires
            addr matches PyMaybeRelocatable::RelocatableValue(a) ==> a.offset + size <= usize::MAX,
        ensures
            addr is Int && size > 0 ==> r == Err::<Vec<PyMaybeRelocatable>, MemoryError>(MemoryError::GetRange),
            addr is Int && size == 0 ==> r is Ok && r->Ok_0@.len() == 0,
            addr is RelocatableValue && !range_filled(self.vm, addr->RelocatableValue_0, size as int)
                ==> r == Err::<Vec<PyMaybeRelocatable>, MemoryError>(MemoryError::GetRange),
            addr is RelocatableValue && range_filled(self.vm, addr->RelocatableValue_0, size as int) ==> r is Ok,
            r is Ok && addr is RelocatableValue ==> r->Ok_0@.len() == size && forall|i: int| 0 <= i < size
                ==> cell(self.vm, cell_after(addr->RelocatableValue_0, i)) == Some(#[trigger] r->Ok_0@[i]),
    {
        let mut values: Vec<PyMaybeRelocatable> = Vec::new();
        let a = match addr {
            PyMaybeRelocatable::RelocatableValue(a) => a,
            PyMaybeRelocatable::Int(_) => {
                if size > 0 {
                    return Err(MemoryError::GetRange);
                }
                return Ok(values);
            },
        };
        let mut i: usize = 0;
        while i < size
            invariant
                a.offset + size <= usize::MAX,
                i <= size,
                values@.len() == i,
                addr == PyMaybeRelocatable::RelocatableValue(a),
                forall|j: int| 0 <= j < i ==> cell(self.vm, cell_after(a, j)) == Some(#[trigger] values@[j]),
            decreases size - i,
        {
            let at = PyRelocatable { segment_index: a.segment_index, offset: a.offset + i };
            match self.vm.get_maybe(at) {
                Some(v) => values.push(v),
                None => {
                    assert(cell_after(a, i as int) == at);
                    assert(cell(self.vm, cell_after(a, i as int)) is None);
                    assert(!range_filled(self.vm, a, size as int));
                    return Err(MemoryError::GetRange);
                },
            }
            assert(cell_after(a, i as int) == at);
            i += 1;
        }
        assert forall|j: int| 0 <= j < size implies #[trigger] cell(self.vm, cell_after(a, j)) is Some by {
            assert(cell(self.vm, cell_after(a, j)) == Some(values@[j]));
        }
        Ok(values)
    }

    /// The integers in the `size` cells from `addr` on: an error, naming
    /// the first cell that holds no integer, when there is one.
    pub fn get_range_as_ints(&self, addr: PyRelocatable, size: usize) -> (r: Result<Vec<i128>, MemoryError>)
        requires
            addr.offset + size <= usize::MAX,
        ensures
            match r {
                Ok(v) => v@.len() == size && forall|i: int| 0 <= i < size
                    ==> cell(self.vm, cell_after(addr, i)) == Some(PyMaybeRelocatable::Int(#[trigger] v@[i])),
                Err(e) => exists|k: int| 0 <= k < size && e == MemoryError::ExpectedInteger(cell_after(addr, k))
                    && !(#[trigger] cell(self.vm, cell_after(addr, k)) matches Some(PyMaybeRelocatable::Int(_)))
                    && forall|i: int| 0 <= i < k ==> #[trigger] cell(self.vm, cell_after(addr, i)) matches Some(PyMaybeRelocatable::Int(_)),
            },
            (forall|i: int| 0 <= i < size ==> #[trigger] cell(self.vm, cell_after(addr, i)) matches Some(PyMaybeRelocatable::Int(_))) ==> r is Ok,
    {
        let mut values: Vec<i128> = Vec::new();
        let mut i: usize = 0;
        while i < size
            invariant
                addr.offset + size <= usize::MAX,
                i <= size,
                values@.len() == i,
                forall|j: int| 0 <= j < i ==> cell(self.vm, cell_after(addr, j)) == Some(PyMaybeRelocatable::Int(#[trigger] values@[j])),
            decreases size - i,
        {
            let at = PyRelocatable { segment_index: addr.segment_index, offset: addr.offset + i };
            match self.vm.get_maybe(at) {
                Some(PyMaybeRelocatable::Int(n)) => values.push(n),
                _ => {
                    assert forall|j: int| 0 <= j < i implies #[trigger] cell(self.vm, cell_after(addr, j)) matches Some(PyMaybeRelocatable::Int(_)) by {
                        assert(cell(self.vm, cell_after(addr, j)) == Some(PyMaybeRelocatable::Int(values@[j])));
                    }
                    assert(cell_after(addr, i as int) == at);
                    assert(!(cell(self.vm, cell_after(addr, i as int)) matches Some(PyMaybeRelocatable::Int(_))));
                    return Err(MemoryError::ExpectedInteger(at));
                },
            }
            assert(cell_after(addr, i as int) == at);
            i += 1;
        }
        Ok(values)
    }
}

} // verus!
