//! The `ids` of a Cairo hint: named references to values of the VM memory,
//! resolved against the registers and the memory cells of a paused VM.
use vstd::prelude::*;
use crate::relocatable::{PyMaybeRelocatable, PyRelocatable};
use crate::cairo_fuzz::json_parser::{last_segment, last_segment_is};
use crate::text::str_eq;

verus! {

/// A register a reference is relative to.
#[derive(Debug, Clone, Copy, PartialEq, Eq, Structural)]
pub enum Register {
    AP,
    FP,
}

/// The position of `ap` within a group of instructions, as the compiler
/// tracks it.
#[derive(Debug, Clone, Copy, PartialEq, Eq, Structural)]
pub struct ApTracking {
    pub group: usize,
    pub offset: usize,
}

/// How a hint variable is reached: a register, two offsets, whether the
/// cell at the first offset is itself an address to follow, whether the
/// variable is the cell's value or its address, and an immediate.
#[derive(Debug, Clone)]
pub struct HintReference {
    pub register: Option<Register>,
    pub offset1: i32,
    pub offset2: i32,
    pub dereference: bool,
    pub inner_dereference: bool,
    pub ap_tracking_data: Option<ApTracking>,
    pub immediate: Option<i128>,
    pub cairo_type: Option<String>,
}

/// A member of a Cairo struct: its type and its offset in the struct.
#[derive(Debug, Clone)]
pub struct Member {
    pub cairo_type: String,
    pub offset: usize,
}

/// What a hint reads of a paused VM: the `ap` and `fp` registers and the
/// cells of its memory segments, `None` where a cell holds nothing. The
/// segments are those of non-negative index; temporary segments are not
/// held, and their addresses read as empty cells.
#[derive(Debug, Clone)]
pub struct VmState {
    pub ap: PyRelocatable,
    pub fp: PyRelocatable,
    pub segments: Vec<Vec<Option<PyMaybeRelocatable>>>,
}

/// Why an identifier of a hint could not be read or written.
#[derive(Debug, Clone, PartialEq, Eq)]
pub enum IdsError {
    /// No constant, struct or reference has the name that was read.
    UnknownIdentifier,
    /// No reference has the name that was written.
    UnknownAssignment,
    /// A typed value names a struct type that is not known.
    UnknownStructType,
    /// An `ap`-based reference carries no `ap` tracking.
    NoneApTrackingData,
    /// The reference and the hint track `ap` in different groups (the
    /// reference's group, then the hint's).
    InvalidTrackingGroup(usize, usize),
    /// `ap` would be moved back before the start of its segment (the
    /// offset of `ap`, then the distance).
    CantSubOffset(usize, usize),
    /// The reference names no register and no immediate.
    NoRegisterInReference,
    /// The reference points before its segment, or at an empty cell.
    FailedToGetIds,
    /// The cell at this address was to hold an address and does not.
    ExpectedRelocatable(PyRelocatable),
    /// An immediate that was to be added to an address is no size.
    BigintToUsizeFail,
    /// The struct has no member of this name.
    NoAttribute(String),
    /// Only `felt` and `felt*` members can be assigned.
    StructFieldAssignment,
    /// A value was written to a segment the memory does not hold.
    UnallocatedSegment,
    /// A value was written to this address, which already holds another.
    InconsistentMemory(PyRelocatable),
}

impl IdsError {
    /// The message the hint sees for the errors of the identifiers
    /// themselves; `None` for the errors of the VM's references and memory,
    /// whose messages are the VM's.
    pub fn message(&self) -> (r: Option<String>)
        ensures
            self is UnknownIdentifier ==> r is Some && r->0@ == "Failed to get ids value"@,
            self is UnknownAssignment ==> r is Some && r->0@ == "Failed to set ids value to Cairo memory"@,
            self is UnknownStructType ==> r is Some && r->0@ == "Failed to get struct type"@,
            self is StructFieldAssignment ==> r is Some
                && r->0@ == "Error: It should be possible to assign a struct into another struct's field. See issue #86"@,
            self is NoAttribute ==> r is Some
                && r->0@ == "'PyTypeId' object has no attribute '"@ + self->NoAttribute_0@ + "'"@,
            !(self is UnknownIdentifier || self is UnknownAssignment || self is UnknownStructType
                || self is StructFieldAssignment || self is NoAttribute) ==> r is None,
    {
        match self {
            IdsError::UnknownIdentifier => Some(String::from_str("Failed to get ids value")),
            IdsError::UnknownAssignment => Some(String::from_str("Failed to set ids value to Cairo memory")),
            IdsError::UnknownStructType => Some(String::from_str("Failed to get struct type")),
            IdsError::StructFieldAssignment => Some(String::from_str(
                "Error: It should be possible to assign a struct into another struct's field. See issue #86",
            )),
            IdsError::NoAttribute(n) => {
                let head = String::from_str("'PyTypeId' object has no attribute '").concat(n.as_str());
                Some(head.concat("'"))
            },
            _ => None,
        }
    }
}

/// The cell of `vm` at `addr`.
pub open spec fn cell(vm: VmState, addr: PyRelocatable) -> Option<PyMaybeRelocatable> {
    if 0 <= addr.segment_index < vm.segments@.len() && addr.offset < vm.segments@[addr.segment_index as int]@.len() {
        vm.segments@[addr.segment_index as int]@[addr.offset as int]
    } else {
        None
    }
}

/// Both states hold the same registers and the same cells.
pub open spec fn same_state(a: VmState, b: VmState) -> bool {
    a.ap == b.ap && a.fp == b.fp && a.segments@ == b.segments@
}

/// `after` and `r` are what writing `value` to the cell of `before` at
/// `addr` gives: an error, with the memory unchanged, for a segment the
/// memory does not hold or a cell that holds another value; otherwise
/// success, that cell holding `value` and every other cell as it was.
pub open spec fn insert_outcome(before: VmState, after: VmState, addr: PyRelocatable, value: PyMaybeRelocatable, r: Result<(), IdsError>) -> bool {
    &&& after.ap == before.ap
    &&& after.fp == before.fp
    &&& if !(0 <= addr.segment_index < before.segments@.len()) {
        r == Err::<(), IdsError>(IdsError::UnallocatedSegment) && after.segments@ == before.segments@
    } else if holds_other(before, addr, value) {
        r == Err::<(), IdsError>(IdsError::InconsistentMemory(addr)) && after.segments@ == before.segments@
    } else {
        r == Ok::<(), IdsError>(()) && forall|a: PyRelocatable| #[trigger] cell(after, a)
            == (if a == addr { Some(value) } else { cell(before, a) })
    }
}

/// Whether the cell of `vm` at `addr` holds a value other than `value`.
pub open spec fn holds_other(vm: VmState, addr: PyRelocatable, value: PyMaybeRelocatable) -> bool {
    cell(vm, addr) matches Some(c) && c != value
}

/// The value stored under the first key `k` of a list of named entries.
pub open spec fn find_key<T>(s: Seq<(String, T)>, k: Seq<char>) -> Option<T>
    decreases s.len(),
{
    if s.len() == 0 {
        None
    } else if s[0].0@ == k {
        Some(s[0].1)
    } else {
        find_key(s.drop_first(), k)
    }
}

/// Whether some entry of a list of named entries has the key `k`.
pub open spec fn has_key<T>(s: Seq<(String, T)>, k: Seq<char>) -> bool {
    find_key(s, k) is Some
}

/// Whether moving `a` by `k` cells stays within the offsets an address can
/// hold.
pub open spec fn shift_ok(a: PyRelocatable, k: int) -> bool {
    0 <= a.offset + k <= usize::MAX
}

/// The address `k` cells after `a` (before it when `k` is negative).
pub open spec fn shifted(a: PyRelocatable, k: int) -> PyRelocatable {
    PyRelocatable { segment_index: a.segment_index, offset: (a.offset + k) as usize }
}

/// `ap` as a reference made at `reference` sees it from a hint at `hint`:
/// both must be in one group, and `ap` moves back by the distance between
/// them.
pub open spec fn spec_ap_correction(ap: PyRelocatable, reference: ApTracking, hint: ApTracking) -> Result<PyRelocatable, IdsError> {
    if reference.group != hint.group {
        Err(IdsError::InvalidTrackingGroup(reference.group, hint.group))
    } else if ap.offset < hint.offset - reference.offset {
        Err(IdsError::CantSubOffset(ap.offset, (hint.offset - reference.offset) as usize))
    } else {
        Ok(shifted(ap, reference.offset - hint.offset))
    }
}

/// The register value a reference starts from.
pub open spec fn spec_base(vm: VmState, r: HintReference, hint: ApTracking) -> Result<PyRelocatable, IdsError> {
    match r.register {
        Some(Register::FP) => Ok(vm.fp),
        Some(Register::AP) => match r.ap_tracking_data {
            Some(tracking) => spec_ap_correction(vm.ap, tracking, hint),
            None => Err(IdsError::NoneApTrackingData),
        },
        None => Err(IdsError::NoRegisterInReference),
    }
}

/// The address of the variable a reference names: the register moved by
/// both offsets, or, when the cell at the first offset is to be followed,
/// the address held there moved by the immediate (if any) or the second
/// offset.
pub open spec fn spec_compute_addr(vm: VmState, r: HintReference, hint: ApTracking) -> Result<PyRelocatable, IdsError> {
    match spec_base(vm, r, hint) {
        Err(e) => Err(e),
        Ok(base) => if r.offset1 < 0 && base.offset < -r.offset1 {
            Err(IdsError::FailedToGetIds)
        } else if !r.inner_dereference {
            Ok(shifted(shifted(base, r.offset1 as int), r.offset2 as int))
        } else {
            let addr = shifted(base, r.offset1 as int);
            match cell(vm, addr) {
                Some(PyMaybeRelocatable::RelocatableValue(target)) => match r.immediate {
                    Some(imm) => if 0 <= imm <= usize::MAX {
                        Ok(shifted(target, imm as int))
                    } else {
                        Err(IdsError::BigintToUsizeFail)
                    },
                    None => Ok(shifted(target, r.offset2 as int)),
                },
                _ => Err(IdsError::ExpectedRelocatable(addr)),
            }
        },
    }
}

/// Whether working out the address of a reference stays within the
/// arithmetic of sizes: the hint is no earlier than the reference in its
/// group, and no address is moved past either end of the offsets.
pub open spec fn addr_safe(vm: VmState, r: HintReference, hint: ApTracking) -> bool {
    &&& (r.register == Some(Register::AP) && r.ap_tracking_data is Some
        && r.ap_tracking_data->0.group == hint.group) ==> r.ap_tracking_data->0.offset <= hint.offset
    &&& match spec_base(vm, r, hint) {
        Ok(base) => !(r.offset1 < 0 && base.offset < -r.offset1) ==> {
            &&& shift_ok(base, r.offset1 as int)
            &&& !r.inner_dereference ==> shift_ok(shifted(base, r.offset1 as int), r.offset2 as int)
            &&& r.inner_dereference ==> match cell(vm, shifted(base, r.offset1 as int)) {
                Some(PyMaybeRelocatable::RelocatableValue(target)) => match r.immediate {
                    Some(imm) => 0 <= imm <= usize::MAX ==> shift_ok(target, imm as int),
                    None => shift_ok(target, r.offset2 as int),
                },
                _ => true,
            }
        },
        Err(_) => true,
    }
}

/// The value of the variable a reference names: a lone immediate, the
/// address itself when it is not to be read, or the cell there (an address
/// moved by the immediate, if any).
pub open spec fn spec_value_from_reference(vm: VmState, r: HintReference, hint: ApTracking) -> Result<PyMaybeRelocatable, IdsError> {
    if r.register is None && r.immediate is Some {
        Ok(PyMaybeRelocatable::Int(r.immediate->0))
    } else {
        match spec_compute_addr(vm, r, hint) {
            Err(e) => Err(e),
            Ok(addr) => if !r.dereference {
                Ok(PyMaybeRelocatable::RelocatableValue(addr))
            } else {
                match cell(vm, addr) {
                    Some(PyMaybeRelocatable::RelocatableValue(rel)) => match r.immediate {
                        Some(imm) => if 0 <= imm <= usize::MAX {
                            Ok(PyMaybeRelocatable::RelocatableValue(shifted(rel, imm as int)))
                        } else {
                            Err(IdsError::BigintToUsizeFail)
                        },
                        None => Ok(PyMaybeRelocatable::RelocatableValue(rel)),
                    },
                    Some(PyMaybeRelocatable::Int(n)) => Ok(PyMaybeRelocatable::Int(n)),
                    None => Err(IdsError::FailedToGetIds),
                }
            },
        }
    }
}

/// Whether reading the value of a reference stays within the arithmetic of
/// sizes.
pub open spec fn value_safe(vm: VmState, r: HintReference, hint: ApTracking) -> bool {
    (r.register is None && r.immediate is Some) || {
        &&& addr_safe(vm, r, hint)
        &&& match spec_compute_addr(vm, r, hint) {
            Ok(addr) => r.dereference ==> match cell(vm, addr) {
                Some(PyMaybeRelocatable::RelocatableValue(rel)) => match r.immediate {
                    Some(imm) => 0 <= imm <= usize::MAX ==> shift_ok(rel, imm as int),
                    None => true,
                },
                _ => true,
            },
            Err(_) => true,
        }
    }
}

impl VmState {
    /// The cell at `addr`, if it holds a value.
    pub fn get_maybe(&self, addr: PyRelocatable) -> (r: Option<PyMaybeRelocatable>)
        ensures
            r == cell(*self, addr),
    {
        if addr.segment_index < 0 {
            return None;
        }
        let segment = addr.segment_index as usize;
        if segment >= self.segments.len() {
            return None;
        }
        let cells = &self.segments[segment];
        if addr.offset >= cells.len() {
            return None;
        }
        cells[addr.offset]
    }

    /// Writes `value` to the cell at `addr`, growing its segment with empty
    /// cells as needed. Memory is written once: a cell that holds another
    /// value is an error, as is a segment the memory does not hold.
    pub fn insert_value(&mut self, addr: PyRelocatable, value: PyMaybeRelocatable) -> (r: Result<(), IdsError>)
        ensures
            insert_outcome(*old(self), *final(self), addr, value, r),
    {
        if addr.segment_index < 0 || addr.segment_index as usize >= self.segments.len() {
            return Err(IdsError::UnallocatedSegment);
        }
        let seg = addr.segment_index as usize;
        if let Some(current) = self.get_maybe(addr) {
            if current != value {
                return Err(IdsError::InconsistentMemory(addr));
            }
        }
        let old_cells = &self.segments[seg];
        let mut cells: Vec<Option<PyMaybeRelocatable>> = Vec::new();
        let mut i: usize = 0;
        while i < old_cells.len()
            invariant
                i <= old_cells.len(),
                cells@ == old_cells@.take(i as int),
            decreases old_cells.len() - i,
        {
            cells.push(old_cells[i]);
            assert(old_cells@.take(i + 1) =~= old_cells@.take(i as int).push(old_cells@[i as int]));
            i += 1;
        }
        assert(old_cells@.take(old_cells.len() as int) =~= old_cells@);
        while cells.len() <= addr.offset
            invariant
                cells@.len() >= old_cells@.len(),
                forall|j: int| 0 <= j < old_cells@.len() ==> cells@[j] == old_cells@[j],
                forall|j: int| old_cells@.len() <= j < cells@.len() ==> cells@[j] is None,
            decreases addr.offset + 1 - cells.len(),
        {
            cells.push(None);
        }
        cells.set(addr.offset, Some(value));
        self.segments.set(seg, cells);
        proof {
            assert forall|a: PyRelocatable| #[trigger] cell(*self, a)
                == (if a == addr { Some(value) } else { cell(*old(self), a) }) by {
                if a != addr && 0 <= a.segment_index < self.segments@.len() && a.segment_index as int == seg as int {
                    assert(a.offset != addr.offset);
                }
            }
        }
        Ok(())
    }

    /// The address held in the cell at `addr`; an empty cell or an integer
    /// is an error.
    pub fn get_relocatable(&self, addr: PyRelocatable) -> (r: Result<PyRelocatable, IdsError>)
        ensures
            match cell(*self, addr) {
                Some(PyMaybeRelocatable::RelocatableValue(target)) => r == Ok::<PyRelocatable, IdsError>(target),
                _ => r == Err::<PyRelocatable, IdsError>(IdsError::ExpectedRelocatable(addr)),
            },
    {
        match self.get_maybe(addr) {
            Some(PyMaybeRelocatable::RelocatableValue(target)) => Ok(target),
            _ => Err(IdsError::ExpectedRelocatable(addr)),
        }
    }
}

/// The index of the first entry of `entries` whose key is `key`.
pub fn find_key_index<T>(entries: &Vec<(String, T)>, key: &str) -> (r: Option<usize>)
    ensures
        match r {
            Some(i) => i < entries.len() && find_key(entries@, key@) == Some(entries@[i as int].1),
            None => find_key(entries@, key@) is None,
        },
{
    let mut i: usize = 0;
    assert(entries@.skip(0) =~= entries@);
    while i < entries.len()
        invariant
            i <= entries.len(),
            find_key(entries@, key@) == find_key(entries@.skip(i as int), key@),
        decreases entries.len() - i,
    {
        assert(entries@.skip(i as int)[0] == entries@[i as int]);
        assert(entries@.skip(i as int).drop_first() =~= entries@.skip(i + 1));
        if str_eq(entries[i].0.as_str(), key) {
            return Some(i);
        }
        i += 1;
    }
    None
}

/// The address `k` cells after `a` (before it when `k` is negative).
fn shift(a: PyRelocatable, k: i32) -> (r: PyRelocatable)
    requires
        shift_ok(a, k as int),
    ensures
        r == shifted(a, k as int),
{
    if k >= 0 {
        PyRelocatable { segment_index: a.segment_index, offset: a.offset + k as usize }
    } else {
        let back = (-(k as i64)) as usize;
        PyRelocatable { segment_index: a.segment_index, offset: a.offset - back }
    }
}

/// `ap` as a reference made at `reference` sees it from a hint at `hint`.
fn apply_ap_tracking_correction(ap: PyRelocatable, reference: ApTracking, hint: ApTracking) -> (r: Result<PyRelocatable, IdsError>)
    requires
        reference.group == hint.group ==> reference.offset <= hint.offset,
    ensures
        r == spec_ap_correction(ap, reference, hint),
{
    if reference.group != hint.group {
        return Err(IdsError::InvalidTrackingGroup(reference.group, hint.group));
    }
    let ap_diff = hint.offset - reference.offset;
    if ap.offset < ap_diff {
        return Err(IdsError::CantSubOffset(ap.offset, ap_diff));
    }
    Ok(PyRelocatable { segment_index: ap.segment_index, offset: ap.offset - ap_diff })
}

/// The address of the variable that `hint_reference` names, for a hint
/// whose `ap` tracking is `hint_ap_tracking`.
pub fn compute_addr_from_reference(hint_reference: &HintReference, vm: &VmState, hint_ap_tracking: ApTracking) -> (r: Result<PyRelocatable, IdsError>)
    requires
        addr_safe(*vm, *hint_reference, hint_ap_tracking),
    ensures
        r == spec_compute_addr(*vm, *hint_reference, hint_ap_tracking),
{
    let base_addr = match hint_reference.register {
        Some(Register::FP) => vm.fp,
        Some(Register::AP) => {
            let tracking = match hint_reference.ap_tracking_data {
                Some(tracking) => tracking,
                None => {
                    return Err(IdsError::NoneApTrackingData);
                },
            };
            match apply_ap_tracking_correction(vm.ap, tracking, hint_ap_tracking) {
                Ok(ap) => ap,
                Err(e) => {
                    return Err(e);
                },
            }
        },
        None => {
            return Err(IdsError::NoRegisterInReference);
        },
    };
    if hint_reference.offset1 < 0 && base_addr.offset < (-(hint_reference.offset1 as i64)) as usize {
        return Err(IdsError::FailedToGetIds);
    }
    if !hint_reference.inner_dereference {
        Ok(shift(shift(base_addr, hint_reference.offset1), hint_reference.offset2))
    } else {
        let addr = shift(base_addr, hint_reference.offset1);
        let dereferenced_addr = match vm.get_relocatable(addr) {
            Ok(target) => target,
            Err(e) => {
                return Err(e);
            },
        };
        match hint_reference.immediate {
            Some(imm) => {
                if imm < 0 || imm > usize::MAX as i128 {
                    return Err(IdsError::BigintToUsizeFail);
                }
                Ok(PyRelocatable {
                    segment_index: dereferenced_addr.segment_index,
                    offset: dereferenced_addr.offset + imm as usize,
                })
            },
            None => Ok(shift(dereferenced_addr, hint_reference.offset2)),
        }
    }
}

/// The value of the variable that `hint_reference` names, for a hint whose
/// `ap` tracking is `ap_tracking`.
pub fn get_value_from_reference(vm: &VmState, hint_reference: &HintReference, ap_tracking: ApTracking) -> (r: Result<PyMaybeRelocatable, IdsError>)
    requires
        value_safe(*vm, *hint_reference, ap_tracking),
    ensures
        r == spec_value_from_reference(*vm, *hint_reference, ap_tracking),
{
    if hint_reference.register.is_none() {
        if let Some(num) = hint_reference.immediate {
            return Ok(PyMaybeRelocatable::Int(num));
        }
    }
    let var_addr = match compute_addr_from_reference(hint_reference, vm, ap_tracking) {
        Ok(addr) => addr,
        Err(e) => {
            return Err(e);
        },
    };
    if !hint_reference.dereference {
        return Ok(PyMaybeRelocatable::RelocatableValue(var_addr));
    }
    match vm.get_maybe(var_addr) {
        Some(PyMaybeRelocatable::RelocatableValue(rel)) => match hint_reference.immediate {
            Some(imm) => {
                if imm < 0 || imm > usize::MAX as i128 {
                    return Err(IdsError::BigintToUsizeFail);
                }
                Ok(PyMaybeRelocatable::RelocatableValue(
                    PyRelocatable { segment_index: rel.segment_index, offset: rel.offset + imm as usize },
                ))
            },
            None => Ok(PyMaybeRelocatable::RelocatableValue(rel)),
        },
        Some(PyMaybeRelocatable::Int(n)) => Ok(PyMaybeRelocatable::Int(n)),
        None => Err(IdsError::FailedToGetIds),
    }
}

/// What reading an identifier of a hint gives.
#[derive(Debug, Clone, PartialEq, Eq)]
pub enum IdsValue {
    /// A constant of the program.
    Constant(i128),
    /// The size of a struct type, in cells.
    StructSize(usize),
    /// A value of a struct type, by its address.
    Typed(PyTypedId),
    /// A value of the memory, or an address.
    Value(PyMaybeRelocatable),
    /// A `felt` member whose cell holds nothing yet.
    Nothing,
}

/// A value of a struct type: its address and the type's name.
#[derive(Debug, Clone, PartialEq, Eq)]
pub struct PyTypedId {
    pub hint_value: PyRelocatable,
    pub cairo_type: String,
}

/// The identifiers a hint can use: the program's constants, the sizes of
/// its struct types, and its references into the memory of the VM.
#[derive(Debug, Clone)]
pub struct PyIds {
    pub vm: VmState,
    pub references: Vec<(String, HintReference)>,
    pub ap_tracking: ApTracking,
    pub constants: Vec<(String, i128)>,
    pub struct_types: Vec<(String, Vec<(String, Member)>)>,
}

/// The size of a struct in cells: one past the largest offset of its
/// members, 0 for a struct without members.
pub open spec fn members_size(members: Seq<(String, Member)>) -> nat
    decreases members.len(),
{
    if members.len() == 0 {
        0
    } else {
        let rest = members_size(members.drop_last());
        let here = (members.last().1.offset + 1) as nat;
        if here > rest {
            here
        } else {
            rest
        }
    }
}

/// The size of the last struct type whose name ends in `name`.
pub open spec fn size_of_name(types: Seq<(String, Vec<(String, Member)>)>, name: Seq<char>) -> Option<nat>
    decreases types.len(),
{
    if types.len() == 0 {
        None
    } else if last_segment(types.last().0@) == name {
        Some(members_size(types.last().1@))
    } else {
        size_of_name(types.drop_last(), name)
    }
}

/// Whether every member of every struct type has an offset below the
/// largest size.
pub open spec fn offsets_below_max(types: Seq<(String, Vec<(String, Member)>)>) -> bool {
    forall|i: int, j: int|
        0 <= i < types.len() && 0 <= j < types[i].1@.len() ==> #[trigger] types[i].1@[j].1.offset < usize::MAX
}

/// A type's name without the `*`s that end it.
pub open spec fn spec_strip_stars(s: Seq<char>) -> Seq<char>
    decreases s.len(),
{
    if s.len() > 0 && s.last() == '*' {
        spec_strip_stars(s.drop_last())
    } else {
        s
    }
}

/// What reading the variable of reference `h` gives: a value of its struct
/// type at its address, a value of the struct type it points to, or its
/// value.
pub open spec fn reference_result(ids: PyIds, h: HintReference, r: Result<IdsValue, IdsError>) -> bool {
    let vm = ids.vm;
    let tracking = ids.ap_tracking;
    let types = ids.struct_types@;
    if h.cairo_type is Some && has_key(types, h.cairo_type->0@) {
        match spec_compute_addr(vm, h, tracking) {
            Ok(a) => r matches Ok(IdsValue::Typed(id)) && id.hint_value == a && id.cairo_type@ == h.cairo_type->0@,
            Err(e) => r == Err::<IdsValue, IdsError>(e),
        }
    } else if h.cairo_type is Some && has_key(types, spec_strip_stars(h.cairo_type->0@)) {
        match spec_compute_addr(vm, h, tracking) {
            Ok(a) => match cell(vm, a) {
                Some(PyMaybeRelocatable::RelocatableValue(p)) => r matches Ok(IdsValue::Typed(id))
                    && id.hint_value == p && id.cairo_type@ == spec_strip_stars(h.cairo_type->0@),
                _ => r == Err::<IdsValue, IdsError>(IdsError::ExpectedRelocatable(a)),
            },
            Err(e) => r == Err::<IdsValue, IdsError>(e),
        }
    } else {
        match spec_value_from_reference(vm, h, tracking) {
            Ok(v) => r == Ok::<IdsValue, IdsError>(IdsValue::Value(v)),
            Err(e) => r == Err::<IdsValue, IdsError>(e),
        }
    }
}

/// Whether reading the variable of reference `h` stays within the
/// arithmetic of sizes.
pub open spec fn reference_safe(ids: PyIds, h: HintReference) -> bool {
    if h.cairo_type is Some && (has_key(ids.struct_types@, h.cairo_type->0@)
        || has_key(ids.struct_types@, spec_strip_stars(h.cairo_type->0@))) {
        addr_safe(ids.vm, h, ids.ap_tracking)
    } else {
        value_safe(ids.vm, h, ids.ap_tracking)
    }
}

/// The size of a struct: one past the largest offset of its members.
fn struct_size(members: &Vec<(String, Member)>) -> (r: usize)
    requires
        forall|j: int| 0 <= j < members@.len() ==> #[trigger] members@[j].1.offset < usize::MAX,
    ensures
        r == members_size(members@),
{
    let mut size: usize = 0;
    let mut j: usize = 0;
    assert(members@.take(0) =~= Seq::<(String, Member)>::empty());
    while j < members.len()
        invariant
            j <= members.len(),
            forall|k: int| 0 <= k < members@.len() ==> #[trigger] members@[k].1.offset < usize::MAX,
            size == members_size(members@.take(j as int)),
        decreases members.len() - j,
    {
        assert(members@.take(j + 1).drop_last() =~= members@.take(j as int));
        assert(members@.take(j + 1).last() == members@[j as int]);
        let here = members[j].1.offset + 1;
        if here > size {
            size = here;
        }
        j += 1;
    }
    assert(members@.take(members@.len() as int) =~= members@);
    size
}

/// The size of the last struct type whose name ends in `name`, if any.
fn struct_size_named(types: &Vec<(String, Vec<(String, Member)>)>, name: &str) -> (r: Option<usize>)
    requires
        size_of_name(types@, name@) is Some ==> offsets_below_max(types@),
    ensures
        r is Some <==> size_of_name(types@, name@) is Some,
        r is Some ==> r->0 == size_of_name(types@, name@)->0,
{
    let mut found: Option<usize> = None;
    let mut i: usize = 0;
    assert(types@.take(0) =~= Seq::<(String, Vec<(String, Member)>)>::empty());
    while i < types.len()
        invariant
            i <= types.len(),
            size_of_name(types@, name@) is Some ==> offsets_below_max(types@),
            found is Some <==> size_of_name(types@.take(i as int), name@) is Some,
            found is Some ==> found->0 == size_of_name(types@.take(i as int), name@)->0,
            found is Some ==> size_of_name(types@, name@) is Some,
        decreases types.len() - i,
    {
        assert(types@.take(i + 1).drop_last() =~= types@.take(i as int));
        assert(types@.take(i + 1).last() == types@[i as int]);
        if last_segment_is(types[i].0.as_str(), name) {
            proof {
                lemma_size_of_name_found(types@, name@, i as int);
            }
            found = Some(struct_size(&types[i].1));
        }
        i += 1;
    }
    assert(types@.take(types@.len() as int) =~= types@);
    found
}

/// A struct type whose name ends in `name` gives that name a size.
proof fn lemma_size_of_name_found(types: Seq<(String, Vec<(String, Member)>)>, name: Seq<char>, i: int)
    requires
        0 <= i < types.len(),
        last_segment(types[i].0@) == name,
    ensures
        size_of_name(types, name) is Some,
    decreases types.len(),
{
    if i < types.len() - 1 && last_segment(types.last().0@) != name {
        lemma_size_of_name_found(types.drop_last(), name, i);
    }
}

/// A type's name without the `*`s that end it.
fn strip_stars(s: &str) -> (r: String)
    ensures
        r@ == spec_strip_stars(s@),
{
    let mut j: usize = s.unicode_len();
    assert(s@.take(j as int) =~= s@);
    while j > 0 && s.get_char(j - 1) == '*'
        invariant
            j <= s@.len(),
            spec_strip_stars(s@) == spec_strip_stars(s@.take(j as int)),
        decreases j,
    {
        assert(s@.take(j as int).drop_last() =~= s@.take(j - 1));
        j -= 1;
    }
    assert(s@.take(j as int) =~= s@.subrange(0, j as int));
    s.substring_char(0, j).to_owned()
}

impl PyIds {
    /// The identifiers of a hint run on `vm`, at `ap_tracking`.
    pub fn new(
        vm: VmState,
        references: Vec<(String, HintReference)>,
        ap_tracking: ApTracking,
        constants: Vec<(String, i128)>,
        struct_types: Vec<(String, Vec<(String, Member)>)>,
    ) -> (r: PyIds)
        ensures
            r == (PyIds { vm, references, ap_tracking, constants, struct_types }),
    {
        PyIds { vm, references, ap_tracking, constants, struct_types }
    }

    /// Whether reading `name` stays within the arithmetic of sizes.
    pub open spec fn getattr_safe(self, name: Seq<char>) -> bool {
        find_key(self.constants@, name) is None ==> {
            &&& size_of_name(self.struct_types@, name) is Some ==> offsets_below_max(self.struct_types@)
            &&& size_of_name(self.struct_types@, name) is None ==> match find_key(self.references@, name) {
                Some(h) => reference_safe(self, h),
                None => true,
            }
        }
    }

    /// Reads the identifier `name`: a constant, then the size of a struct
    /// type whose name ends in `name`, then the variable of the reference
    /// `name`.
    pub fn __getattr__(&self, name: &str) -> (r: Result<IdsValue, IdsError>)
        requires
            self.getattr_safe(name@),
        ensures
            match find_key(self.constants@, name@) {
                Some(c) => r == Ok::<IdsValue, IdsError>(IdsValue::Constant(c)),
                None => match size_of_name(self.struct_types@, name@) {
                    Some(n) => r == Ok::<IdsValue, IdsError>(IdsValue::StructSize(n as usize)),
                    None => match find_key(self.references@, name@) {
                        Some(h) => reference_result(*self, h, r),
                        None => r == Err::<IdsValue, IdsError>(IdsError::UnknownIdentifier),
                    },
                },
            },
    {
        if let Some(i) = find_key_index(&self.constants, name) {
            return Ok(IdsValue::Constant(self.constants[i].1));
        }
        if let Some(size) = struct_size_named(&self.struct_types, name) {
            return Ok(IdsValue::StructSize(size));
        }
        let k = match find_key_index(&self.references, name) {
            Some(k) => k,
            None => {
                return Err(IdsError::UnknownIdentifier);
            },
        };
        let hint_ref = &self.references[k].1;
        if let Some(cairo_type) = &hint_ref.cairo_type {
            let clear_ref = strip_stars(cairo_type.as_str());
            if find_key_index(&self.struct_types, cairo_type.as_str()).is_some() {
                return match compute_addr_from_reference(hint_ref, &self.vm, self.ap_tracking) {
                    Ok(hint_value) => Ok(IdsValue::Typed(PyTypedId { hint_value, cairo_type: cairo_type.clone() })),
                    Err(e) => Err(e),
                };
            } else if find_key_index(&self.struct_types, clear_ref.as_str()).is_some() {
                let addr = match compute_addr_from_reference(hint_ref, &self.vm, self.ap_tracking) {
                    Ok(addr) => addr,
                    Err(e) => {
                        return Err(e);
                    },
                };
                return match self.vm.get_relocatable(addr) {
                    Ok(hint_value) => Ok(IdsValue::Typed(PyTypedId { hint_value, cairo_type: clear_ref })),
                    Err(e) => Err(e),
                };
            }
        }
        match get_value_from_reference(&self.vm, hint_ref, self.ap_tracking) {
            Ok(v) => Ok(IdsValue::Value(v)),
            Err(e) => Err(e),
        }
    }

    /// Assigns `val` to the reference `name`: writes it to the address the
    /// reference names.
    pub fn __setattr__(&mut self, name: &str, val: PyMaybeRelocatable) -> (r: Result<(), IdsError>)
        requires
            find_key(old(self).references@, name@) matches Some(h) ==> addr_safe(old(self).vm, h, old(self).ap_tracking),
        ensures
            final(self).references == old(self).references,
            final(self).ap_tracking == old(self).ap_tracking,
            final(self).constants == old(self).constants,
            final(self).struct_types == old(self).struct_types,
            spec_setattr(*old(self), *final(self), name@, val, r),
    {
        match find_key_index(&self.references, name) {
            Some(k) => {
                let addr = match compute_addr_from_reference(&self.references[k].1, &self.vm, self.ap_tracking) {
                    Ok(addr) => addr,
                    Err(e) => {
                        return Err(e);
                    },
                };
                self.vm.insert_value(addr, val)
            },
            None => Err(IdsError::UnknownAssignment),
        }
    }
}

/// `after` and `r` are what assigning `value` to the reference `name` of
/// `before` gives: an unknown name or an address that cannot be worked out
/// is an error with the memory unchanged; otherwise the value is written to
/// the reference's address.
pub open spec fn spec_setattr(before: PyIds, after: PyIds, name: Seq<char>, value: PyMaybeRelocatable, r: Result<(), IdsError>) -> bool {
    match find_key(before.references@, name) {
        None => r == Err::<(), IdsError>(IdsError::UnknownAssignment) && same_state(after.vm, before.vm),
        Some(h) => match spec_compute_addr(before.vm, h, before.ap_tracking) {
            Err(e) => r == Err::<(), IdsError>(e) && same_state(after.vm, before.vm),
            Ok(a) => insert_outcome(before.vm, after.vm, a, value, r),
        },
    }
}

/// The members of the struct type `cairo_type`.
pub open spec fn members_of(types: Seq<(String, Vec<(String, Member)>)>, cairo_type: Seq<char>) -> Seq<(String, Member)> {
    find_key(types, cairo_type)->0@
}

/// Whether a member of this type is a single cell that can be read and
/// assigned.
pub open spec fn is_felt_type(t: Seq<char>) -> bool {
    t == "felt"@ || t == "felt*"@
}

impl PyTypedId {
    /// Reads the member `name` of this struct value (`address_` gives the
    /// value's address): a `felt` member gives its cell, a member of a
    /// struct type a value of that type at the member's address.
    pub fn __getattr__(&self, vm: &VmState, struct_types: &Vec<(String, Vec<(String, Member)>)>, name: &str) -> (r: Result<IdsValue, IdsError>)
        requires
            name@ != "address_"@ && has_key(struct_types@, self.cairo_type@) ==> (find_key(
                members_of(struct_types@, self.cairo_type@),
                name@,
            ) matches Some(m) ==> self.hint_value.offset + m.offset <= usize::MAX),
        ensures
            name@ == "address_"@ ==> r == Ok::<IdsValue, IdsError>(IdsValue::Value(PyMaybeRelocatable::RelocatableValue(self.hint_value))),
            name@ != "address_"@ && !has_key(struct_types@, self.cairo_type@) ==> r == Err::<IdsValue, IdsError>(IdsError::UnknownStructType),
            name@ != "address_"@ && has_key(struct_types@, self.cairo_type@) ==> match find_key(members_of(struct_types@, self.cairo_type@), name@) {
                Some(m) => if is_felt_type(m.cairo_type@) {
                    match cell(*vm, shifted(self.hint_value, m.offset as int)) {
                        Some(v) => r == Ok::<IdsValue, IdsError>(IdsValue::Value(v)),
                        None => r == Ok::<IdsValue, IdsError>(IdsValue::Nothing),
                    }
                } else {
                    r matches Ok(IdsValue::Typed(id)) && id.hint_value == shifted(self.hint_value, m.offset as int)
                        && id.cairo_type@ == m.cairo_type@
                },
                None => r matches Err(IdsError::NoAttribute(n)) && n@ == name@,
            },
    {
        if str_eq(name, "address_") {
            return Ok(IdsValue::Value(PyMaybeRelocatable::RelocatableValue(self.hint_value)));
        }
        let t = find_key_index(struct_types, self.cairo_type.as_str());
        let t = match t {
            Some(t) => t,
            None => {
                return Err(IdsError::UnknownStructType);
            },
        };
        let members = &struct_types[t].1;
        match find_key_index(members, name) {
            Some(k) => {
                let member = &members[k].1;
                let addr = PyRelocatable {
                    segment_index: self.hint_value.segment_index,
                    offset: self.hint_value.offset + member.offset,
                };
                if str_eq(member.cairo_type.as_str(), "felt") || str_eq(member.cairo_type.as_str(), "felt*") {
                    match vm.get_maybe(addr) {
                        Some(v) => Ok(IdsValue::Value(v)),
                        None => Ok(IdsValue::Nothing),
                    }
                } else {
                    Ok(IdsValue::Typed(PyTypedId { hint_value: addr, cairo_type: member.cairo_type.clone() }))
                }
            },
            None => Err(IdsError::NoAttribute(name.to_owned())),
        }
    }

    /// Assigns `val` to the member `field_name` of this struct value: writes
    /// it to the member's address in `vm`; only `felt` and `felt*` members
    /// can be assigned, and every error leaves the memory unchanged.
    pub fn __setattr__(
        &self,
        vm: &mut VmState,
        struct_types: &Vec<(String, Vec<(String, Member)>)>,
        field_name: &str,
        val: PyMaybeRelocatable,
    ) -> (r: Result<(), IdsError>)
        requires
            find_key(members_of(struct_types@, self.cairo_type@), field_name@) matches Some(m)
                ==> self.hint_value.offset + m.offset <= usize::MAX,
        ensures
            !has_key(struct_types@, self.cairo_type@) ==> r == Err::<(), IdsError>(IdsError::UnknownStructType)
                && same_state(*final(vm), *old(vm)),
            has_key(struct_types@, self.cairo_type@) ==> match find_key(members_of(struct_types@, self.cairo_type@), field_name@) {
                Some(m) => if is_felt_type(m.cairo_type@) {
                    insert_outcome(*old(vm), *final(vm), shifted(self.hint_value, m.offset as int), val, r)
                } else {
                    r == Err::<(), IdsError>(IdsError::StructFieldAssignment) && same_state(*final(vm), *old(vm))
                },
                None => (r matches Err(IdsError::NoAttribute(n)) && n@ == field_name@) && same_state(*final(vm), *old(vm)),
            },
    {
        let t = match find_key_index(struct_types, self.cairo_type.as_str()) {
            Some(t) => t,
            None => {
                return Err(IdsError::UnknownStructType);
            },
        };
        let members = &struct_types[t].1;
        match find_key_index(members, field_name) {
            Some(k) => {
                let member = &members[k].1;
                if str_eq(member.cairo_type.as_str(), "felt") || str_eq(member.cairo_type.as_str(), "felt*") {
                    let field_addr = PyRelocatable {
                        segment_index: self.hint_value.segment_index,
                        offset: self.hint_value.offset + member.offset,
                    };
                    vm.insert_value(field_addr, val)
                } else {
                    Err(IdsError::StructFieldAssignment)
                }
            },
            None => Err(IdsError::NoAttribute(field_name.to_owned())),
        }
    }
}

/// Reading a reference to a plain value (no struct type, no immediate, read
/// through its address) gives the cell at the very address that assigning
/// the reference writes to, and fails as assigning does where no address
/// can be worked out.
pub proof fn lemma_read_gives_the_assigned_cell(ids: PyIds, name: Seq<char>)
    requires
        find_key(ids.constants@, name) is None,
        size_of_name(ids.struct_types@, name) is None,
        find_key(ids.references@, name) matches Some(h)
            && h.cairo_type is None && h.dereference && h.immediate is None,
    ensures
        ({
            let h = find_key(ids.references@, name)->0;
            match spec_compute_addr(ids.vm, h, ids.ap_tracking) {
                Ok(a) => match cell(ids.vm, a) {
                    Some(v) => reference_result(ids, h, Ok(IdsValue::Value(v))),
                    None => reference_result(ids, h, Err(IdsError::FailedToGetIds)),
                },
                Err(e) => reference_result(ids, h, Err(e)),
            }
        }),
{
}

/// A reference to a plain value: no struct type, read through its address,
/// no immediate, not reached through another cell.
pub open spec fn plain_reference(h: HintReference) -> bool {
    h.cairo_type is None && h.dereference && h.immediate is None && !h.inner_dereference
}

/// Reading a reference to a plain value gives back the value just assigned
/// to it.
pub proof fn lemma_assigned_value_reads_back(before: PyIds, after: PyIds, name: Seq<char>, value: PyMaybeRelocatable)
    requires
        find_key(before.constants@, name) is None,
        size_of_name(before.struct_types@, name) is None,
        find_key(before.references@, name) is Some,
        plain_reference(find_key(before.references@, name)->0),
        spec_setattr(before, after, name, value, Ok(())),
        after.references == before.references,
        after.constants == before.constants,
        after.struct_types == before.struct_types,
        after.ap_tracking == before.ap_tracking,
    ensures
        find_key(after.references@, name) == find_key(before.references@, name),
        reference_result(after, find_key(after.references@, name)->0, Ok(IdsValue::Value(value))),
{
    let h = find_key(before.references@, name)->0;
    let a = spec_compute_addr(before.vm, h, before.ap_tracking)->Ok_0;
    assert(spec_base(after.vm, h, after.ap_tracking) == spec_base(before.vm, h, before.ap_tracking));
    assert(spec_compute_addr(after.vm, h, after.ap_tracking) == spec_compute_addr(before.vm, h, before.ap_tracking));
    assert(cell(after.vm, a) == Some(value));
}

/// A reference that follows the pointer stored at its first offset (and
/// carries no immediate) names the address that pointer holds moved by the
/// second offset: same segment, offset plus `offset2`.
pub proof fn lemma_inner_dereference_follows_pointer(
    vm: VmState,
    r: HintReference,
    hint: ApTracking,
    base: PyRelocatable,
    target: PyRelocatable,
)
    requires
        spec_base(vm, r, hint) == Ok::<PyRelocatable, IdsError>(base),
        r.inner_dereference,
        r.immediate is None,
        0 <= base.offset + r.offset1 <= usize::MAX,
        cell(vm, PyRelocatable { segment_index: base.segment_index, offset: (base.offset + r.offset1) as usize })
            == Some(PyMaybeRelocatable::RelocatableValue(target)),
        0 <= target.offset + r.offset2 <= usize::MAX,
    ensures
        spec_compute_addr(vm, r, hint) == Ok::<PyRelocatable, IdsError>(
            PyRelocatable { segment_index: target.segment_index, offset: (target.offset + r.offset2) as usize },
        ),
{
}

/// Two references that differ only in their second offset (and carry no
/// immediate) name addresses of one segment whose offsets differ by the
/// difference of their second offsets.
pub proof fn lemma_second_offset_shifts_address(vm: VmState, r: HintReference, r2: HintReference, hint: ApTracking)
    requires
        r2.register == r.register,
        r2.offset1 == r.offset1,
        r2.dereference == r.dereference,
        r2.inner_dereference == r.inner_dereference,
        r2.ap_tracking_data == r.ap_tracking_data,
        r2.immediate is None,
        r.immediate is None,
        spec_compute_addr(vm, r, hint) is Ok,
        spec_compute_addr(vm, r2, hint) is Ok,
        addr_safe(vm, r, hint),
        addr_safe(vm, r2, hint),
    ensures
        spec_compute_addr(vm, r2, hint)->Ok_0.segment_index == spec_compute_addr(vm, r, hint)->Ok_0.segment_index,
        spec_compute_addr(vm, r2, hint)->Ok_0.offset - spec_compute_addr(vm, r, hint)->Ok_0.offset == r2.offset2 - r.offset2,
{
    assert(spec_base(vm, r2, hint) == spec_base(vm, r, hint));
}

} // verus!
