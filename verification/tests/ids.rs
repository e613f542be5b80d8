use cairo_fuzzer::ids::{
    compute_addr_from_reference, get_value_from_reference, ApTracking, HintReference, IdsError,
    IdsValue, Member, PyIds, PyTypedId, Register, VmState,
};
use cairo_fuzzer::memory::{MemoryError, PyMemory};
use cairo_fuzzer::relocatable::{PyMaybeRelocatable, PyRelocatable};
use cairo_fuzzer::run_context::PyRunContext;

fn rel(segment_index: isize, offset: usize) -> PyRelocatable {
    PyRelocatable { segment_index, offset }
}

fn int_cell(n: i128) -> Option<PyMaybeRelocatable> {
    Some(PyMaybeRelocatable::Int(n))
}

fn addr(segment_index: isize, offset: usize) -> Option<PyMaybeRelocatable> {
    Some(PyMaybeRelocatable::RelocatableValue(rel(segment_index, offset)))
}

/// A VM with `n` segments, its registers at the start of segment 1.
fn vm_with_segments(n: usize) -> VmState {
    VmState { ap: rel(1, 0), fp: rel(1, 0), segments: vec![Vec::new(); n] }
}

fn set_cell(vm: &mut VmState, at: PyRelocatable, value: Option<PyMaybeRelocatable>) {
    let cells = &mut vm.segments[at.segment_index as usize];
    while cells.len() <= at.offset {
        cells.push(None);
    }
    cells[at.offset] = value;
}

fn default_tracking() -> ApTracking {
    ApTracking { group: 0, offset: 0 }
}

fn reference(
    register: Option<Register>,
    offset1: i32,
    dereference: bool,
    inner_dereference: bool,
    ap_tracking_data: Option<ApTracking>,
    immediate: Option<i128>,
    cairo_type: Option<&str>,
) -> HintReference {
    HintReference {
        register,
        offset1,
        offset2: 0,
        dereference,
        inner_dereference,
        ap_tracking_data,
        immediate,
        cairo_type: cairo_type.map(String::from),
    }
}

fn simple_ref(offset1: i32) -> HintReference {
    reference(Some(Register::FP), offset1, true, false, None, None, None)
}

fn typed_ref(cairo_type: &str) -> HintReference {
    reference(Some(Register::FP), 0, true, false, None, None, Some(cairo_type))
}

fn member(cairo_type: &str, offset: usize) -> Member {
    Member { cairo_type: String::from(cairo_type), offset }
}

fn simple_struct_type() -> (String, Vec<(String, Member)>) {
    (
        String::from("SimpleStruct"),
        vec![
            (String::from("x"), member("felt", 0)),
            (String::from("ptr"), member("felt*", 1)),
        ],
    )
}

fn named<T>(name: &str, value: T) -> (String, T) {
    (String::from(name), value)
}

fn typed(value: IdsValue) -> PyTypedId {
    match value {
        IdsValue::Typed(id) => id,
        other => panic!("expected a typed value, got {:?}", other),
    }
}

#[test]
fn ids_get_test() {
    let mut vm = vm_with_segments(2);
    set_cell(&mut vm, rel(1, 1), int_cell(2));
    let ids = PyIds::new(
        vm,
        vec![named("a", simple_ref(1))],
        default_tracking(),
        vec![named("CONST", 3)],
        Vec::new(),
    );

    assert_eq!(ids.__getattr__("a"), Ok(IdsValue::Value(PyMaybeRelocatable::Int(2))));
    assert_eq!(ids.__getattr__("CONST"), Ok(IdsValue::Constant(3)));
}

#[test]
fn ids_get_simple_struct() {
    let mut vm = vm_with_segments(2);
    set_cell(&mut vm, rel(1, 0), int_cell(55));
    set_cell(&mut vm, rel(1, 1), addr(1, 0));
    let ids = PyIds::new(
        vm,
        vec![named("a", typed_ref("SimpleStruct"))],
        default_tracking(),
        Vec::new(),
        vec![simple_struct_type()],
    );

    let a = typed(ids.__getattr__("a").unwrap());
    assert_eq!(a, PyTypedId { hint_value: rel(1, 0), cairo_type: String::from("SimpleStruct") });
    assert_eq!(
        a.__getattr__(&ids.vm, &ids.struct_types, "x"),
        Ok(IdsValue::Value(PyMaybeRelocatable::Int(55)))
    );
    assert_eq!(
        a.__getattr__(&ids.vm, &ids.struct_types, "ptr"),
        Ok(IdsValue::Value(PyMaybeRelocatable::RelocatableValue(rel(1, 0))))
    );
    assert_eq!(ids.__getattr__("SimpleStruct"), Ok(IdsValue::StructSize(2)));
    assert_eq!(
        a.__getattr__(&ids.vm, &ids.struct_types, "y"),
        Err(IdsError::NoAttribute(String::from("y")))
    );
}

#[test]
fn ids_get_nested_struct() {
    let mut vm = vm_with_segments(2);
    set_cell(&mut vm, rel(1, 0), int_cell(55));
    set_cell(&mut vm, rel(1, 1), addr(1, 0));
    let ids = PyIds::new(
        vm,
        vec![named("ns", typed_ref("NestedStruct"))],
        default_tracking(),
        Vec::new(),
        vec![
            named("Struct", Vec::new()),
            named(
                "NestedStruct",
                vec![named("x", member("felt", 0)), named("struct", member("Struct", 1))],
            ),
        ],
    );

    assert_eq!(ids.__getattr__("Struct"), Ok(IdsValue::StructSize(0)));
    let ns = typed(ids.__getattr__("ns").unwrap());
    let inner = typed(ns.__getattr__(&ids.vm, &ids.struct_types, "struct").unwrap());
    assert_eq!(
        inner.__getattr__(&ids.vm, &ids.struct_types, "address_"),
        Ok(IdsValue::Value(PyMaybeRelocatable::RelocatableValue(rel(1, 1))))
    );
}

#[test]
fn ids_get_from_pointer() {
    let mut vm = vm_with_segments(3);
    set_cell(&mut vm, rel(1, 0), addr(2, 0));
    let mut ids = PyIds::new(
        vm,
        vec![
            named("ssp", typed_ref("SimpleStruct*")),
            named("ssp_x_ptr", reference(Some(Register::FP), 0, true, true, None, None, None)),
        ],
        default_tracking(),
        Vec::new(),
        vec![simple_struct_type()],
    );

    // ids.ssp.x = 5
    let ssp = typed(ids.__getattr__("ssp").unwrap());
    assert_eq!(ssp, PyTypedId { hint_value: rel(2, 0), cairo_type: String::from("SimpleStruct") });
    assert_eq!(ssp.__setattr__(&mut ids.vm, &ids.struct_types, "x", PyMaybeRelocatable::Int(5)), Ok(()));
    assert_eq!(ids.vm.get_maybe(rel(2, 0)), int_cell(5));

    // assert ids.ssp.x == 5
    let ssp = typed(ids.__getattr__("ssp").unwrap());
    assert_eq!(
        ssp.__getattr__(&ids.vm, &ids.struct_types, "x"),
        Ok(IdsValue::Value(PyMaybeRelocatable::Int(5)))
    );
    // assert ids.ssp_x_ptr == 5
    assert_eq!(ids.__getattr__("ssp_x_ptr"), Ok(IdsValue::Value(PyMaybeRelocatable::Int(5))));
}

#[test]
fn ids_failed_get_test() {
    let ids = PyIds::new(vm_with_segments(2), Vec::new(), default_tracking(), Vec::new(), Vec::new());

    assert_eq!(ids.__getattr__("b"), Err(IdsError::UnknownIdentifier));
    assert_eq!(
        IdsError::UnknownIdentifier.message(),
        Some(String::from("Failed to get ids value"))
    );
}

#[test]
fn ids_set_test() {
    let mut vm = vm_with_segments(2);
    set_cell(&mut vm, rel(1, 0), int_cell(2));
    let mut ids = PyIds::new(
        vm,
        vec![named("a", simple_ref(1))],
        default_tracking(),
        vec![named("CONST", 3)],
        Vec::new(),
    );

    // ids.a = memory[fp]
    let value = ids.vm.get_maybe(ids.vm.fp).unwrap();
    assert_eq!(ids.__setattr__("a", value), Ok(()));
    // ids.a now contains memory[fp]
    assert_eq!(ids.vm.get_maybe(rel(1, 1)), int_cell(2));
    // ids.b does not exist
    assert_eq!(ids.__setattr__("b", value), Err(IdsError::UnknownAssignment));
    assert_eq!(ids.vm.get_maybe(rel(1, 2)), None);
    assert_eq!(
        IdsError::UnknownAssignment.message(),
        Some(String::from("Failed to set ids value to Cairo memory"))
    );
}

#[test]
fn ids_set_struct_attribute() {
    let mut ids = PyIds::new(
        vm_with_segments(2),
        vec![
            named("struct", typed_ref("SimpleStruct")),
            named("fp", reference(Some(Register::FP), 0, false, false, None, None, None)),
        ],
        default_tracking(),
        Vec::new(),
        vec![simple_struct_type()],
    );

    let s = typed(ids.__getattr__("struct").unwrap());
    // ids.struct.x = 5
    assert_eq!(s.__setattr__(&mut ids.vm, &ids.struct_types, "x", PyMaybeRelocatable::Int(5)), Ok(()));
    // ids.struct.ptr = ids.fp
    let fp = match ids.__getattr__("fp") {
        Ok(IdsValue::Value(v)) => v,
        other => panic!("expected a value, got {:?}", other),
    };
    assert_eq!(fp, PyMaybeRelocatable::RelocatableValue(ids.vm.fp));
    assert_eq!(s.__setattr__(&mut ids.vm, &ids.struct_types, "ptr", fp), Ok(()));
    // ids.struct.x now contains 5, ids.struct.ptr fp's address
    assert_eq!(ids.vm.get_maybe(rel(1, 0)), int_cell(5));
    assert_eq!(ids.vm.get_maybe(rel(1, 1)), Some(PyMaybeRelocatable::RelocatableValue(ids.vm.fp)));
    // ids.struct.y does not exist
    assert_eq!(
        s.__setattr__(&mut ids.vm, &ids.struct_types, "y", PyMaybeRelocatable::Int(10)),
        Err(IdsError::NoAttribute(String::from("y")))
    );
    assert_eq!(ids.vm.get_maybe(rel(1, 2)), None);
}

#[test]
fn ids_ap_tracked_ref() {
    let ap_ref = |tracking: Option<ApTracking>| reference(Some(Register::AP), 0, true, false, tracking, None, None);
    let mut ids = PyIds::new(
        vm_with_segments(2),
        vec![
            named("ok_ref", ap_ref(Some(default_tracking()))),
            named("bad_ref", ap_ref(Some(ApTracking { group: 1, offset: 0 }))),
            named("none_ref", ap_ref(None)),
        ],
        default_tracking(),
        Vec::new(),
        Vec::new(),
    );

    // ids.ok_ref = 5
    assert_eq!(ids.__setattr__("ok_ref", PyMaybeRelocatable::Int(5)), Ok(()));
    assert_eq!(ids.vm.get_maybe(rel(1, 0)), int_cell(5));
    // memory[fp] = ids.ok_ref
    assert_eq!(ids.__getattr__("ok_ref"), Ok(IdsValue::Value(PyMaybeRelocatable::Int(5))));

    assert_eq!(ids.__getattr__("bad_ref"), Err(IdsError::InvalidTrackingGroup(1, 0)));
    assert_eq!(ids.__getattr__("none_ref"), Err(IdsError::NoneApTrackingData));
}

#[test]
fn ids_no_register_ref() {
    let imm = 89;
    let ids = PyIds::new(
        vm_with_segments(2),
        vec![
            named("imm_ref", reference(None, 0, true, false, None, Some(imm), None)),
            named("no_reg_ref", reference(None, 0, true, false, None, None, None)),
        ],
        default_tracking(),
        Vec::new(),
        Vec::new(),
    );

    assert_eq!(ids.__getattr__("imm_ref"), Ok(IdsValue::Value(PyMaybeRelocatable::Int(imm))));
    assert_eq!(ids.__getattr__("no_reg_ref"), Err(IdsError::NoRegisterInReference));
}

#[test]
fn ids_reference_with_immediate() {
    let imm_offset = 5;
    let mut vm = vm_with_segments(2);
    set_cell(&mut vm, rel(1, 0), addr(1, 3));
    let ids = PyIds::new(
        vm,
        vec![
            named("inner_imm_ref", reference(Some(Register::FP), 0, false, true, None, Some(imm_offset), None)),
            named("imm_ref", reference(Some(Register::FP), 0, true, false, None, Some(imm_offset), None)),
        ],
        default_tracking(),
        Vec::new(),
        Vec::new(),
    );

    let inner = ids.__getattr__("inner_imm_ref");
    assert_eq!(inner, ids.__getattr__("imm_ref"));
    assert_eq!(inner, Ok(IdsValue::Value(PyMaybeRelocatable::RelocatableValue(rel(1, 8)))));
}

#[test]
fn test_properties() {
    let run_context = PyRunContext::new(rel(1, 2), rel(3, 4), rel(5, 6));

    assert_eq!(run_context.pc(), rel(1, 2));
    assert_eq!(run_context.ap(), rel(3, 4));
    assert_eq!(run_context.fp(), rel(5, 6));
}

#[test]
fn ap_is_moved_back_by_the_tracking_distance() {
    let mut vm = vm_with_segments(2);
    vm.ap = rel(1, 7);
    let r = reference(Some(Register::AP), -1, false, false, Some(ApTracking { group: 2, offset: 3 }), None, None);

    assert_eq!(compute_addr_from_reference(&r, &vm, ApTracking { group: 2, offset: 5 }), Ok(rel(1, 4)));
    assert_eq!(
        compute_addr_from_reference(&r, &vm, ApTracking { group: 2, offset: 11 }),
        Err(IdsError::CantSubOffset(7, 8))
    );
}

#[test]
fn reference_before_its_segment_fails() {
    let vm = vm_with_segments(2);
    let r = reference(Some(Register::FP), -1, true, false, None, None, None);

    assert_eq!(compute_addr_from_reference(&r, &vm, default_tracking()), Err(IdsError::FailedToGetIds));
    assert_eq!(get_value_from_reference(&vm, &r, default_tracking()), Err(IdsError::FailedToGetIds));
}

#[test]
fn reading_an_empty_cell_fails_and_a_negative_immediate_is_no_size() {
    let mut vm = vm_with_segments(2);
    set_cell(&mut vm, rel(1, 0), addr(1, 2));
    let empty = simple_ref(4);
    let negative = reference(Some(Register::FP), 0, true, false, None, Some(-1), None);
    let inner_ints = reference(Some(Register::FP), 0, false, true, None, None, None);
    set_cell(&mut vm, rel(1, 1), int_cell(9));
    let pointing_at_int = reference(Some(Register::FP), 1, false, true, None, None, None);

    assert_eq!(get_value_from_reference(&vm, &empty, default_tracking()), Err(IdsError::FailedToGetIds));
    assert_eq!(get_value_from_reference(&vm, &negative, default_tracking()), Err(IdsError::BigintToUsizeFail));
    assert_eq!(compute_addr_from_reference(&inner_ints, &vm, default_tracking()), Ok(rel(1, 2)));
    assert_eq!(
        compute_addr_from_reference(&pointing_at_int, &vm, default_tracking()),
        Err(IdsError::ExpectedRelocatable(rel(1, 1)))
    );
}

#[test]
fn struct_sizes_and_members_of_structs() {
    let ids = PyIds::new(
        vm_with_segments(2),
        vec![named("p", typed_ref("Pair"))],
        default_tracking(),
        vec![named("Pair", 7)],
        vec![
            named("a.b.Pair", vec![named("x", member("felt", 0)), named("y", member("Inner", 4))]),
            named("Inner", vec![named("z", member("felt", 2))]),
        ],
    );

    // a constant of the same name is read first
    assert_eq!(ids.__getattr__("Pair"), Ok(IdsValue::Constant(7)));
    assert_eq!(ids.__getattr__("Inner"), Ok(IdsValue::StructSize(3)));
    let id = PyTypedId { hint_value: rel(1, 0), cairo_type: String::from("a.b.Pair") };
    assert_eq!(
        id.__getattr__(&ids.vm, &ids.struct_types, "y"),
        Ok(IdsValue::Typed(PyTypedId { hint_value: rel(1, 4), cairo_type: String::from("Inner") }))
    );
    assert_eq!(id.__getattr__(&ids.vm, &ids.struct_types, "x"), Ok(IdsValue::Nothing));
    let mut vm = ids.vm.clone();
    assert_eq!(
        id.__setattr__(&mut vm, &ids.struct_types, "y", PyMaybeRelocatable::Int(1)),
        Err(IdsError::StructFieldAssignment)
    );
    let unknown = PyTypedId { hint_value: rel(1, 0), cairo_type: String::from("Missing") };
    assert_eq!(
        unknown.__setattr__(&mut vm, &ids.struct_types, "x", PyMaybeRelocatable::Int(1)),
        Err(IdsError::UnknownStructType)
    );
    assert_eq!(unknown.__getattr__(&vm, &ids.struct_types, "x"), Err(IdsError::UnknownStructType));
    assert_eq!(vm.get_maybe(rel(1, 0)), None);
}

#[test]
fn memory_is_written_once() {
    let mut vm = vm_with_segments(2);
    assert_eq!(vm.insert_value(rel(1, 3), PyMaybeRelocatable::Int(7)), Ok(()));
    assert_eq!(vm.get_maybe(rel(1, 3)), int_cell(7));
    assert_eq!(vm.get_maybe(rel(1, 2)), None);
    assert_eq!(vm.insert_value(rel(1, 3), PyMaybeRelocatable::Int(7)), Ok(()));
    assert_eq!(
        vm.insert_value(rel(1, 3), PyMaybeRelocatable::Int(8)),
        Err(IdsError::InconsistentMemory(rel(1, 3)))
    );
    assert_eq!(vm.insert_value(rel(2, 0), PyMaybeRelocatable::Int(1)), Err(IdsError::UnallocatedSegment));
    assert_eq!(vm.insert_value(rel(-1, 0), PyMaybeRelocatable::Int(1)), Err(IdsError::UnallocatedSegment));
    assert_eq!(
        IdsError::NoAttribute(String::from("y")).message(),
        Some(String::from("'PyTypeId' object has no attribute 'y'"))
    );
    assert_eq!(IdsError::FailedToGetIds.message(), None);
}

#[test]
fn memory_insert_test() {
    let mut memory = PyMemory::new(vm_with_segments(2));
    let ap = memory.vm.ap;
    // memory[ap] = 5
    assert_eq!(memory.__setitem__(ap, PyMaybeRelocatable::Int(5)), Ok(()));
    assert_eq!(memory.__getitem__(ap), int_cell(5));
}

#[test]
fn memory_insert_ocuppied_address_error_test() {
    let mut memory = PyMemory::new(vm_with_segments(2));
    let ap = memory.vm.ap;
    // we try to insert to the same address two times
    assert_eq!(memory.__setitem__(ap, PyMaybeRelocatable::Int(5)), Ok(()));
    assert_eq!(memory.__setitem__(ap, PyMaybeRelocatable::Int(3)), Err(MemoryError::SetValue));
    assert_eq!(memory.__getitem__(ap), int_cell(5));
    assert_eq!(
        MemoryError::SetValue.message(),
        Some(String::from("Failed to set value to Cairo memory"))
    );
}

#[test]
fn memory_get_test() {
    let mut memory = PyMemory::new(vm_with_segments(2));
    let ap = rel(1, 1);
    let fp = rel(1, 2);
    // memory[ap] = fp
    assert_eq!(memory.__setitem__(ap, PyMaybeRelocatable::RelocatableValue(fp)), Ok(()));
    // assert memory[ap] == fp
    assert_eq!(memory.__getitem__(ap), Some(PyMaybeRelocatable::RelocatableValue(fp)));
}

#[test]
fn get_range() {
    let mut vm = vm_with_segments(2);
    set_cell(&mut vm, rel(0, 0), int_cell(2345108766317314046));
    set_cell(&mut vm, rel(1, 0), addr(2, 0));
    set_cell(&mut vm, rel(1, 1), addr(3, 0));
    let memory = PyMemory::new(vm);

    let range = memory.get_range(PyMaybeRelocatable::RelocatableValue(rel(1, 0)), 2).unwrap();
    assert_eq!(
        range,
        vec![
            PyMaybeRelocatable::RelocatableValue(rel(2, 0)),
            PyMaybeRelocatable::RelocatableValue(rel(3, 0)),
        ]
    );
}

#[test]
fn get_range_with_gap() {
    let mut vm = vm_with_segments(2);
    set_cell(&mut vm, rel(0, 0), int_cell(2345108766317314046));
    set_cell(&mut vm, rel(1, 0), addr(2, 0));
    set_cell(&mut vm, rel(1, 2), addr(3, 0));
    let memory = PyMemory::new(vm);

    let range = memory.get_range(PyMaybeRelocatable::RelocatableValue(rel(1, 0)), 2);
    assert_eq!(range, Err(MemoryError::GetRange));
    assert_eq!(
        MemoryError::GetRange.message(),
        Some(String::from("Failed to call get_range method from Cairo memory"))
    );
}

fn loaded(values: Vec<Option<PyMaybeRelocatable>>) -> PyMemory {
    let mut vm = vm_with_segments(0);
    vm.segments.push(values);
    PyMemory::new(vm)
}

#[test]
fn get_range_as_ints() {
    let memory = loaded(vec![int_cell(1), int_cell(2), int_cell(3), int_cell(4)]);
    assert_eq!(memory.get_range_as_ints(rel(0, 0), 4).expect("get_range_as_ints() failed"), vec![1, 2, 3, 4]);
}

#[test]
fn get_range_as_ints_mixed() {
    let memory = loaded(vec![int_cell(1), int_cell(2), addr(1, 2), int_cell(4)]);
    memory.get_range_as_ints(rel(0, 0), 4).expect_err("get_range_as_ints() succeeded (should have failed)");
}

#[test]
fn get_range_as_ints_incomplete() {
    let memory = loaded(vec![int_cell(1), int_cell(2), int_cell(3), int_cell(4)]);
    memory.get_range_as_ints(rel(0, 0), 8).expect_err("get_range_as_ints() succeeded (should have failed)");
}
