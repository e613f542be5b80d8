//! Reading a Starknet contract class: the external functions its ABI
//! declares, with the types of their parameters and results.
use vstd::prelude::*;
use crate::json::{
    as_array, as_object, as_str, get, json_of_text, lookup, obj_get_array, obj_get_str, obj_lookup,
    lemma_lookup_is_member, parse_json_text, spec_as_array, spec_as_object, spec_get, spec_get_str, Json,
    JsonValue, ReadError,
};
use crate::rustic::types::{type_view, types_view, Type, TypeV};
use crate::text::{spec_starts_with, starts_with, str_eq};

verus! {

/// A function of the contract the fuzzer can target: its name, its position
/// among the functions the ABI lists, its parameter types and result types.
#[derive(Debug)]
pub struct Function {
    pub name: String,
    pub selector_idx: usize,
    pub inputs: Vec<Type>,
    pub outputs: Vec<String>,
}

/// An external function as the ABI declares it.
#[derive(Debug)]
pub struct AbiFunction {
    pub name: String,
    pub inputs: Vec<Type>,
    pub outputs: Vec<String>,
}

/// Name, parameter types and result types of a declared function.
pub type AbiV = (Seq<char>, Seq<TypeV>, Seq<Seq<char>>);

/// The characters of each string.
pub open spec fn strings_view(s: Seq<String>) -> Seq<Seq<char>> {
    s.map_values(|x: String| x@)
}

/// The abstract value of a declared function.
pub open spec fn abi_view(f: AbiFunction) -> AbiV {
    (f.name@, types_view(f.inputs@), strings_view(f.outputs@))
}

/// The abstract values of declared functions.
pub open spec fn abis_view(s: Seq<AbiFunction>) -> Seq<AbiV> {
    s.map_values(|f: AbiFunction| abi_view(f))
}

/// The felt252 zero.
pub open spec fn felt_zero() -> TypeV {
    TypeV::Felt252(Seq::new(32, |i: int| 0u8))
}

/// The parameter a Cairo type name stands for, initialized to zero; `None`
/// for the types the fuzzer does not handle.
pub open spec fn abi_input_type(s: Seq<char>) -> Option<TypeV> {
    if s == "core::integer::u8"@ {
        Some(TypeV::U8(0))
    } else if s == "core::integer::u16"@ {
        Some(TypeV::U16(0))
    } else if s == "core::integer::u32"@ {
        Some(TypeV::U32(0))
    } else if s == "core::integer::u64"@ {
        Some(TypeV::U64(0))
    } else if s == "core::integer::u128"@ {
        Some(TypeV::U128(0))
    } else if s == "core::felt252"@ {
        Some(felt_zero())
    } else {
        None
    }
}

/// The parameter an ABI input entry declares.
pub open spec fn input_type_of(item: Json) -> Option<TypeV> {
    match spec_get_str(item, "type"@) {
        Some(t) => abi_input_type(t),
        None => None,
    }
}

/// The parameters of a list of input entries; `None` when an entry has no
/// string `type` or names a type the fuzzer does not handle.
pub open spec fn spec_input_types(items: Seq<Json>) -> Option<Seq<TypeV>> {
    if forall|i: int| 0 <= i < items.len() ==> (#[trigger] input_type_of(items[i])) is Some {
        Some(items.map_values(|j: Json| input_type_of(j).unwrap()))
    } else {
        None
    }
}

/// The result types of a list of output entries; `None` when an entry has
/// no string `type`.
pub open spec fn spec_output_types(items: Seq<Json>) -> Option<Seq<Seq<char>>> {
    if forall|i: int| 0 <= i < items.len() ==> (#[trigger] spec_get_str(items[i], "type"@)) is Some {
        Some(items.map_values(|j: Json| spec_get_str(j, "type"@).unwrap()))
    } else {
        None
    }
}

/// The function an ABI entry declares; `None` when the entry lacks a string
/// `name`, an `inputs` or `outputs` array, or a readable type.
pub open spec fn spec_extract(fields: Seq<(String, Json)>) -> Option<AbiV> {
    match (obj_get_str(fields, "name"@), obj_get_array(fields, "inputs"@), obj_get_array(fields, "outputs"@)) {
        (Some(n), Some(ins), Some(outs)) => match (spec_input_types(ins), spec_output_types(outs)) {
            (Some(it), Some(ot)) => Some((n, it, ot)),
            _ => None,
        },
        _ => None,
    }
}

/// Reads the parameter types of a list of input entries; `None` where an
/// entry is unreadable.
pub fn input_types(items: &Vec<Json>) -> (r: Option<Vec<Type>>)
    ensures
        match r {
            None => spec_input_types(items@) is None,
            Some(v) => spec_input_types(items@) == Some(types_view(v@)),
        },
{
    let mut res: Vec<Type> = Vec::new();
    let mut i: usize = 0;
    while i < items.len()
        invariant
            i <= items.len(),
            forall|j: int| 0 <= j < i ==> (#[trigger] input_type_of(items@[j])) is Some,
            types_view(res@) == items@.take(i as int).map_values(|j: Json| input_type_of(j).unwrap()),
        decreases items.len() - i,
    {
        let t = match get(&items[i], "type") {
            Some(m) => match as_str(m) {
                Some(s) => s,
                None => {
                    assert(input_type_of(items@[i as int]) is None);
                    return None;
                },
            },
            None => {
                assert(input_type_of(items@[i as int]) is None);
                return None;
            },
        };
        let v = if str_eq(t.as_str(), "core::integer::u8") {
            Type::U8(0)
        } else if str_eq(t.as_str(), "core::integer::u16") {
            Type::U16(0)
        } else if str_eq(t.as_str(), "core::integer::u32") {
            Type::U32(0)
        } else if str_eq(t.as_str(), "core::integer::u64") {
            Type::U64(0)
        } else if str_eq(t.as_str(), "core::integer::u128") {
            Type::U128(0)
        } else if str_eq(t.as_str(), "core::felt252") {
            let z = Type::Felt252([0u8; 32]);
            assert(type_view(z) == felt_zero()) by {
                assert(z matches Type::Felt252(b) && b@ =~= Seq::new(32, |j: int| 0u8));
            }
            z
        } else {
            assert(input_type_of(items@[i as int]) is None);
            return None;
        };
        let ghost before = res@;
        res.push(v);
        proof {
            assert(type_view(v) == input_type_of(items@[i as int]).unwrap());
            assert(res@.drop_last() =~= before);
            assert(items@.take(i + 1).drop_last() =~= items@.take(i as int));
            assert(types_view(res@) =~= items@.take(i + 1).map_values(|j: Json| input_type_of(j).unwrap()));
        }
        i += 1;
    }
    assert(items@.take(items.len() as int) =~= items@);
    Some(res)
}

/// Reads the result types of a list of output entries; `None` where an
/// entry has no string `type`.
pub fn output_types(items: &Vec<Json>) -> (r: Option<Vec<String>>)
    ensures
        match r {
            None => spec_output_types(items@) is None,
            Some(v) => spec_output_types(items@) == Some(strings_view(v@)),
        },
{
    let mut res: Vec<String> = Vec::new();
    let mut i: usize = 0;
    while i < items.len()
        invariant
            i <= items.len(),
            res.len() == i,
            forall|j: int| 0 <= j < i ==> (#[trigger] spec_get_str(items@[j], "type"@)) is Some,
            strings_view(res@) == items@.take(i as int).map_values(|j: Json| spec_get_str(j, "type"@).unwrap()),
        decreases items.len() - i,
    {
        let t = match get(&items[i], "type") {
            Some(m) => match as_str(m) {
                Some(s) => s,
                None => {
                    assert(spec_get_str(items@[i as int], "type"@) is None);
                    return None;
                },
            },
            None => {
                assert(spec_get_str(items@[i as int], "type"@) is None);
                return None;
            },
        };
        let ghost before = res@;
        res.push(t.clone());
        proof {
            assert(t@ == spec_get_str(items@[i as int], "type"@).unwrap());
            assert(res@.drop_last() =~= before);
            assert forall|j: int| 0 <= j < i implies strings_view(res@)[j] == strings_view(before)[j] by {
                assert(res@[j] == before[j]);
            }
            let f = |j: Json| spec_get_str(j, "type"@).unwrap();
            assert forall|j: int| 0 <= j <= i implies strings_view(res@)[j] == items@.take(i + 1).map_values(f)[j] by {
                if j < i {
                    assert(items@.take(i + 1)[j] == items@.take(i as int)[j]);
                    assert(strings_view(before)[j] == items@.take(i as int).map_values(f)[j]);
                }
            }
            assert(strings_view(res@) =~= items@.take(i + 1).map_values(f));
        }
        i += 1;
    }
    assert(items@.take(items.len() as int) =~= items@);
    Some(res)
}

/// Reads the function an ABI entry declares; `None` where the entry lacks a
/// string `name`, an `inputs` or `outputs` array, a string type on each
/// entry of those, or where a parameter type is not one the fuzzer handles.
pub fn read_function(fields: &Vec<(String, Json)>) -> (r: Option<AbiFunction>)
    ensures
        match r {
            None => spec_extract(fields@) is None,
            Some(f) => spec_extract(fields@) == Some(abi_view(f)),
        },
{
    let name = match lookup(fields, "name") {
        Some(m) => match as_str(m) {
            Some(s) => s.clone(),
            None => return None,
        },
        None => return None,
    };
    let inputs_data = match lookup(fields, "inputs") {
        Some(m) => match as_array(m) {
            Some(a) => a,
            None => return None,
        },
        None => return None,
    };
    let outputs_data = match lookup(fields, "outputs") {
        Some(m) => match as_array(m) {
            Some(a) => a,
            None => return None,
        },
        None => return None,
    };
    let inputs = match input_types(inputs_data) {
        Some(v) => v,
        None => return None,
    };
    let outputs = match output_types(outputs_data) {
        Some(v) => v,
        None => return None,
    };
    Some(AbiFunction { name, inputs, outputs })
}

/// The function a readable ABI entry declares: its name, its parameters
/// (each of a type the fuzzer handles, initialized to zero) and its result
/// types. An entry with a missing field or an unhandled parameter type, such
/// as `core::integer::u256`, is not readable.
pub fn extract_function(fields: &Vec<(String, Json)>) -> (r: AbiFunction)
    requires
        spec_extract(fields@) is Some,
    ensures
        spec_extract(fields@) == Some(abi_view(r)),
{
    read_function(fields).unwrap()
}

/// The external functions declared by a list of ABI entries, interfaces
/// searched in turn; `None` when an entry is unreadable.
pub open spec fn spec_search(items: Seq<Json>) -> Option<Seq<AbiV>>
    decreases items,
{
    if items.len() == 0 {
        Some(Seq::empty())
    } else {
        match spec_search(items.drop_last()) {
            None => None,
            Some(p) => match spec_search_one(items.last()) {
                None => None,
                Some(q) => Some(p + q),
            },
        }
    }
}

/// The external functions one ABI entry declares: itself when it is an
/// external function, those of its items when it is an interface.
pub open spec fn spec_search_one(obj: Json) -> Option<Seq<AbiV>>
    decreases obj,
{
    match obj.value {
        JsonValue::Object(fields) => match obj_get_str(fields@, "type"@) {
            None => None,
            Some(t) => if t == "function"@ {
                match obj_get_str(fields@, "state_mutability"@) {
                    None => None,
                    Some(sm) => if sm == "external"@ {
                        match spec_extract(fields@) {
                            Some(f) => Some(seq![f]),
                            None => None,
                        }
                    } else {
                        Some(Seq::empty())
                    },
                }
            } else if t == "interface"@ {
                match obj_lookup(fields@, "items"@) {
                    Some(m) => match m.value {
                        JsonValue::Array(a) => {
                            proof {
                                lemma_lookup_is_member(fields@, "items"@);
                                let k = choose|k: int| 0 <= k < fields@.len() && #[trigger] fields@[k] == (fields@[k].0, m);
                                assert(decreases_to!(obj => obj.value));
                                assert(decreases_to!(obj.value => fields));
                                assert(decreases_to!(fields => fields@));
                                assert(decreases_to!(fields@ => fields@[k]));
                                assert(decreases_to!(fields@[k] => fields@[k].1));
                                assert(decreases_to!(m => m.value));
                                assert(decreases_to!(m.value => a));
                                assert(decreases_to!(a => a@));
                            }
                            spec_search(a@)
                        },
                        _ => None,
                    },
                    None => None,
                }
            } else {
                Some(Seq::empty())
            },
        },
        _ => None,
    }
}

/// A readable prefix is needed for the whole list to be readable.
proof fn lemma_search_none_extends(items: Seq<Json>, n: int)
    requires
        0 <= n <= items.len(),
        spec_search(items.take(n)) is None,
    ensures
        spec_search(items) is None,
    decreases items.len() - n,
{
    if n < items.len() {
        assert(items.take(n + 1).drop_last() =~= items.take(n));
        lemma_search_none_extends(items, n + 1);
    } else {
        assert(items.take(n) =~= items);
    }
}

/// The external functions declared by a list of ABI entries, interfaces
/// searched in turn; `None` where an entry is unreadable.
pub fn search_for_function(data: &Vec<Json>) -> (r: Option<Vec<AbiFunction>>)
    ensures
        match r {
            None => spec_search(data@) is None,
            Some(v) => spec_search(data@) == Some(abis_view(v@)),
        },
    decreases data,
{
    let mut res: Vec<AbiFunction> = Vec::new();
    let mut i: usize = 0;
    assert(data@.take(0) =~= Seq::<Json>::empty());
    assert(abis_view(res@) =~= Seq::<AbiV>::empty());
    while i < data.len()
        invariant
            i <= data.len(),
            spec_search(data@.take(i as int)) == Some(abis_view(res@)),
        decreases data.len() - i,
    {
        proof {
            assert(data@.take(i + 1).drop_last() =~= data@.take(i as int));
            assert(data@.take(i + 1).last() == data@[i as int]);
            assert(decreases_to!(data => data@));
            assert(decreases_to!(data@ => data@[i as int]));
        }
        let mut found = match search_one(&data[i]) {
            Some(v) => v,
            None => {
                proof {
                    lemma_search_none_extends(data@, i + 1);
                }
                return None;
            },
        };
        let ghost before = res@;
        let ghost add = found@;
        res.append(&mut found);
        assert(abis_view(res@) =~= abis_view(before) + abis_view(add));
        i += 1;
    }
    assert(data@.take(data.len() as int) =~= data@);
    Some(res)
}

/// The external functions one ABI entry declares; `None` where the entry is
/// unreadable.
pub fn search_one(obj: &Json) -> (r: Option<Vec<AbiFunction>>)
    ensures
        match r {
            None => spec_search_one(*obj) is None,
            Some(v) => spec_search_one(*obj) == Some(abis_view(v@)),
        },
    decreases obj,
{
    let fields = match &obj.value {
        JsonValue::Object(f) => f,
        _ => return None,
    };
    let t = match lookup(fields, "type") {
        Some(m) => match as_str(m) {
            Some(s) => s,
            None => return None,
        },
        None => return None,
    };
    if str_eq(t.as_str(), "function") {
        let sm = match lookup(fields, "state_mutability") {
            Some(m) => match as_str(m) {
                Some(s) => s,
                None => return None,
            },
            None => return None,
        };
        if str_eq(sm.as_str(), "external") {
            match read_function(fields) {
                Some(f) => {
                    let mut v: Vec<AbiFunction> = Vec::new();
                    v.push(f);
                    assert(abis_view(v@) =~= seq![abi_view(f)]);
                    Some(v)
                },
                None => None,
            }
        } else {
            let v: Vec<AbiFunction> = Vec::new();
            assert(abis_view(v@) =~= Seq::<AbiV>::empty());
            Some(v)
        }
    } else if str_eq(t.as_str(), "interface") {
        match lookup(fields, "items") {
            Some(m) => match &m.value {
                JsonValue::Array(a) => {
                    proof {
                        lemma_lookup_is_member(fields@, "items"@);
                        let k = choose|k: int| 0 <= k < fields@.len() && #[trigger] fields@[k] == (fields@[k].0, *m);
                        assert(decreases_to!(obj => obj.value));
                        assert(decreases_to!(obj.value => *fields));
                        assert(decreases_to!(*fields => fields@));
                        assert(decreases_to!(fields@ => fields@[k]));
                        assert(decreases_to!(fields@[k] => fields@[k].1));
                        assert(decreases_to!(m.value => *a));
                    }
                    search_for_function(a)
                },
                _ => None,
            },
            None => None,
        }
    } else {
        let v: Vec<AbiFunction> = Vec::new();
        assert(abis_view(v@) =~= Seq::<AbiV>::empty());
        Some(v)
    }
}

/// The external functions the ABI of a contract class declares (none when
/// it has no `abi` member); `None` when the `abi` member is not an array or
/// an entry is unreadable.
pub open spec fn spec_get_abi(data: Json) -> Option<Seq<AbiV>> {
    match spec_get(data, "abi"@) {
        None => Some(Seq::empty()),
        Some(abi) => match spec_as_array(abi) {
            Some(a) => spec_search(a),
            None => None,
        },
    }
}

/// Whether the ABI of a contract class can be read.
pub open spec fn abi_readable(data: Json) -> bool {
    spec_get_abi(data) is Some
}

/// Reads the external functions the ABI of a contract class declares;
/// `None` where the ABI is unreadable.
pub fn read_abi(data: &Json) -> (r: Option<Vec<AbiFunction>>)
    ensures
        match r {
            None => spec_get_abi(*data) is None,
            Some(v) => spec_get_abi(*data) == Some(abis_view(v@)),
        },
{
    match get(data, "abi") {
        Some(abi) => match as_array(abi) {
            Some(a) => search_for_function(a),
            None => None,
        },
        None => {
            let v: Vec<AbiFunction> = Vec::new();
            assert(abis_view(v@) =~= Seq::<AbiV>::empty());
            Some(v)
        },
    }
}

/// The external functions the ABI of a readable contract class declares.
pub fn get_abi(data: &Json) -> (r: Vec<AbiFunction>)
    requires
        abi_readable(*data),
    ensures
        spec_get_abi(*data) == Some(abis_view(r@)),
{
    match read_abi(data) {
        Some(v) => v,
        None => Vec::new(),
    }
}

/// The abstract value of a targetable function, without its position.
pub open spec fn function_view(f: Function) -> AbiV {
    (f.name@, types_view(f.inputs@), strings_view(f.outputs@))
}

/// A copy of a list of strings.
pub fn duplicate_strings(v: &Vec<String>) -> (r: Vec<String>)
    ensures
        strings_view(r@) == strings_view(v@),
{
    let mut r: Vec<String> = Vec::new();
    let mut i: usize = 0;
    while i < v.len()
        invariant
            i <= v.len(),
            r.len() == i,
            forall|j: int| 0 <= j < i ==> (#[trigger] r@[j])@ == v@[j]@,
        decreases v.len() - i,
    {
        r.push(v[i].clone());
        i += 1;
    }
    assert(strings_view(r@) =~= strings_view(v@));
    r
}

/// `r` is the function named `name` among those the ABI of the readable
/// contract class `data` declares, with its position among them: the first
/// one with that name, and none when the class has no
/// `entry_points_by_type`.
pub open spec fn function_lookup(data: Json, name: Seq<char>, r: Option<Function>) -> bool {
    let abis = spec_get_abi(data).unwrap();
    &&& spec_get(data, "entry_points_by_type"@) is None ==> r is None
    &&& spec_get(data, "entry_points_by_type"@) is Some ==> match r {
        None => forall|i: int| 0 <= i < abis.len() ==> (#[trigger] abis[i]).0 != name,
        Some(f) => {
            &&& f.selector_idx < abis.len()
            &&& abis[f.selector_idx as int] == function_view(f)
            &&& f.name@ == name
            &&& forall|j: int| 0 <= j < f.selector_idx ==> (#[trigger] abis[j]).0 != name
        },
    }
}

/// The function named `function_name` among those the ABI of a readable
/// contract class declares, with its position among them: the first one
/// with that name, and none when the class has no `entry_points_by_type`.
pub fn find_function(data: &Json, function_name: &String) -> (r: Option<Function>)
    requires
        abi_readable(*data),
    ensures
        function_lookup(*data, function_name@, r),
{
    let mut abi = get_abi(data);
    let ghost abis = abis_view(abi@);
    if get(data, "entry_points_by_type").is_none() {
        return None;
    }
    let mut idx: usize = 0;
    while idx < abi.len()
        invariant
            idx <= abi.len(),
            abis == abis_view(abi@),
            spec_get_abi(*data) == Some(abis),
            spec_get(*data, "entry_points_by_type"@) is Some,
            forall|j: int| 0 <= j < idx ==> (#[trigger] abis[j]).0 != function_name@,
        decreases abi.len() - idx,
    {
        if str_eq(function_name.as_str(), abi[idx].name.as_str()) {
            let f = abi.swap_remove(idx);
            assert(abi_view(f) == abis[idx as int]);
            return Some(Function { name: f.name, selector_idx: idx, inputs: f.inputs, outputs: f.outputs });
        }
        assert(abis[idx as int].0 == abi@[idx as int].name@);
        idx += 1;
    }
    None
}

/// `r` is every function the ABI of the readable contract class `data`
/// declares, with its position; none when the class has no
/// `entry_points_by_type`.
pub open spec fn functions_listing(data: Json, r: Seq<Function>) -> bool {
    let abis = spec_get_abi(data).unwrap();
    &&& spec_get(data, "entry_points_by_type"@) is None ==> r.len() == 0
    &&& spec_get(data, "entry_points_by_type"@) is Some ==> {
        &&& r.len() == abis.len()
        &&& forall|i: int| 0 <= i < r.len() ==> (#[trigger] r[i]).selector_idx == i
            && function_view(r[i]) == abis[i]
    }
}

/// Every function the ABI of a readable contract class declares, with its
/// position; none when the class has no `entry_points_by_type`.
pub fn list_functions(data: &Json) -> (r: Vec<Function>)
    requires
        abi_readable(*data),
    ensures
        functions_listing(*data, r@),
{
    let abi = get_abi(data);
    let ghost abis = abis_view(abi@);
    let mut res: Vec<Function> = Vec::new();
    if get(data, "entry_points_by_type").is_none() {
        return res;
    }
    let mut idx: usize = 0;
    while idx < abi.len()
        invariant
            idx <= abi.len(),
            abis == abis_view(abi@),
            spec_get_abi(*data) == Some(abis),
            spec_get(*data, "entry_points_by_type"@) is Some,
            res.len() == idx,
            forall|i: int| 0 <= i < idx ==> (#[trigger] res@[i]).selector_idx == i
                && function_view(res@[i]) == abis[i],
        decreases abi.len() - idx,
    {
        let f = &abi[idx];
        let g = Function {
            name: f.name.clone(),
            selector_idx: idx,
            inputs: crate::rustic::types::duplicate_types(&f.inputs),
            outputs: duplicate_strings(&f.outputs),
        };
        assert(function_view(g) == abis[idx as int]);
        res.push(g);
        idx += 1;
    }
    res
}

/// The names, in order, of the declared functions whose name starts with
/// `Fuzz_`: the property tests of the contract.
pub open spec fn fuzz_names(abis: Seq<AbiV>) -> Seq<Seq<char>>
    decreases abis.len(),
{
    if abis.len() == 0 {
        Seq::empty()
    } else if spec_starts_with(abis.last().0, "Fuzz_"@) {
        fuzz_names(abis.drop_last()).push(abis.last().0)
    } else {
        fuzz_names(abis.drop_last())
    }
}

/// The property tests a readable contract class declares: the functions of
/// its ABI whose name starts with `Fuzz_`.
pub fn proptesting_functions_of(data: &Json) -> (r: Vec<String>)
    requires
        abi_readable(*data),
    ensures
        strings_view(r@) == fuzz_names(spec_get_abi(*data).unwrap()),
{
    let abi = get_abi(data);
    let ghost abis = abis_view(abi@);
    let mut functions: Vec<String> = Vec::new();
    let mut i: usize = 0;
    assert(abis.take(0) =~= Seq::<AbiV>::empty());
    assert(strings_view(functions@) =~= Seq::<Seq<char>>::empty());
    while i < abi.len()
        invariant
            i <= abi.len(),
            abis == abis_view(abi@),
            strings_view(functions@) == fuzz_names(abis.take(i as int)),
        decreases abi.len() - i,
    {
        proof {
            assert(abis.take(i + 1).drop_last() =~= abis.take(i as int));
            assert(abis.take(i + 1).last() == abis[i as int]);
        }
        if starts_with(abi[i].name.as_str(), "Fuzz_") {
            let ghost before = functions@;
            functions.push(abi[i].name.clone());
            assert(strings_view(functions@) =~= strings_view(before).push(abi@[i as int].name@));
        }
        i += 1;
    }
    assert(abis.take(abi.len() as int) =~= abis);
    functions
}

/// The function named `function_name` in the contract class whose JSON text
/// is `data`: an error when the text is not JSON or the ABI cannot be read,
/// otherwise the first function of that name, with its position.
pub fn get_function_from_json(data: &String, function_name: &String) -> (r: Result<Option<Function>, ReadError>)
    ensures
        match json_of_text(data@) {
            None => r == Err::<Option<Function>, ReadError>(ReadError::MalformedJson),
            Some(j) => if abi_readable(j) {
                r is Ok && function_lookup(j, function_name@, r->Ok_0)
            } else {
                r == Err::<Option<Function>, ReadError>(ReadError::Unreadable)
            },
        },
{
    let data = match parse_json_text(data.as_str()) {
        Some(j) => j,
        None => {
            return Err(ReadError::MalformedJson);
        },
    };
    if read_abi(&data).is_none() {
        return Err(ReadError::Unreadable);
    }
    Ok(find_function(&data, function_name))
}

/// Every function of the contract class whose JSON text is `data`, with its
/// position: an error when the text is not JSON or the ABI cannot be read.
pub fn analyze_json(data: &String) -> (r: Result<Vec<Function>, ReadError>)
    ensures
        match json_of_text(data@) {
            None => r == Err::<Vec<Function>, ReadError>(ReadError::MalformedJson),
            Some(j) => if abi_readable(j) {
                r is Ok && functions_listing(j, r->Ok_0@)
            } else {
                r == Err::<Vec<Function>, ReadError>(ReadError::Unreadable)
            },
        },
{
    let data = match parse_json_text(data.as_str()) {
        Some(j) => j,
        None => {
            return Err(ReadError::MalformedJson);
        },
    };
    if read_abi(&data).is_none() {
        return Err(ReadError::Unreadable);
    }
    Ok(list_functions(&data))
}

/// The property tests of the contract class whose JSON text is `data`: the
/// functions of its ABI whose name starts with `Fuzz_`; an error when the
/// text is not JSON or the ABI cannot be read.
pub fn get_proptesting_functions(data: &String) -> (r: Result<Vec<String>, ReadError>)
    ensures
        match json_of_text(data@) {
            None => r == Err::<Vec<String>, ReadError>(ReadError::MalformedJson),
            Some(j) => if abi_readable(j) {
                r is Ok && strings_view(r->Ok_0@) == fuzz_names(spec_get_abi(j).unwrap())
            } else {
                r == Err::<Vec<String>, ReadError>(ReadError::Unreadable)
            },
        },
{
    let data = match parse_json_text(data.as_str()) {
        Some(j) => j,
        None => {
            return Err(ReadError::MalformedJson);
        },
    };
    if read_abi(&data).is_none() {
        return Err(ReadError::Unreadable);
    }
    Ok(proptesting_functions_of(&data))
}

} // verus!
