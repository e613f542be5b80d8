use cairo_fuzzer::cairo_fuzz::json_parser::{
    get_type_args, last_segment_is, parse_json, parse_json_readable, parse_program,
};
use cairo_fuzzer::json::{get, Json, JsonValue, ReadError};
use cairo_fuzzer::rustic::json_parser::{
    analyze_json, extract_function, find_function, get_abi, get_function_from_json, get_proptesting_functions,
    list_functions, proptesting_functions_of, read_abi, read_function, search_for_function,
};
use cairo_fuzzer::rustic::types::Type;

fn s(v: &str) -> Json {
    Json { value: JsonValue::Str(v.to_string()), text: format!("\"{}\"", v) }
}

fn n(v: u64) -> Json {
    Json { value: JsonValue::Number(Some(v)), text: v.to_string() }
}

fn arr(items: Vec<Json>) -> Json {
    Json { value: JsonValue::Array(items), text: String::from("[...]") }
}

fn obj(fields: Vec<(&str, Json)>) -> Json {
    Json {
        value: JsonValue::Object(fields.into_iter().map(|(k, v)| (k.to_string(), v)).collect()),
        text: String::from("{...}"),
    }
}

fn typed(t: &str) -> Json {
    obj(vec![("name", s("x")), ("type", s(t))])
}

fn function(name: &str, mutability: &str, inputs: Vec<&str>, outputs: Vec<&str>) -> Json {
    obj(vec![
        ("type", s("function")),
        ("name", s(name)),
        ("inputs", arr(inputs.into_iter().map(typed).collect())),
        ("outputs", arr(outputs.into_iter().map(|o| obj(vec![("type", s(o))])).collect())),
        ("state_mutability", s(mutability)),
    ])
}

fn contract() -> Json {
    obj(vec![
        ("entry_points_by_type", obj(vec![])),
        (
            "abi",
            arr(vec![
                obj(vec![("type", s("impl")), ("name", s("Impl"))]),
                function("transfer", "external", vec!["core::integer::u8", "core::felt252"], vec!["core::bool"]),
                function("balance", "view", vec![], vec!["core::felt252"]),
                obj(vec![
                    ("type", s("interface")),
                    (
                        "items",
                        arr(vec![
                            function("Fuzz_mint", "external", vec!["core::integer::u128"], vec![]),
                            function("Fuzz_view", "view", vec![], vec![]),
                        ]),
                    ),
                ]),
                function("Fuzz_burn", "external", vec!["core::integer::u16", "core::integer::u32", "core::integer::u64"], vec![]),
            ]),
        ),
    ])
}

#[test]
fn json_lookup_takes_the_first_member() {
    let o = obj(vec![("a", n(1)), ("b", n(2)), ("a", n(3))]);
    assert!(matches!(get(&o, "a").map(|j| &j.value), Some(JsonValue::Number(Some(1)))));
    assert!(get(&o, "c").is_none());
    assert!(get(&n(4), "a").is_none());
}

#[test]
fn abi_lists_external_functions_in_order() {
    let abi = get_abi(&contract());
    let names: Vec<&str> = abi.iter().map(|f| f.name.as_str()).collect();
    assert_eq!(names, vec!["transfer", "Fuzz_mint", "Fuzz_burn"]);
    assert!(matches!(abi[0].inputs[0], Type::U8(0)));
    assert!(matches!(abi[0].inputs[1], Type::Felt252(b) if b == [0u8; 32]));
    assert_eq!(abi[0].outputs, vec!["core::bool".to_string()]);
    assert!(matches!(abi[1].inputs[0], Type::U128(0)));
    assert!(matches!(abi[2].inputs[0], Type::U16(0)));
    assert!(matches!(abi[2].inputs[1], Type::U32(0)));
    assert!(matches!(abi[2].inputs[2], Type::U64(0)));
}

#[test]
fn abi_without_abi_member_is_empty() {
    let abi = get_abi(&obj(vec![("entry_points_by_type", obj(vec![]))]));
    assert!(abi.is_empty());
}

#[test]
fn unreadable_abis() {
    // an unsupported parameter type
    let bad_type = obj(vec![("abi", arr(vec![function("f", "external", vec!["core::integer::u256"], vec![])]))]);
    assert!(read_abi(&bad_type).is_none());
    // an entry that is not an object
    let not_object = obj(vec![("abi", arr(vec![n(3)]))]);
    assert!(read_abi(&not_object).is_none());
    // an abi that is not an array
    let not_array = obj(vec![("abi", n(3))]);
    assert!(read_abi(&not_array).is_none());
    // a function without state mutability
    let no_mutability = obj(vec![(
        "abi",
        arr(vec![obj(vec![("type", s("function")), ("name", s("f"))])]),
    )]);
    assert!(read_abi(&no_mutability).is_none());
    // a view function is not read, so its missing fields do not matter
    let view_only = obj(vec![(
        "abi",
        arr(vec![obj(vec![("type", s("function")), ("state_mutability", s("view"))])]),
    )]);
    assert_eq!(read_abi(&view_only).map(|v| v.len()), Some(0));
}

#[test]
fn extract_and_search_entries() {
    let f = function("g", "external", vec!["core::integer::u32"], vec!["core::felt252"]);
    match &f.value {
        JsonValue::Object(fields) => {
            let e = extract_function(fields);
            assert!(read_function(fields).is_some());
            assert_eq!(e.name, "g");
            assert!(matches!(e.inputs[0], Type::U32(0)));
            assert_eq!(e.outputs, vec!["core::felt252".to_string()]);
        }
        _ => panic!("expected an object"),
    }
    let found = search_for_function(&vec![f, function("h", "view", vec![], vec![])]).unwrap();
    assert_eq!(found.len(), 1);
}

#[test]
fn function_lookup_gives_its_position() {
    let c = contract();
    let f = find_function(&c, &"Fuzz_mint".to_string()).unwrap();
    assert_eq!(f.name, "Fuzz_mint");
    assert_eq!(f.selector_idx, 1);
    assert!(matches!(f.inputs[0], Type::U128(0)));
    assert!(find_function(&c, &"balance".to_string()).is_none());
    assert!(find_function(&c, &"missing".to_string()).is_none());
}

#[test]
fn function_lookup_needs_entry_points() {
    let c = obj(vec![("abi", arr(vec![function("t", "external", vec![], vec![])]))]);
    assert!(find_function(&c, &"t".to_string()).is_none());
    assert!(list_functions(&c).is_empty());
}

#[test]
fn listing_and_property_tests() {
    let c = contract();
    let all = list_functions(&c);
    assert_eq!(all.len(), 3);
    for (i, f) in all.iter().enumerate() {
        assert_eq!(f.selector_idx, i);
    }
    assert_eq!(
        proptesting_functions_of(&c),
        vec!["Fuzz_mint".to_string(), "Fuzz_burn".to_string()]
    );
}

fn program() -> Json {
    obj(vec![(
        "identifiers",
        obj(vec![
            ("__main__.other", obj(vec![("type", s("function"))])),
            ("__main__.target", obj(vec![("type", s("function"))])),
            (
                "__main__.target.Args",
                obj(vec![
                    ("size", n(2)),
                    (
                        "members",
                        obj(vec![
                            ("a", obj(vec![("cairo_type", s("felt")), ("offset", n(0))])),
                            ("b", obj(vec![("offset", n(1))])),
                        ]),
                    ),
                    ("type", s("struct")),
                ]),
            ),
            ("__main__.target.Return", obj(vec![("type", s("type_definition"))])),
        ]),
    )])
}

#[test]
fn last_segments_of_identifiers() {
    assert!(last_segment_is("__main__.target", "target"));
    assert!(last_segment_is("target", "target"));
    assert!(!last_segment_is("__main__.target.Args", "target"));
    assert!(last_segment_is("a.", ""));
    assert!(!last_segment_is("a.b", "a.b"));
}

#[test]
fn program_function_and_argument_types() {
    let p = program();
    assert!(parse_json_readable(&p, &"target".to_string()));
    let f = parse_program(&p, &"target".to_string()).unwrap();
    assert_eq!(f.name, "target");
    assert_eq!(f.num_args, 2);
    assert_eq!(f.type_args, vec!["\"felt\"".to_string(), "null".to_string()]);
    // `other` is a function without argument description
    assert!(parse_program(&p, &"other".to_string()).is_none());
    assert!(parse_program(&p, &"absent".to_string()).is_none());
}

#[test]
fn unreadable_programs() {
    let no_identifiers = obj(vec![]);
    assert!(!parse_json_readable(&no_identifiers, &"f".to_string()));
    let bad_size = obj(vec![(
        "identifiers",
        obj(vec![
            ("m.f", obj(vec![("type", s("function"))])),
            ("m.f.Args", obj(vec![("size", s("two")), ("members", obj(vec![]))])),
        ]),
    )]);
    assert!(!parse_json_readable(&bad_size, &"f".to_string()));
    assert!(parse_json_readable(&bad_size, &"g".to_string()));
}

#[test]
fn type_args_of_members() {
    let members = obj(vec![("x", obj(vec![("cairo_type", s("felt*"))])), ("y", n(1))]);
    assert_eq!(get_type_args(&members), vec!["\"felt*\"".to_string(), "null".to_string()]);
}

#[test]
fn extract_function_reads_parameters_at_zero() {
    let g = function("g", "external", vec!["core::integer::u16", "core::felt252"], vec!["core::integer::u8"]);
    match &g.value {
        JsonValue::Object(fields) => {
            let e = extract_function(fields);
            assert_eq!(e.name, "g");
            assert_eq!(e.inputs.len(), 2);
            assert!(matches!(e.inputs[0], Type::U16(0)));
            assert!(matches!(e.inputs[1], Type::Felt252(b) if b == [0u8; 32]));
            assert_eq!(e.outputs, vec!["core::integer::u8".to_string()]);
        }
        _ => panic!("expected an object"),
    }
    // a u256 or unknown parameter type is not readable
    for t in ["core::integer::u256", "core::bool"] {
        let h = function("h", "external", vec![t], vec![]);
        match &h.value {
            JsonValue::Object(fields) => assert!(read_function(fields).is_none()),
            _ => panic!("expected an object"),
        }
    }
}

const CONTRACT_TEXT: &str = r#"{
  "entry_points_by_type": {},
  "abi": [
    {"type": "impl", "name": "Impl"},
    {"type": "function", "name": "transfer", "state_mutability": "external",
     "inputs": [{"name": "a", "type": "core::integer::u8"}, {"name": "b", "type": "core::felt252"}],
     "outputs": [{"type": "core::bool"}]},
    {"type": "interface", "name": "I", "items": [
      {"type": "function", "name": "Fuzz_mint", "state_mutability": "external",
       "inputs": [{"name": "x", "type": "core::integer::u128"}], "outputs": []}
    ]}
  ]
}"#;

#[test]
fn contract_readers_parse_the_text() {
    let text = CONTRACT_TEXT.to_string();
    let f = get_function_from_json(&text, &"Fuzz_mint".to_string()).unwrap().unwrap();
    assert_eq!(f.name, "Fuzz_mint");
    assert_eq!(f.selector_idx, 1);
    assert!(matches!(f.inputs[0], Type::U128(0)));
    assert!(get_function_from_json(&text, &"absent".to_string()).unwrap().is_none());
    let all = analyze_json(&text).unwrap();
    assert_eq!(all.len(), 2);
    assert_eq!(all[0].name, "transfer");
    assert_eq!(get_proptesting_functions(&text), Ok(vec!["Fuzz_mint".to_string()]));

    let malformed = "{ \"abi\": [".to_string();
    assert!(matches!(get_function_from_json(&malformed, &"f".to_string()), Err(ReadError::MalformedJson)));
    assert!(matches!(analyze_json(&malformed), Err(ReadError::MalformedJson)));
    assert_eq!(get_proptesting_functions(&malformed), Err(ReadError::MalformedJson));
    assert_eq!(ReadError::MalformedJson.message(), "JSON was not well-formatted");

    let bad_abi = r#"{"abi": 3}"#.to_string();
    assert!(matches!(get_function_from_json(&bad_abi, &"f".to_string()), Err(ReadError::Unreadable)));
}

#[test]
fn program_reader_parses_the_text() {
    let text = r#"{"identifiers": {
        "__main__.target": {"type": "function"},
        "__main__.target.Args": {"size": 2, "type": "struct",
            "members": {"a": {"cairo_type": "felt", "offset": 0}, "b": {"offset": 1}}}
    }}"#
        .to_string();
    let f = parse_json(&text, &"target".to_string()).unwrap().unwrap();
    assert_eq!(f.name, "target");
    assert_eq!(f.num_args, 2);
    assert_eq!(f.type_args, vec!["\"felt\"".to_string(), "null".to_string()]);
    assert!(parse_json(&text, &"absent".to_string()).unwrap().is_none());
    assert!(matches!(parse_json(&"not json".to_string(), &"f".to_string()), Err(ReadError::MalformedJson)));
    assert!(matches!(parse_json(&"{}".to_string(), &"f".to_string()), Err(ReadError::Unreadable)));
}
