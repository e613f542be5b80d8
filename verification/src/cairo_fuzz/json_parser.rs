//! Reading a compiled Cairo program: the function to fuzz, the number of
//! its arguments and their Cairo types.
use vstd::prelude::*;
use crate::json::{
    as_object, as_str, as_u64, get, json_of_text, lookup, obj_lookup, parse_json_text, spec_as_object,
    spec_as_u64, spec_get, spec_get_str, Json, ReadError,
};
use crate::rustic::json_parser::strings_view;
use crate::text::{matches_at, str_eq};

verus! {

/// A function of the program: its name, the size of its arguments and the
/// Cairo type of each, as the program's text writes it.
#[derive(Debug)]
pub struct Function {
    pub name: String,
    pub num_args: u64,
    pub type_args: Vec<String>,
}

/// What follows the last `.` of a dotted identifier (all of it when there
/// is no dot).
pub open spec fn last_segment(s: Seq<char>) -> Seq<char>
    decreases s.len(),
{
    if s.len() == 0 {
        s
    } else if s.last() == '.' {
        Seq::empty()
    } else {
        last_segment(s.drop_last()).push(s.last())
    }
}

/// Whether the last segment of the dotted identifier `key` is `name`.
pub fn last_segment_is(key: &str, name: &str) -> (r: bool)
    ensures
        r == (last_segment(key@) == name@),
{
    let len = key.unicode_len();
    let mut start: usize = 0;
    let mut i: usize = 0;
    assert(key@.take(0) =~= Seq::<char>::empty());
    while i < len
        invariant
            len == key@.len(),
            start <= i <= len,
            last_segment(key@.take(i as int)) == key@.subrange(start as int, i as int),
        decreases len - i,
    {
        assert(key@.take(i + 1).drop_last() =~= key@.take(i as int));
        assert(key@.take(i + 1).last() == key@[i as int]);
        if key.get_char(i) == '.' {
            start = i + 1;
            assert(key@.subrange(start as int, i + 1) =~= Seq::<char>::empty());
        } else {
            assert(key@.subrange(start as int, i + 1) =~= key@.subrange(start as int, i as int).push(key@[i as int]));
        }
        i += 1;
    }
    assert(key@.take(len as int) =~= key@);
    if len - start != name.unicode_len() {
        return false;
    }
    let r = matches_at(key, start, name);
    assert(key@.subrange(start as int, len as int).subrange(0, name@.len() as int) =~= key@.subrange(start as int, len as int));
    r
}

/// The text of the `cairo_type` member of an argument description (`null`
/// when it has none).
pub open spec fn member_type_text(v: Json) -> Seq<char> {
    match spec_get(v, "cairo_type"@) {
        Some(m) => m.text@,
        None => "null"@,
    }
}

/// The Cairo types of the members of an argument description, in order.
pub fn get_type_args(members: &Json) -> (r: Vec<String>)
    requires
        spec_as_object(*members) is Some,
    ensures
        strings_view(r@) == spec_as_object(*members).unwrap().map_values(|e: (String, Json)| member_type_text(e.1)),
{
    let fields = match as_object(members) {
        Some(f) => f,
        None => return Vec::new(),
    };
    let mut type_args: Vec<String> = Vec::new();
    let mut i: usize = 0;
    while i < fields.len()
        invariant
            i <= fields.len(),
            type_args.len() == i,
            forall|j: int| 0 <= j < i ==> (#[trigger] type_args@[j])@ == member_type_text(fields@[j].1),
        decreases fields.len() - i,
    {
        let text = match get(&fields[i].1, "cairo_type") {
            Some(m) => m.text.clone(),
            None => String::from_str("null"),
        };
        type_args.push(text);
        i += 1;
    }
    assert(strings_view(type_args@) =~= fields@.map_values(|e: (String, Json)| member_type_text(e.1)));
    type_args
}

/// The identifiers a program declares, when its `identifiers` member is an
/// object.
pub open spec fn identifiers_of(data: Json) -> Option<Seq<(String, Json)>> {
    match spec_get(data, "identifiers"@) {
        Some(i) => spec_as_object(i),
        None => None,
    }
}

/// The argument description of the identifier `key`.
pub open spec fn args_of(fields: Seq<(String, Json)>, key: Seq<char>) -> Option<Json> {
    obj_lookup(fields, key + ".Args"@)
}

/// Whether an identifier is a function named `name` whose arguments are
/// described.
pub open spec fn is_target(entry: (String, Json), name: Seq<char>, fields: Seq<(String, Json)>) -> bool {
    &&& spec_get_str(entry.1, "type"@) == Some("function"@)
    &&& last_segment(entry.0@) == name
    &&& args_of(fields, entry.0@) is Some
}

/// The size an argument description gives, when it is an integer.
pub open spec fn args_size(args: Json) -> Option<u64> {
    match spec_get(args, "size"@) {
        Some(m) => spec_as_u64(m),
        None => None,
    }
}

/// The members of an argument description, when they form an object.
pub open spec fn args_members(args: Json) -> Option<Json> {
    match spec_get(args, "members"@) {
        Some(m) => if spec_as_object(m) is Some { Some(m) } else { None },
        None => None,
    }
}

/// Whether the identifier at position `k` is the first one that is the
/// function `name`.
pub open spec fn first_target(fields: Seq<(String, Json)>, name: Seq<char>, k: int) -> bool {
    &&& 0 <= k < fields.len()
    &&& is_target(fields[k], name, fields)
    &&& forall|j: int| 0 <= j < k ==> !is_target(#[trigger] fields[j], name, fields)
}

/// Whether the function `name` can be read from a program: its identifiers
/// form an object and, for the first identifier that is that function, the
/// argument description has an integer size and an object of members.
pub open spec fn parse_json_ok(data: Json, name: Seq<char>) -> bool {
    match identifiers_of(data) {
        None => false,
        Some(fields) => forall|k: int| #[trigger] first_target(fields, name, k) ==> {
            let args = args_of(fields, fields[k].0@).unwrap();
            args_size(args) is Some && args_members(args) is Some
        },
    }
}

/// Reads the function `name`; `None` where the program is unreadable.
fn read_function(data: &Json, function_name: &String) -> (r: Option<Option<Function>>)
    ensures
        r is None <==> !parse_json_ok(*data, function_name@),
        r matches Some(res) ==> {
            let fields = identifiers_of(*data).unwrap();
            match res {
                None => forall|k: int| 0 <= k < fields.len() ==> !is_target(#[trigger] fields[k], function_name@, fields),
                Some(f) => exists|k: int| #[trigger] first_target(fields, function_name@, k) && {
                    let args = args_of(fields, fields[k].0@).unwrap();
                    &&& f.name@ == function_name@
                    &&& f.num_args == args_size(args).unwrap()
                    &&& strings_view(f.type_args@) == spec_as_object(args_members(args).unwrap()).unwrap().map_values(
                        |e: (String, Json)| member_type_text(e.1),
                    )
                },
            }
        },
{
    let identifiers = match get(data, "identifiers") {
        Some(i) => i,
        None => return None,
    };
    let fields = match as_object(identifiers) {
        Some(f) => f,
        None => return None,
    };
    let ghost fs = fields@;
    let mut i: usize = 0;
    while i < fields.len()
        invariant
            i <= fields.len(),
            fs == fields@,
            identifiers_of(*data) == Some(fs),
            forall|j: int| 0 <= j < i ==> !is_target(#[trigger] fs[j], function_name@, fs),
        decreases fields.len() - i,
    {
        let (key, value) = (&fields[i].0, &fields[i].1);
        let is_function = match get(value, "type") {
            Some(t) => match as_str(t) {
                Some(s) => str_eq(s.as_str(), "function"),
                None => false,
            },
            None => false,
        };
        if is_function && last_segment_is(key.as_str(), function_name.as_str()) {
            let args_key = key.clone().concat(".Args");
            if let Some(args) = lookup(fields, args_key.as_str()) {
                assert(first_target(fs, function_name@, i as int));
                let num_args = match get(args, "size") {
                    Some(m) => match as_u64(m) {
                        Some(n) => n,
                        None => return None,
                    },
                    None => return None,
                };
                let members = match get(args, "members") {
                    Some(m) => m,
                    None => return None,
                };
                if as_object(members).is_none() {
                    return None;
                }
                let type_args = get_type_args(members);
                proof {
                    assert forall|k: int| #[trigger] first_target(fs, function_name@, k) implies k == i by {
                        if k < i {
                        } else if k > i {
                            assert(!is_target(fs[i as int], function_name@, fs));
                        }
                    }
                }
                return Some(Some(Function { name: function_name.clone(), num_args, type_args }));
            }
        }
        i += 1;
    }
    Some(None)
}

/// Whether the function `name` can be read from a program.
pub fn parse_json_readable(data: &Json, function_name: &String) -> (r: bool)
    ensures
        r == parse_json_ok(*data, function_name@),
{
    read_function(data, function_name).is_some()
}

/// `r` is the function `name` of the readable program `data`: the first
/// identifier of type `function` whose last segment is that name and that
/// has an argument description, with the size of its arguments and the
/// Cairo type of each; `None` when there is none.
pub open spec fn program_function(data: Json, name: Seq<char>, r: Option<Function>) -> bool {
    let fields = identifiers_of(data).unwrap();
    match r {
        None => forall|k: int| 0 <= k < fields.len() ==> !is_target(#[trigger] fields[k], name, fields),
        Some(f) => exists|k: int| #[trigger] first_target(fields, name, k) && {
            let args = args_of(fields, fields[k].0@).unwrap();
            &&& f.name@ == name
            &&& f.num_args == args_size(args).unwrap()
            &&& strings_view(f.type_args@) == spec_as_object(args_members(args).unwrap()).unwrap().map_values(
                |e: (String, Json)| member_type_text(e.1),
            )
        },
    }
}

/// The function `function_name` of a program whose identifiers can be
/// read: the first identifier of type `function` whose last segment is that
/// name and that has an argument description, with the size of its
/// arguments and the Cairo type of each; `None` when there is none.
pub fn parse_program(data: &Json, function_name: &String) -> (r: Option<Function>)
    requires
        parse_json_ok(*data, function_name@),
    ensures
        program_function(*data, function_name@, r),
{
    match read_function(data, function_name) {
        Some(r) => r,
        None => None,
    }
}

/// The function `function_name` of the compiled program whose JSON text is
/// `data`: an error when the text is not JSON or the program's identifiers
/// cannot be read, otherwise what `parse_program` finds.
pub fn parse_json(data: &String, function_name: &String) -> (r: Result<Option<Function>, ReadError>)
    ensures
        match json_of_text(data@) {
            None => r == Err::<Option<Function>, ReadError>(ReadError::MalformedJson),
            Some(j) => if parse_json_ok(j, function_name@) {
                r is Ok && program_function(j, function_name@, r->Ok_0)
            } else {
                r == Err::<Option<Function>, ReadError>(ReadError::Unreadable)
            },
        },
{
    let data = match parse_json_text(data.as_str()) {
        Some(j) => j,
        None => {
            return Err(ReadError::MalformedJson);
        },
    };
    if !parse_json_readable(&data, function_name) {
        return Err(ReadError::Unreadable);
    }
    Ok(parse_program(&data, function_name))
}

} // verus!
