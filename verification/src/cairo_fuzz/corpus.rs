//! Corpus files: the inputs and crashes kept for a function, as they are
//! named and read back.
use vstd::prelude::*;
use crate::cairo_fuzz::json_parser::Function;
use crate::json::{as_array, as_str, as_u64, get, spec_as_array, spec_as_str, spec_as_u64, spec_get, Json};
use crate::rustic::json_parser::{duplicate_strings, strings_view};

verus! {

/// A file of inputs for a function: where it lives, the function's name and
/// argument types, and the inputs.
#[derive(Debug)]
pub struct InputFile {
    pub workspace: String,
    pub path: String,
    pub name: String,
    pub args: Vec<String>,
    pub inputs: Vec<Vec<u8>>,
}

/// A file of crashing inputs for a function, laid out as `InputFile`.
#[derive(Debug)]
pub struct CrashFile {
    pub workspace: String,
    pub path: String,
    pub name: String,
    pub args: Vec<String>,
    pub crashes: Vec<Vec<u8>>,
}

/// The current UTC date and time written as `YYYY-MM-DD--HH:MM:SS`.
///
/// Calls `chrono::Utc::now` and formats the result with chrono's `format`;
/// the value depends on the clock, so nothing is stated of it.
#[verifier::external_body]
fn timestamp_now() -> (r: String) {
    chrono::Utc::now().format("%Y-%m-%d--%H:%M:%S").to_string()
}

/// The contents of a list of byte vectors.
pub open spec fn rows_view(s: Seq<Vec<u8>>) -> Seq<Seq<u8>> {
    s.map_values(|v: Vec<u8>| v@)
}

/// The bytes an array of integers stands for (each integer truncated to a
/// byte); `None` when `v` is not an array of `u64` integers.
pub open spec fn spec_row(v: Json) -> Option<Seq<u8>> {
    match spec_as_array(v) {
        Some(a) => if forall|i: int| 0 <= i < a.len() ==> (#[trigger] spec_as_u64(a[i])) is Some {
            Some(a.map_values(|x: Json| spec_as_u64(x).unwrap() as u8))
        } else {
            None
        },
        None => None,
    }
}

/// The rows an array of integer arrays stands for; `None` when `v` is not
/// one.
pub open spec fn spec_rows(v: Json) -> Option<Seq<Seq<u8>>> {
    match spec_as_array(v) {
        Some(a) => if forall|i: int| 0 <= i < a.len() ==> (#[trigger] spec_row(a[i])) is Some {
            Some(a.map_values(|x: Json| spec_row(x).unwrap()))
        } else {
            None
        },
        None => None,
    }
}

/// The strings of an array of strings; `None` when `v` is not one.
pub open spec fn spec_strings(v: Json) -> Option<Seq<Seq<char>>> {
    match spec_as_array(v) {
        Some(a) => if forall|i: int| 0 <= i < a.len() ==> (#[trigger] spec_as_str(a[i])) is Some {
            Some(a.map_values(|x: Json| spec_as_str(x).unwrap()))
        } else {
            None
        },
        None => None,
    }
}

/// The member `key` of `data`, read with `reader`; `None` when it is
/// missing.
pub open spec fn member_with<T>(data: Json, key: Seq<char>, reader: spec_fn(Json) -> Option<T>) -> Option<T> {
    match spec_get(data, key) {
        Some(m) => reader(m),
        None => None,
    }
}

/// Reads an array of integers as bytes.
pub fn read_row(v: &Json) -> (r: Option<Vec<u8>>)
    ensures
        match r {
            None => spec_row(*v) is None,
            Some(row) => spec_row(*v) == Some(row@),
        },
{
    let a = match as_array(v) {
        Some(a) => a,
        None => return None,
    };
    let mut row: Vec<u8> = Vec::new();
    let mut i: usize = 0;
    while i < a.len()
        invariant
            spec_as_array(*v) == Some(a@),
            i <= a.len(),
            row.len() == i,
            forall|j: int| 0 <= j < i ==> (#[trigger] spec_as_u64(a@[j])) is Some,
            forall|j: int| 0 <= j < i ==> #[trigger] row@[j] == spec_as_u64(a@[j]).unwrap() as u8,
        decreases a.len() - i,
    {
        let n = match as_u64(&a[i]) {
            Some(n) => n,
            None => {
                assert(spec_as_u64(a@[i as int]) is None);
                return None;
            },
        };
        row.push(#[verifier::truncate] (n as u8));
        i += 1;
    }
    assert(row@ =~= a@.map_values(|x: Json| spec_as_u64(x).unwrap() as u8));
    Some(row)
}

/// Reads an array of integer arrays as rows of bytes.
pub fn read_rows(v: &Json) -> (r: Option<Vec<Vec<u8>>>)
    ensures
        match r {
            None => spec_rows(*v) is None,
            Some(rows) => spec_rows(*v) == Some(rows_view(rows@)),
        },
{
    let a = match as_array(v) {
        Some(a) => a,
        None => return None,
    };
    let mut rows: Vec<Vec<u8>> = Vec::new();
    let mut i: usize = 0;
    while i < a.len()
        invariant
            spec_as_array(*v) == Some(a@),
            i <= a.len(),
            rows.len() == i,
            forall|j: int| 0 <= j < i ==> (#[trigger] spec_row(a@[j])) is Some,
            forall|j: int| 0 <= j < i ==> Some(#[trigger] rows@[j]@) == spec_row(a@[j]),
        decreases a.len() - i,
    {
        let row = match read_row(&a[i]) {
            Some(row) => row,
            None => {
                assert(spec_row(a@[i as int]) is None);
                return None;
            },
        };
        rows.push(row);
        i += 1;
    }
    assert(rows_view(rows@) =~= a@.map_values(|x: Json| spec_row(x).unwrap()));
    Some(rows)
}

/// Reads an array of strings.
pub fn read_strings(v: &Json) -> (r: Option<Vec<String>>)
    ensures
        match r {
            None => spec_strings(*v) is None,
            Some(s) => spec_strings(*v) == Some(strings_view(s@)),
        },
{
    let a = match as_array(v) {
        Some(a) => a,
        None => return None,
    };
    let mut out: Vec<String> = Vec::new();
    let mut i: usize = 0;
    while i < a.len()
        invariant
            spec_as_array(*v) == Some(a@),
            i <= a.len(),
            out.len() == i,
            forall|j: int| 0 <= j < i ==> (#[trigger] spec_as_str(a@[j])) is Some,
            forall|j: int| 0 <= j < i ==> Some(#[trigger] out@[j]@) == spec_as_str(a@[j]),
        decreases a.len() - i,
    {
        let s = match as_str(&a[i]) {
            Some(s) => s,
            None => {
                assert(spec_as_str(a@[i as int]) is None);
                return None;
            },
        };
        out.push(s.clone());
        i += 1;
    }
    assert(strings_view(out@) =~= a@.map_values(|x: Json| spec_as_str(x).unwrap()));
    Some(out)
}

/// Reads the member `key` of `data` as rows of bytes.
pub fn read_member_rows(data: &Json, key: &str) -> (r: Option<Vec<Vec<u8>>>)
    ensures
        match r {
            None => member_with(*data, key@, |v: Json| spec_rows(v)) is None,
            Some(rows) => member_with(*data, key@, |v: Json| spec_rows(v)) == Some(rows_view(rows@)),
        },
{
    match get(data, key) {
        Some(m) => read_rows(m),
        None => None,
    }
}

/// Reads the member `key` of `data` as an array of strings.
fn read_member_strings(data: &Json, key: &str) -> (r: Option<Vec<String>>)
    ensures
        match r {
            None => member_with(*data, key@, |v: Json| spec_strings(v)) is None,
            Some(s) => member_with(*data, key@, |v: Json| spec_strings(v)) == Some(strings_view(s@)),
        },
{
    match get(data, key) {
        Some(m) => read_strings(m),
        None => None,
    }
}

/// Reads the member `key` of `data` as a string.
fn read_member_string(data: &Json, key: &str) -> (r: Option<String>)
    ensures
        match r {
            None => member_with(*data, key@, |v: Json| spec_as_str(v)) is None,
            Some(s) => member_with(*data, key@, |v: Json| spec_as_str(v)) == Some(s@),
        },
{
    match get(data, key) {
        Some(m) => match as_str(m) {
            Some(s) => Some(s.clone()),
            None => None,
        },
        None => None,
    }
}

impl InputFile {
    /// A new empty input file for `function` in `workspace`, named after the
    /// function and the time `timestamp`: `<name>_<timestamp>.json`.
    pub fn new_from_function_at(function: &Function, workspace: &String, timestamp: &str) -> (r: Self)
        ensures
            r.workspace@ == workspace@,
            r.path@ == function.name@ + "_"@ + timestamp@ + ".json"@,
            r.name@ == function.name@,
            strings_view(r.args@) == strings_view(function.type_args@),
            r.inputs@.len() == 0,
    {
        let path = function.name.clone().concat("_").concat(timestamp).concat(".json");
        InputFile {
            workspace: workspace.clone(),
            path,
            name: function.name.clone(),
            args: duplicate_strings(&function.type_args),
            inputs: Vec::new(),
        }
    }

    /// A new empty input file for `function` in `workspace`, named after the
    /// function and the current time.
    pub fn new_from_function(function: &Function, workspace: &String) -> (r: Self)
        ensures
            r.workspace@ == workspace@,
            exists|t: Seq<char>| r.path@ == function.name@ + "_"@ + t + ".json"@,
            r.name@ == function.name@,
            strings_view(r.args@) == strings_view(function.type_args@),
            r.inputs@.len() == 0,
    {
        let timestamp = timestamp_now();
        let r = Self::new_from_function_at(function, workspace, timestamp.as_str());
        assert(r.path@ == function.name@ + "_"@ + timestamp@ + ".json"@);
        r
    }

    /// The input file a JSON document describes, read from `filename` in
    /// `workspace`: its `name` string, its `args` strings and its `inputs`
    /// arrays of integers (each truncated to a byte); `None` when one of
    /// them is missing or has another shape.
    pub fn from_json(data: &Json, filename: &String, workspace: &String) -> (r: Option<Self>)
        ensures
            ({
                let inputs = member_with(*data, "inputs"@, |v: Json| spec_rows(v));
                let name = member_with(*data, "name"@, |v: Json| spec_as_str(v));
                let args = member_with(*data, "args"@, |v: Json| spec_strings(v));
                match r {
                    None => inputs is None || name is None || args is None,
                    Some(f) => {
                        &&& inputs == Some(rows_view(f.inputs@))
                        &&& name == Some(f.name@)
                        &&& args == Some(strings_view(f.args@))
                        &&& f.workspace@ == workspace@
                        &&& f.path@ == filename@
                    },
                }
            }),
    {
        let inputs = match read_member_rows(data, "inputs") {
            Some(v) => v,
            None => return None,
        };
        let name = match read_member_string(data, "name") {
            Some(v) => v,
            None => return None,
        };
        let args = match read_member_strings(data, "args") {
            Some(v) => v,
            None => return None,
        };
        Some(InputFile { workspace: workspace.clone(), path: filename.clone(), name, args, inputs })
    }
}

impl CrashFile {
    /// A new empty crash file for `function` in `workspace`, named after the
    /// function and the time `timestamp`: `CRASHES_<name>_<timestamp>.json`.
    pub fn new_from_function_at(function: &Function, workspace: &String, timestamp: &str) -> (r: Self)
        ensures
            r.workspace@ == workspace@,
            r.path@ == "CRASHES_"@ + function.name@ + "_"@ + timestamp@ + ".json"@,
            r.name@ == function.name@,
            strings_view(r.args@) == strings_view(function.type_args@),
            r.crashes@.len() == 0,
    {
        let path = String::from_str("CRASHES_").concat(function.name.as_str()).concat("_").concat(timestamp).concat(".json");
        CrashFile {
            workspace: workspace.clone(),
            path,
            name: function.name.clone(),
            args: duplicate_strings(&function.type_args),
            crashes: Vec::new(),
        }
    }

    /// A new empty crash file for `function` in `workspace`, named after the
    /// function and the current time.
    pub fn new_from_function(function: &Function, workspace: &String) -> (r: Self)
        ensures
            r.workspace@ == workspace@,
            exists|t: Seq<char>| r.path@ == "CRASHES_"@ + function.name@ + "_"@ + t + ".json"@,
            r.name@ == function.name@,
            strings_view(r.args@) == strings_view(function.type_args@),
            r.crashes@.len() == 0,
    {
        let timestamp = timestamp_now();
        let r = Self::new_from_function_at(function, workspace, timestamp.as_str());
        assert(r.path@ == "CRASHES_"@ + function.name@ + "_"@ + timestamp@ + ".json"@);
        r
    }

    /// The crash file a JSON document describes, read from `filename` in
    /// `workspace`: its `name` string, its `args` strings and its `crashes`
    /// arrays of integers (each truncated to a byte); `None` when one of
    /// them is missing or has another shape.
    pub fn from_json(data: &Json, filename: &String, workspace: &String) -> (r: Option<Self>)
        ensures
            ({
                let crashes = member_with(*data, "crashes"@, |v: Json| spec_rows(v));
                let name = member_with(*data, "name"@, |v: Json| spec_as_str(v));
                let args = member_with(*data, "args"@, |v: Json| spec_strings(v));
                match r {
                    None => crashes is None || name is None || args is None,
                    Some(f) => {
                        &&& crashes == Some(rows_view(f.crashes@))
                        &&& name == Some(f.name@)
                        &&& args == Some(strings_view(f.args@))
                        &&& f.workspace@ == workspace@
                        &&& f.path@ == filename@
                    },
                }
            }),
    {
        let crashes = match read_member_rows(data, "crashes") {
            Some(v) => v,
            None => return None,
        };
        let name = match read_member_string(data, "name") {
            Some(v) => v,
            None => return None,
        };
        let args = match read_member_strings(data, "args") {
            Some(v) => v,
            None => return None,
        };
        Some(CrashFile { workspace: workspace.clone(), path: filename.clone(), name, args, crashes })
    }
}

} // verus!
