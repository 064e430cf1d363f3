//! Tests of the loads and stores: each stores a value at address 0 and
//! loads it back, one of the two being the instruction under test.
use vstd::prelude::*;
use super::{Type, TestFile, TestFileV, cases_view, case_lines, contains, contains_text, push_case_lines, type_text};
use crate::text::{chars_of, owned, push_chars, push_str, replace_char, replace_chars, string_of};

verus! {

/// Whether the instruction under test stores or loads.
#[derive(Debug, Clone, Copy, PartialEq, Eq, Structural)]
pub enum MemoryTestType {
    Store,
    Load,
}

/// The module of a memory test: a function of one parameter that stores it
/// at address 0 and loads it back.
pub open spec fn memory_wat(
    module_name: Seq<char>,
    function_name: Seq<char>,
    value_type: Seq<char>,
    store: Seq<char>,
    load: Seq<char>,
) -> Seq<char> {
    "(module $"@ + module_name + "\n    (memory (export \"memory\") 1)\n\n    (func $"@ + function_name
        + " (param $value "@ + value_type + ") (result "@ + value_type
        + ")\n        i32.const 0\n        local.get $value\n        "@ + store + "\n\n        i32.const 0\n        "@
        + load + "\n    )\n\n    (export \""@ + function_name + "\" (func $"@ + function_name + "))\n)"@
}

/// The test of a load or store instruction: the other half is the plain
/// load or store of the value type; each case passes its first argument.
pub open spec fn memory_test_v(instr: Seq<char>, test_type: MemoryTestType, value_type: Type, tests: Seq<Seq<Seq<char>>>) -> TestFileV {
    let function_name = replace_char(instr, '.', '_');
    let module_name = "single-"@ + function_name;
    let load = match test_type {
        MemoryTestType::Load => instr,
        MemoryTestType::Store => match value_type {
            Type::I32 => "i32.load"@,
            Type::I64 => "i64.load"@,
        },
    };
    let store = match test_type {
        MemoryTestType::Load => match value_type {
            Type::I32 => "i32.store"@,
            Type::I64 => "i64.store"@,
        },
        MemoryTestType::Store => instr,
    };
    TestFileV {
        directory: "wat_single"@,
        subdirectory: "memory"@,
        base_name: module_name,
        wat: memory_wat(module_name, function_name, type_text(value_type), store, load),
        cases: case_lines(function_name, tests, 1, "\n"@),
    }
}

/// Builds the test of a load or store instruction (see [`memory_test_v`]).
pub fn build_memory_instruction_test(
    instr: &str,
    test_type: MemoryTestType,
    value_type: Type,
    tests: &Vec<Vec<String>>,
) -> (r: TestFile)
    ensures
        r@ == memory_test_v(instr@, test_type, value_type, cases_view(tests@)),
{
    let function_name = string_of(&replace_chars(&chars_of(instr), '.', '_'));
    let mut module_name: Vec<char> = chars_of("single-");
    push_str(&mut module_name, function_name.as_str());
    let module_name = string_of(&module_name);
    let load_instruction: &str = match test_type {
        MemoryTestType::Load => instr,
        MemoryTestType::Store => match value_type {
            Type::I32 => "i32.load",
            Type::I64 => "i64.load",
        },
    };
    let store_instruction: &str = match test_type {
        MemoryTestType::Load => match value_type {
            Type::I32 => "i32.store",
            Type::I64 => "i64.store",
        },
        MemoryTestType::Store => instr,
    };
    let value_type_text = value_type.to_string();
    let mut wat: Vec<char> = chars_of("(module $");
    push_str(&mut wat, module_name.as_str());
    push_str(&mut wat, "\n    (memory (export \"memory\") 1)\n\n    (func $");
    push_str(&mut wat, function_name.as_str());
    push_str(&mut wat, " (param $value ");
    push_str(&mut wat, value_type_text.as_str());
    push_str(&mut wat, ") (result ");
    push_str(&mut wat, value_type_text.as_str());
    push_str(&mut wat, ")\n        i32.const 0\n        local.get $value\n        ");
    push_str(&mut wat, store_instruction);
    push_str(&mut wat, "\n\n        i32.const 0\n        ");
    push_str(&mut wat, load_instruction);
    push_str(&mut wat, "\n    )\n\n    (export \"");
    push_str(&mut wat, function_name.as_str());
    push_str(&mut wat, "\" (func $");
    push_str(&mut wat, function_name.as_str());
    push_str(&mut wat, "))\n)");
    let mut cases: Vec<char> = Vec::new();
    push_case_lines(&mut cases, function_name.as_str(), tests, 1, "\n");
    proof {
        assert(cases@ =~= case_lines(function_name@, cases_view(tests@), 1, "\n"@));
    }
    TestFile {
        directory: owned("wat_single"),
        subdirectory: owned("memory"),
        base_name: module_name,
        wat: string_of(&wat),
        cases: string_of(&cases),
    }
}

/// The loads tested.
pub open spec fn memory_loads() -> Seq<Seq<char>> {
    seq![
        "i32.load"@,
        "i64.load"@,
        "i32.load8_u"@,
        "i32.load8_s"@,
        "i32.load16_u"@,
        "i32.load16_s"@,
        "i64.load8_u"@,
        "i64.load8_s"@,
        "i64.load16_u"@,
        "i64.load16_s"@,
        "i64.load32_u"@,
        "i64.load32_s"@,
    ]
}

/// The stores tested.
pub open spec fn memory_stores() -> Seq<Seq<char>> {
    seq![
        "i32.store"@,
        "i64.store"@,
        "i32.store8"@,
        "i32.store16"@,
        "i64.store8"@,
        "i64.store16"@,
        "i64.store32"@,
    ]
}

/// The value type an instruction works on: `i32` when its name says so.
pub open spec fn instruction_type(instr: Seq<char>) -> Type {
    if contains_text(instr, "i32"@) {
        Type::I32
    } else {
        Type::I64
    }
}

/// The memory tests: one per load, then one per store, each with the same cases.
pub open spec fn memory_tests_v(tests: Seq<Seq<Seq<char>>>) -> Seq<TestFileV> {
    memory_loads().map_values(|i: Seq<char>| memory_test_v(i, MemoryTestType::Load, instruction_type(i), tests))
        + memory_stores().map_values(|i: Seq<char>| memory_test_v(i, MemoryTestType::Store, instruction_type(i), tests))
}

fn instruction_type_exec(instr: &str) -> (r: Type)
    ensures
        r == instruction_type(instr@),
{
    if contains(instr, "i32") {
        Type::I32
    } else {
        Type::I64
    }
}

/// Builds the memory tests (see [`memory_tests_v`]).
pub fn build(tests: &Vec<Vec<String>>) -> (r: Vec<TestFile>)
    ensures
        r@.map_values(|f: TestFile| f@) == memory_tests_v(cases_view(tests@)),
{
    let loads: Vec<&str> = vec!["i32.load", "i64.load", "i32.load8_u", "i32.load8_s", "i32.load16_u", "i32.load16_s", "i64.load8_u", "i64.load8_s", "i64.load16_u", "i64.load16_s", "i64.load32_u", "i64.load32_s"];
    let stores: Vec<&str> = vec!["i32.store", "i64.store", "i32.store8", "i32.store16", "i64.store8", "i64.store16", "i64.store32"];
    let ghost cv = cases_view(tests@);
    proof {
        assert(loads@.map_values(|s: &str| s@) =~= memory_loads());
        assert(stores@.map_values(|s: &str| s@) =~= memory_stores());
    }
    let mut out: Vec<TestFile> = Vec::new();
    let mut i: usize = 0;
    while i < loads.len()
        invariant
            i <= loads@.len(),
            loads@.map_values(|s: &str| s@) == memory_loads(),
            cv == cases_view(tests@),
            out@.map_values(|f: TestFile| f@) == memory_loads().take(i as int).map_values(
                |x: Seq<char>| memory_test_v(x, MemoryTestType::Load, instruction_type(x), cv),
            ),
        decreases loads.len() - i,
    {
        let instr = loads[i];
        let t = instruction_type_exec(instr);
        let f = build_memory_instruction_test(instr, MemoryTestType::Load, t, tests);
        let ghost prev = out@.map_values(|f: TestFile| f@);
        let ghost fv = f@;
        out.push(f);
        i = i + 1;
        proof {
            assert(instr@ == memory_loads()[i - 1]);
            assert(out@.map_values(|f: TestFile| f@) =~= prev.push(fv));
            assert(memory_loads().take(i as int).map_values(
                |x: Seq<char>| memory_test_v(x, MemoryTestType::Load, instruction_type(x), cv),
            ) =~= memory_loads().take(i - 1).map_values(
                |x: Seq<char>| memory_test_v(x, MemoryTestType::Load, instruction_type(x), cv),
            ).push(fv));
            assert(out@.map_values(|f: TestFile| f@) =~= memory_loads().take(i as int).map_values(
                |x: Seq<char>| memory_test_v(x, MemoryTestType::Load, instruction_type(x), cv),
            ));
        }
    }
    let ghost first = out@.map_values(|f: TestFile| f@);
    let mut j: usize = 0;
    while j < stores.len()
        invariant
            j <= stores@.len(),
            stores@.map_values(|s: &str| s@) == memory_stores(),
            cv == cases_view(tests@),
            first.len() == memory_loads().len(),
            out@.map_values(|f: TestFile| f@) == first + memory_stores().take(j as int).map_values(
                |x: Seq<char>| memory_test_v(x, MemoryTestType::Store, instruction_type(x), cv),
            ),
        decreases stores.len() - j,
    {
        let instr = stores[j];
        let t = instruction_type_exec(instr);
        let f = build_memory_instruction_test(instr, MemoryTestType::Store, t, tests);
        let ghost prev = out@.map_values(|f: TestFile| f@);
        let ghost fv = f@;
        out.push(f);
        j = j + 1;
        proof {
            assert(instr@ == memory_stores()[j - 1]);
            assert(out@.map_values(|f: TestFile| f@) =~= prev.push(fv));
            assert(memory_stores().take(j as int).map_values(
                |x: Seq<char>| memory_test_v(x, MemoryTestType::Store, instruction_type(x), cv),
            ) =~= memory_stores().take(j - 1).map_values(
                |x: Seq<char>| memory_test_v(x, MemoryTestType::Store, instruction_type(x), cv),
            ).push(fv));
            assert(out@.map_values(|f: TestFile| f@) =~= first + memory_stores().take(j as int).map_values(
                |x: Seq<char>| memory_test_v(x, MemoryTestType::Store, instruction_type(x), cv),
            ));
        }
    }
    proof {
        assert(memory_loads().take(12) =~= memory_loads());
        assert(memory_stores().take(7) =~= memory_stores());
    }
    out
}

} // verus!
