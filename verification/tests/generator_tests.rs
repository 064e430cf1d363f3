use dfwasm::test_gen::arithmetic::{build_i32, build_i64, build_instruction_test};
use dfwasm::test_gen::memory::{build, build_memory_instruction_test, MemoryTestType};
use dfwasm::test_gen::{contains, read_case_table, Type};

fn cases(rows: &[&[&str]]) -> Vec<Vec<String>> {
    rows.iter().map(|r| r.iter().map(|s| s.to_string()).collect()).collect()
}

#[test]
fn memory_test_of_a_load() {
    let f = build_memory_instruction_test("i32.load8_u", MemoryTestType::Load, Type::I32, &cases(&[&["1", "9"], &["2"]]));
    assert_eq!(f.directory, "wat_single");
    assert_eq!(f.subdirectory, "memory");
    assert_eq!(f.base_name, "single-i32_load8_u");
    let expected = "(module $single-i32_load8_u
    (memory (export \"memory\") 1)

    (func $i32_load8_u (param $value i32) (result i32)
        i32.const 0
        local.get $value
        i32.store

        i32.const 0
        i32.load8_u
    )

    (export \"i32_load8_u\" (func $i32_load8_u))
)";
    assert_eq!(f.wat, expected);
    assert_eq!(f.cases, "i32_load8_u 1\ni32_load8_u 2\n");
}

#[test]
fn memory_test_of_a_store() {
    let f = build_memory_instruction_test("i64.store32", MemoryTestType::Store, Type::I64, &cases(&[]));
    assert!(f.wat.contains("        i64.store32\n\n        i32.const 0\n        i64.load\n"));
    assert!(f.wat.contains("(param $value i64) (result i64)"));
    assert_eq!(f.cases, "");
}

#[test]
fn memory_tests_cover_every_load_and_store() {
    let files = build(&cases(&[&["5"]]));
    assert_eq!(files.len(), 19);
    assert_eq!(files[0].base_name, "single-i32_load");
    assert_eq!(files[12].base_name, "single-i32_store");
    assert!(files[1].wat.contains("(param $value i64)"));
    assert!(files[18].wat.contains("i64.store32"));
}

#[test]
fn arithmetic_test_of_a_binary_instruction() {
    let instr = ("i32.add", vec![Type::I32, Type::I32], vec![Type::I32]);
    let f = build_instruction_test(&instr, &cases(&[&["1", "2", "3"], &["4", "5"]]));
    assert_eq!(f.subdirectory, "arithmetic");
    let expected = "(module $single-i32_add

    (func $i32_add (params i32 i32) (result i32)
        (local.get 0) (local.get 1) (i32.add)
    )

    (export \"i32_add\" (func $i32_add))
)";
    assert_eq!(f.wat, expected);
    assert_eq!(f.cases, "i32_add 1 2\ni32_add 4 5\n");
}

#[test]
fn arithmetic_tests_of_each_width() {
    let one = cases(&[&["7"]]);
    let two = cases(&[&["1", "2"]]);
    let a = build_i32(&two);
    assert_eq!(a.len(), 33);
    assert_eq!(a[0].cases, "i32_add 1 2\n");
    let b = build_i64(&one, &two);
    assert_eq!(b.len(), 33);
    assert_eq!(b[0].cases, "i64_add 1 2\n");
    assert_eq!(b[15].base_name, "single-i64_clz");
    assert_eq!(b[15].cases, "i64_clz 7\n");
    assert!(b[18].wat.contains("(params i64) (result i32)"));
}

#[test]
fn type_texts() {
    assert_eq!(Type::I32.to_string(), "i32");
    assert_eq!(Type::I64.to_string(), "i64");
    assert!(contains("i64.extend_i32_s", "i32"));
    assert!(!contains("i64.load", "i32"));
    assert!(contains("abc", ""));
}

#[test]
fn case_tables_skip_blank_lines() {
    let table = read_case_table("1 2\n\n  \r\n-3\t4  5\r\nlast");
    assert_eq!(table, cases(&[&["1", "2"], &["-3", "4", "5"], &["last"]]));
    assert!(read_case_table("").is_empty());
}
