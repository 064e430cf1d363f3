use dfwasm::df_helper::{
    format_df_number_i32, format_df_number_i64, format_df_number_u32, format_df_number_u64, format_df_number_usize,
    generate_block_name, generate_conditional_name, generate_function_name, generate_loop_name, generate_table_name,
    get_local_name,
};
use dfwasm::names::{get_next_function_name, NameSet};

#[test]
fn df_numbers_are_thousandths() {
    assert_eq!(format_df_number_i64(0), "0");
    assert_eq!(format_df_number_i64(1000), "1");
    assert_eq!(format_df_number_i64(1500), "1.5");
    assert_eq!(format_df_number_i64(123456), "123.456");
    assert_eq!(format_df_number_i64(5), "0.005");
    assert_eq!(format_df_number_i64(-1), "-0.001");
    assert_eq!(format_df_number_i64(-2050), "-2.05");
    assert_eq!(format_df_number_i64(i64::MIN), "-9223372036854775.808");
    assert_eq!(format_df_number_i64(i64::MAX), "9223372036854775.807");
}

#[test]
fn df_numbers_of_unsigned_values() {
    assert_eq!(format_df_number_u64(u64::MAX), "18446744073709551.615");
    assert_eq!(format_df_number_u32(42), "0.042");
    assert_eq!(format_df_number_usize(2000), "2");
}

#[test]
fn df_numbers_of_i32_use_the_unsigned_bits() {
    assert_eq!(format_df_number_i32(7), "0.007");
    assert_eq!(format_df_number_i32(-1), "4294967.295");
}

#[test]
fn generated_names() {
    assert_eq!(generate_function_name(3, None), "wasm.module.func_3");
    assert_eq!(generate_function_name(3, Some("m")), "wasm.m.func_3");
    assert_eq!(generate_block_name(1, None), "wasm.module.block_1");
    assert_eq!(generate_loop_name(2, Some("x")), "wasm.x.loop_2");
    assert_eq!(generate_conditional_name(4, None), "wasm.module.if_4");
    assert_eq!(generate_table_name(0), "wasm.$table_0");
    assert_eq!(get_local_name(5), "wasm.$frame%var(wasm.$current_stack_frame)_local_5");
}

#[test]
fn next_function_name_is_fresh_and_recorded() {
    let mut names = NameSet::new();
    names.insert("f".to_string());
    let n1 = get_next_function_name("f", &mut names).unwrap();
    assert_eq!(n1, "f--1");
    assert!(names.contains("f--1"));
    let n2 = get_next_function_name("f", &mut names).unwrap();
    assert_eq!(n2, "f--2");
    let n3 = get_next_function_name("f--2", &mut names).unwrap();
    assert_eq!(n3, "f--3");
}

#[test]
fn next_function_name_keeps_a_name_without_number() {
    let mut names = NameSet::new();
    assert_eq!(get_next_function_name("g--x", &mut names).unwrap(), "g--x--1");
    assert_eq!(get_next_function_name("h--7", &mut names).unwrap(), "h--8");
}

#[test]
fn generated_names_are_unique() {
    let mut names: Vec<String> = Vec::new();
    for i in [0usize, 1, 10, 11, 100, 101] {
        names.push(generate_function_name(i, Some("m")));
        names.push(generate_block_name(i, Some("m")));
        names.push(generate_loop_name(i, Some("m")));
        names.push(generate_conditional_name(i, Some("m")));
    }
    for a in 0..names.len() {
        for b in 0..names.len() {
            if a != b {
                assert_ne!(names[a], names[b]);
            }
        }
    }
    assert_ne!(generate_table_name(1), generate_table_name(11));
}

#[test]
fn generated_names_differ_across_modules() {
    let names = vec![
        generate_block_name(1, Some("a")),
        generate_loop_name(1, Some("a")),
        generate_block_name(1, Some("a.block_1")),
        generate_function_name(11, Some("a")),
        generate_function_name(1, Some("a_1")),
        generate_conditional_name(1, None),
        generate_conditional_name(1, Some("x")),
    ];
    for a in 0..names.len() {
        for b in 0..names.len() {
            if a != b {
                assert_ne!(names[a], names[b]);
            }
        }
    }
    assert_eq!(generate_block_name(2, None), generate_block_name(2, Some("module")));
}
