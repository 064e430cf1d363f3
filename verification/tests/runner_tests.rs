use dfwasm::runner::{
    clear_variables, create_root_template, format_df_number_i32, format_df_number_i64, parse_i32, parse_i64,
    parse_input_file, parse_string_to_df_value, parse_string_to_wasm_value, wasm_value_to_df_value,
    CompiledModuleTest, RunnerError, TestCase, ValueType, WasmValue,
};
use dfwasm::template::{Block, Item, Template};

#[test]
fn input_file_skips_blank_lines_and_comments() {
    let cases = parse_input_file("m", "add 1 2\n# a comment\n\n   \nneg\t-3\r\nnop");
    assert_eq!(cases.len(), 3);
    assert_eq!(cases[0].module_name, "m");
    assert_eq!(cases[0].function_name, "add");
    assert_eq!(cases[0].inputs, vec!["1".to_string(), "2".to_string()]);
    assert_eq!(cases[1].function_name, "neg");
    assert_eq!(cases[1].inputs, vec!["-3".to_string()]);
    assert_eq!(cases[2].function_name, "nop");
    assert!(cases[2].inputs.is_empty());
}

#[test]
fn empty_input_file_has_no_cases() {
    assert!(parse_input_file("m", "").is_empty());
    assert!(parse_input_file("m", "\n\n# only comments\n").is_empty());
}

#[test]
fn integer_literals() {
    assert_eq!(parse_i32("42"), Some(42));
    assert_eq!(parse_i32("+7"), Some(7));
    assert_eq!(parse_i32("-2147483648"), Some(i32::MIN));
    assert_eq!(parse_i32("2147483648"), None);
    assert_eq!(parse_i32("-"), None);
    assert_eq!(parse_i32("1x"), None);
    assert_eq!(parse_i32(""), None);
    assert_eq!(parse_i64("-9223372036854775808"), Some(i64::MIN));
    assert_eq!(parse_i64("9223372036854775807"), Some(i64::MAX));
    assert_eq!(parse_i64("9223372036854775808"), None);
    assert_eq!(parse_i64("99999999999999999999999"), None);
}

#[test]
fn arguments_parse_by_type() {
    assert_eq!(parse_string_to_wasm_value("5", ValueType::I32), Ok(WasmValue::I32(5)));
    assert_eq!(parse_string_to_wasm_value("-5", ValueType::I64), Ok(WasmValue::I64(-5)));
    assert_eq!(parse_string_to_wasm_value("x", ValueType::I32), Err(RunnerError::InvalidI32));
    assert_eq!(parse_string_to_wasm_value("x", ValueType::I64), Err(RunnerError::InvalidI64));
    assert_eq!(parse_string_to_wasm_value("1", ValueType::Other), Err(RunnerError::UnsupportedType));
}

#[test]
fn values_become_number_items() {
    assert_eq!(parse_string_to_df_value("1500", ValueType::I64), Ok(Item::num("1.5")));
    assert_eq!(parse_string_to_df_value("-1", ValueType::I32), Ok(Item::num("4294967.295")));
    assert_eq!(parse_string_to_df_value("1", ValueType::Other), Err(RunnerError::UnsupportedType));
    assert_eq!(wasm_value_to_df_value(&WasmValue::I64(-20)), Ok(Item::num("-0.02")));
    assert_eq!(wasm_value_to_df_value(&WasmValue::I32(3)), Ok(Item::num("0.003")));
    assert_eq!(wasm_value_to_df_value(&WasmValue::Other), Err(RunnerError::UnsupportedType));
    assert_eq!(format_df_number_i64(10), "0.01");
    assert_eq!(format_df_number_i32(1000), "1");
}

#[test]
fn clearing_variables_purges_the_compiled_ones() {
    let mut t = Template::start_function("t");
    clear_variables(&mut t);
    match &t.blocks[1] {
        Block::SetVariable { args, action } => {
            assert_eq!(action, "PurgeVars");
            assert_eq!(args.0[0], (0, Item::string("wasm.$")));
            assert_eq!(args.0.len(), 3);
            assert_eq!(args.0[1].0, 25);
            assert_eq!(args.0[2].0, 26);
        }
        other => panic!("unexpected block {other:?}"),
    }
}

#[test]
fn module_test_function_starts_with_purge_init_and_message() {
    let t = dfwasm::runner::module_test_function("abc");
    assert_eq!(t.get_name(), Some("test_abc".to_string()));
    assert_eq!(t.blocks.len(), 4);
    assert_eq!(
        t.blocks[2],
        Block::CallFunction { args: dfwasm::template::Args::default(), func: "abc_module_init".to_string() }
    );
}

#[test]
fn test_case_compares_results() {
    let mut t = Template::start_function("t");
    let case = TestCase {
        module_name: "m".to_string(),
        function_name: "f".to_string(),
        inputs: vec!["1".to_string(), "2".to_string()],
    };
    dfwasm::runner::compile_test_case(&mut t, &case, vec![Item::num("0.001"), Item::num("0.002")], vec![Item::num("0.003")]);
    match &t.blocks[1] {
        Block::CallFunction { args, func } => {
            assert_eq!(func, "$expectEqual");
            assert_eq!(args.0.len(), 7);
            assert_eq!(args.0[2].1, Item::string("1, 2"));
            assert_eq!(args.0[3].1, Item::num("0.003"));
            assert!(matches!(args.0[4].1, Item::Location { is_block: false, .. }));
            assert_eq!(args.0[6].1, Item::num("0.002"));
        }
        other => panic!("unexpected block {other:?}"),
    }
}

#[test]
fn root_template_lists_and_calls_the_tests() {
    let tests = vec![
        CompiledModuleTest { main_function_name: "test_a".to_string(), templates: vec![Template::start_function("test_a")] },
        CompiledModuleTest { main_function_name: "test_b".to_string(), templates: vec![Template::start_function("test_b")] },
    ];
    let templates = create_root_template(tests).unwrap();
    assert_eq!(templates.len(), 3);
    let root = templates.iter().find(|t| t.get_name() == Some("wasm.test".to_string())).unwrap();
    assert_eq!(root.blocks.len(), 7);
    match &root.blocks[1] {
        Block::SetVariable { args, action } => {
            assert_eq!(action, "AppendValue");
            assert_eq!(args.0.len(), 3);
            assert_eq!(args.0[2].1, Item::string("test_b"));
        }
        other => panic!("unexpected block {other:?}"),
    }
}

#[test]
fn root_template_chunks_names_by_26() {
    let tests: Vec<CompiledModuleTest> = (0..30)
        .map(|i| CompiledModuleTest { main_function_name: format!("test_{i}"), templates: vec![] })
        .collect();
    let templates = create_root_template(tests).unwrap();
    assert_eq!(templates.len(), 1);
    assert_eq!(templates[0].blocks.len(), 8);
}
