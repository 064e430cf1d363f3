use dfwasm::compiler::{const_expr_supported, const_offset_supported, DFWasmCompiler, DFWasmCompilerOptions};
use dfwasm::error::DFWasmError;
use dfwasm::sections::compile_section;
use dfwasm::template::{Args, Block, Item, Template};
use dfwasm::wasm::{ConstExprInfo, ConstOp, RecGroupInfo, Section};

/// A module of the given sections, each an id and its contents.
fn module(sections: &[(u8, Vec<u8>)]) -> Vec<u8> {
    let mut out = vec![0x00, 0x61, 0x73, 0x6d, 0x01, 0x00, 0x00, 0x00];
    for (id, contents) in sections {
        out.push(*id);
        assert!(contents.len() < 128);
        out.push(contents.len() as u8);
        out.extend_from_slice(contents);
    }
    out
}

/// A module with one function of type `() -> ()` whose body is `body` (without locals).
fn one_function(body: &[u8]) -> Vec<u8> {
    let mut entry = vec![0x00];
    entry.extend_from_slice(body);
    let mut code = vec![0x01, entry.len() as u8];
    code.extend(entry);
    module(&[(1, vec![0x01, 0x60, 0x00, 0x00]), (3, vec![0x01, 0x00]), (10, code)])
}

fn compile(wasm: &[u8], options: DFWasmCompilerOptions) -> Result<Vec<Template>, DFWasmError> {
    DFWasmCompiler::compile_wasm(wasm, options).expect("the compiler handles this module")
}

fn set_var(action: &str, items: Vec<Item>) -> Block {
    Block::SetVariable { args: Args::with(items), action: action.to_string() }
}

#[test]
fn empty_module_has_only_its_initialization() {
    let wasm = module(&[]);
    let templates = compile(&wasm, DFWasmCompilerOptions::default()).unwrap();
    assert_eq!(templates.len(), 1);
    assert_eq!(
        templates[0].blocks,
        vec![
            Block::Function { args: Args::default(), name: "module_init".to_string() },
            set_var("=", vec![Item::var("wasm.$module_init_func"), Item::string("module_init")]),
        ]
    );
}

#[test]
fn module_name_scopes_the_names() {
    let wasm = one_function(&[0x0b]);
    let options = DFWasmCompilerOptions { module_name: Some("m".to_string()), ..DFWasmCompilerOptions::default() };
    let templates = compile(&wasm, options).unwrap();
    assert_eq!(templates.len(), 2);
    assert_eq!(templates[0].get_name(), Some("wasm.m.func_0".to_string()));
    assert_eq!(templates[1].get_name(), Some("m_module_init".to_string()));
    assert_eq!(
        templates[1].blocks[2],
        set_var("AppendValue", vec![Item::var("wasm.$store_funcs"), Item::string("wasm.m.func_0")])
    );
}

#[test]
fn constant_is_pushed_as_thousandths() {
    // i32.const 42; drop; end
    let wasm = one_function(&[0x41, 0x2a, 0x1a, 0x0b]);
    let templates = compile(&wasm, DFWasmCompilerOptions::default()).unwrap();
    assert_eq!(
        templates[0].blocks,
        vec![
            Block::Function { args: Args::default(), name: "wasm.module.func_0".to_string() },
            set_var("AppendValue", vec![Item::var("wasm.$op_stack"), Item::num("0.042")]),
            set_var("PopListValue", vec![Item::var("$_"), Item::var("wasm.$op_stack")]),
        ]
    );
}

#[test]
fn negative_i64_constant() {
    // i64.const -2; drop; end
    let wasm = one_function(&[0x42, 0x7e, 0x1a, 0x0b]);
    let templates = compile(&wasm, DFWasmCompilerOptions::default()).unwrap();
    assert_eq!(templates[0].blocks[1], set_var("AppendValue", vec![Item::var("wasm.$op_stack"), Item::num("-0.002")]));
}

#[test]
fn block_becomes_a_hidden_function_called_in_a_repeat() {
    // block; end; end
    let wasm = one_function(&[0x02, 0x40, 0x0b, 0x0b]);
    let templates = compile(&wasm, DFWasmCompilerOptions::default()).unwrap();
    assert_eq!(templates.len(), 3);
    assert_eq!(templates[1].get_name(), Some("wasm.module.block_1".to_string()));
    assert_eq!(templates[0].blocks.len(), 7);
    assert!(matches!(&templates[0].blocks[1], Block::Repeat { action, .. } if action == "Multiple"));
    assert_eq!(
        templates[0].blocks[4],
        Block::CallFunction { args: Args::default(), func: "wasm.module.block_1".to_string() }
    );
}

#[test]
fn return_outside_blocks_skips_the_rest() {
    // return; end
    let wasm = one_function(&[0x0f, 0x0b]);
    let templates = compile(&wasm, DFWasmCompilerOptions::default()).unwrap();
    assert_eq!(templates[0].blocks[1], Block::Control { args: Args::default(), action: "Skip".to_string() });
}

#[test]
fn unsupported_operator_is_refused_with_its_text_and_location() {
    // i32.const 0 (three times); memory.fill 0; end
    let wasm = one_function(&[0x41, 0x00, 0x41, 0x00, 0x41, 0x00, 0xfc, 0x0b, 0x00, 0x0b]);
    match compile(&wasm, DFWasmCompilerOptions::default()) {
        Err(DFWasmError::UnsupportedOperator { op, location }) => {
            assert_eq!(op, "MemoryFill { mem: 0 }");
            assert_eq!(location, 29);
        }
        other => panic!("unexpected result {other:?}"),
    }
}

#[test]
fn floats_are_not_yet_implemented() {
    // f32.add; end
    let wasm = one_function(&[0x92, 0x0b]);
    assert!(matches!(
        compile(&wasm, DFWasmCompilerOptions::default()),
        Err(DFWasmError::NotYetImplemented("floats are not supported yet"))
    ));
}

#[test]
fn bad_header_is_a_read_error() {
    let wasm = vec![0x00, 0x61, 0x73, 0x6e, 0x01, 0x00, 0x00, 0x00];
    assert!(matches!(compile(&wasm, DFWasmCompilerOptions::default()), Err(DFWasmError::ReadError(_))));
}

#[test]
fn two_start_sections_are_refused() {
    let wasm = module(&[(8, vec![0x00]), (8, vec![0x00])]);
    assert!(matches!(compile(&wasm, DFWasmCompilerOptions::default()), Err(DFWasmError::MultipleStartMethods)));
}

#[test]
fn start_function_is_called_by_the_initialization() {
    let wasm = module(&[(8, vec![0x02])]);
    let templates = compile(&wasm, DFWasmCompilerOptions::default()).unwrap();
    assert_eq!(
        templates[0].blocks[2],
        Block::CallFunction {
            args: Args::with(vec![Item::num("2"), Item::num("0"), Item::num("0")]),
            func: "wasm.internal.call_func".to_string(),
        }
    );
}

#[test]
fn two_memories_are_refused() {
    let wasm = module(&[(5, vec![0x02, 0x00, 0x01, 0x00, 0x01])]);
    assert!(matches!(compile(&wasm, DFWasmCompilerOptions::default()), Err(DFWasmError::MultipleMemories)));
}

#[test]
fn memory_size_is_set_last() {
    let wasm = module(&[(5, vec![0x01, 0x00, 0x03])]);
    let templates = compile(&wasm, DFWasmCompilerOptions::default()).unwrap();
    assert_eq!(templates[0].blocks[2], set_var("=", vec![Item::var("wasm.$memSize"), Item::num("0.003")]));
}

#[test]
fn large_tables_are_refused() {
    // one funcref table of 10001 entries
    let wasm = module(&[(4, vec![0x01, 0x70, 0x00, 0x91, 0x4e])]);
    assert!(matches!(compile(&wasm, DFWasmCompilerOptions::default()), Err(DFWasmError::MaximumTableSize)));
}

#[test]
fn table_is_filled_with_null_references() {
    let wasm = module(&[(4, vec![0x01, 0x70, 0x00, 0x02])]);
    let templates = compile(&wasm, DFWasmCompilerOptions::default()).unwrap();
    let blocks = &templates[0].blocks;
    assert_eq!(blocks[2], set_var("AppendValue", vec![Item::var("wasm.$store_tables"), Item::string("wasm.$table_0")]));
    assert_eq!(
        blocks[3],
        Block::Repeat {
            args: Args::with(vec![Item::num("2")]),
            action: "Multiple".to_string(),
            sub_action: None,
            is_negated: false,
        }
    );
    assert_eq!(blocks[5], set_var("AppendValue", vec![Item::var("wasm.$table_0"), Item::num("-1")]));
}

#[test]
fn tag_sections_are_refused() {
    let wasm = module(&[(13, vec![0x00])]);
    assert!(matches!(compile(&wasm, DFWasmCompilerOptions::default()), Err(DFWasmError::UnsupportedTags)));
}

#[test]
fn unknown_sections_are_refused() {
    let wasm = module(&[(0x20, vec![0x00])]);
    assert!(matches!(compile(&wasm, DFWasmCompilerOptions::default()), Err(DFWasmError::UnknownSection(0x20))));
}

#[test]
fn passive_data_is_not_yet_implemented() {
    let wasm = module(&[(11, vec![0x01, 0x01, 0x01, 0xff])]);
    assert!(matches!(
        compile(&wasm, DFWasmCompilerOptions::default()),
        Err(DFWasmError::NotYetImplemented("passive data sections"))
    ));
}

#[test]
fn active_data_sets_one_variable_per_byte() {
    // data at i32.const 5: bytes 7, 8
    let wasm = module(&[(11, vec![0x01, 0x00, 0x41, 0x05, 0x0b, 0x02, 0x07, 0x08])]);
    let templates = compile(&wasm, DFWasmCompilerOptions::default()).unwrap();
    let blocks = &templates[0].blocks;
    assert_eq!(blocks[2], set_var("=", vec![Item::var("$mem_0.005"), Item::num("0.007")]));
    assert_eq!(blocks[3], set_var("=", vec![Item::var("$mem_0.006"), Item::num("0.008")]));
}

#[test]
fn batched_data_calls_the_batch_function() {
    let wasm = module(&[(11, vec![0x01, 0x00, 0x41, 0x00, 0x0b, 0x03, 0x01, 0x02, 0x03])]);
    let options = DFWasmCompilerOptions { batch_data_size: Some(2), ..DFWasmCompilerOptions::default() };
    let templates = compile(&wasm, options).unwrap();
    let blocks = &templates[0].blocks;
    assert_eq!(
        blocks[2],
        Block::CallFunction {
            args: Args::with(vec![Item::num("0"), Item::num("0.001"), Item::num("0.002")]),
            func: "wasm.internal.batch_data_section".to_string(),
        }
    );
    assert_eq!(
        blocks[3],
        Block::CallFunction {
            args: Args::with(vec![Item::num("0.002"), Item::num("0.003")]),
            func: "wasm.internal.batch_data_section".to_string(),
        }
    );
}

#[test]
fn exports_record_functions() {
    // export "f" as function 0
    let wasm = module(&[(7, vec![0x01, 0x01, b'f', 0x00, 0x00])]);
    let templates = compile(&wasm, DFWasmCompilerOptions::default()).unwrap();
    let blocks = &templates[0].blocks;
    assert_eq!(blocks[2], set_var("CreateDict", vec![Item::var("wasm.$exports")]));
    assert_eq!(
        blocks[3],
        set_var("SetDictValue", vec![Item::var("wasm.$exports"), Item::string("f"), Item::num("0")])
    );
}

#[test]
fn globals_are_stored_with_their_initial_value() {
    // one mutable i32 global = 3
    let wasm = module(&[(6, vec![0x01, 0x7f, 0x01, 0x41, 0x03, 0x0b])]);
    let templates = compile(&wasm, DFWasmCompilerOptions::default()).unwrap();
    assert_eq!(
        templates[0].blocks[2],
        set_var("AppendValue", vec![Item::var("wasm.$store_globals"), Item::num("0.003")])
    );
}

#[test]
fn only_module_init_drops_the_functions() {
    let wasm = one_function(&[0x0b]);
    let options = DFWasmCompilerOptions { only_include_module_init: true, ..DFWasmCompilerOptions::default() };
    let templates = compile(&wasm, options).unwrap();
    assert_eq!(templates.len(), 1);
    assert_eq!(templates[0].get_name(), Some("module_init".to_string()));
}

#[test]
fn debugger_is_called_before_operators() {
    let wasm = one_function(&[0x01, 0x0b]);
    let options = DFWasmCompilerOptions { debugger: true, ..DFWasmCompilerOptions::default() };
    let templates = compile(&wasm, options).unwrap();
    match &templates[0].blocks[1] {
        Block::CallFunction { args, func } => {
            assert_eq!(func, "debug");
            assert_eq!(args.0[3].1, Item::string("0x0017"));
            assert_eq!(args.0[5].1, Item::string("Nop"));
        }
        other => panic!("unexpected block {other:?}"),
    }
}

#[test]
fn split_limit_keeps_every_template_in_the_plot() {
    // 60 nops in one function
    let mut body = vec![0x01; 60];
    body.push(0x0b);
    let wasm = one_function(&body);
    let options = DFWasmCompilerOptions { max_template_size: Some(50), ..DFWasmCompilerOptions::default() };
    let templates = compile(&wasm, options).unwrap();
    assert!(templates.len() > 2);
    for t in &templates {
        assert!(t.blocks.len() * 2 + 4 <= 50);
    }
}

#[test]
fn other_versions_are_refused() {
    let wasm = vec![0x00, 0x61, 0x73, 0x6d, 0x02, 0x00, 0x00, 0x00];
    assert!(matches!(compile(&wasm, DFWasmCompilerOptions::default()), Err(DFWasmError::UnsupportedVersion(2))));
}

#[test]
fn components_are_refused() {
    // a component header of version 1
    let wasm = vec![0x00, 0x61, 0x73, 0x6d, 0x01, 0x00, 0x01, 0x00];
    assert!(matches!(compile(&wasm, DFWasmCompilerOptions::default()), Err(DFWasmError::UnsupportedComponents)));
    // the current component version is refused by its number first
    let wasm = vec![0x00, 0x61, 0x73, 0x6d, 0x0d, 0x00, 0x01, 0x00];
    assert!(matches!(compile(&wasm, DFWasmCompilerOptions::default()), Err(DFWasmError::UnsupportedVersion(13))));
}

#[test]
fn computed_constant_expressions_are_refused() {
    // one i32 global initialized by `i32.add`
    let wasm = module(&[(6, vec![0x01, 0x7f, 0x00, 0x6a, 0x0b])]);
    assert!(matches!(compile(&wasm, DFWasmCompilerOptions::default()), Err(DFWasmError::UnsupportedConstExpr)));
}

#[test]
fn a_global_initialized_from_another_stops_the_compiler() {
    // one i32 global initialized by `global.get 0`
    let wasm = module(&[(6, vec![0x01, 0x7f, 0x00, 0x23, 0x00, 0x0b])]);
    assert!(DFWasmCompiler::compile_wasm(&wasm, DFWasmCompilerOptions::default()).is_none());
}

#[test]
fn an_unknown_payload_is_refused() {
    let mut compiler = DFWasmCompiler::new(&[], DFWasmCompilerOptions::default());
    let mut module_template = Template::start_function("module_init");
    assert!(matches!(
        compile_section(&mut compiler, &mut module_template, Section::Other),
        Some(Err(DFWasmError::UnknownPayload))
    ));
}

#[test]
fn counts_of_a_function_type() {
    let f = RecGroupInfo::Func { params: 2, results: 1 };
    assert_eq!(DFWasmCompiler::arg_count_of_type(&f), Some(2));
    assert_eq!(DFWasmCompiler::result_count_of_type(&f), Some(1));
    assert_eq!(DFWasmCompiler::arg_count_of_type(&RecGroupInfo::Empty), None);
    assert_eq!(DFWasmCompiler::result_count_of_type(&RecGroupInfo::Empty), None);
}

fn expr(ops: Vec<ConstOp>) -> ConstExprInfo {
    ConstExprInfo { ops, error: None }
}

#[test]
fn constant_expressions() {
    let compiler = DFWasmCompiler::new(&[], DFWasmCompilerOptions::default());
    let five = expr(vec![ConstOp::I32Const { value: 5 }, ConstOp::End]);
    assert!(const_expr_supported(&five));
    assert_eq!(compiler.eval_const_expr(five).unwrap(), Item::num("0.005"));
    assert_eq!(compiler.eval_const_expr(expr(vec![ConstOp::RefNull, ConstOp::End])).unwrap(), Item::num("-1"));
    assert_eq!(
        compiler.eval_const_expr(expr(vec![ConstOp::RefFunc { function_index: 12 }])).unwrap(),
        Item::num("12")
    );
    assert!(matches!(
        compiler.eval_const_expr(expr(vec![ConstOp::I32Const { value: 1 }, ConstOp::Other])),
        Err(DFWasmError::UnsupportedConstExpr)
    ));
    assert!(matches!(compiler.eval_const_expr(expr(vec![ConstOp::Other])), Err(DFWasmError::UnsupportedConstExpr)));
    assert!(!const_expr_supported(&expr(vec![ConstOp::F32Const])));
    assert!(!const_expr_supported(&expr(vec![ConstOp::GlobalGet { global_index: 0 }])));
}

#[test]
fn offset_expressions() {
    let compiler = DFWasmCompiler::new(&[], DFWasmCompilerOptions::default());
    assert_eq!(compiler.eval_const_expr_as_offset(expr(vec![ConstOp::I32Const { value: 16 }, ConstOp::End])).unwrap(), 16);
    assert_eq!(compiler.eval_const_expr_as_offset(expr(vec![ConstOp::I64Const { value: -1 }])).unwrap(), usize::MAX);
    assert!(matches!(
        compiler.eval_const_expr_as_offset(expr(vec![ConstOp::RefNull])),
        Err(DFWasmError::UnsupportedConstExpr)
    ));
    assert!(!const_offset_supported(&expr(vec![ConstOp::GlobalGet { global_index: 0 }])));
    assert!(const_offset_supported(&expr(vec![ConstOp::F32Const])));
}

/// A module with one active data segment at address 0 holding `n` bytes 1, 2, ...
fn data_module(n: u8) -> Vec<u8> {
    let mut segment = vec![0x01, 0x00, 0x41, 0x00, 0x0b, n];
    segment.extend((1..=n).collect::<Vec<u8>>());
    module(&[(11, segment)])
}

fn batch_calls(templates: &[Template]) -> Vec<usize> {
    templates[0]
        .blocks
        .iter()
        .filter_map(|b| match b {
            Block::CallFunction { args, func } if func == "wasm.internal.batch_data_section" => {
                Some(args.0.len())
            }
            _ => None,
        })
        .collect()
}

#[test]
fn batching_without_a_size_takes_26_bytes_a_call() {
    let options = DFWasmCompilerOptions { batch_data: true, ..DFWasmCompilerOptions::default() };
    let templates = compile(&data_module(30), options).unwrap();
    // the address, then the bytes
    assert_eq!(batch_calls(&templates), vec![27, 5]);
    match &templates[0].blocks[3] {
        Block::CallFunction { args, .. } => assert_eq!(args.0[0].1, Item::num("0.026")),
        other => panic!("unexpected block {other:?}"),
    }
}

#[test]
fn batch_sizes_are_at_most_26() {
    let options = DFWasmCompilerOptions { batch_data: true, batch_data_size: Some(40), ..DFWasmCompilerOptions::default() };
    let templates = compile(&data_module(30), options).unwrap();
    assert_eq!(batch_calls(&templates), vec![27, 5]);
}

#[test]
fn table_get_reads_the_table_itself() {
    // (i32.const 0) (table.get 0) (drop)
    let templates = compile(&one_function(&[0x41, 0x00, 0x25, 0x00, 0x1a, 0x0b]), DFWasmCompilerOptions::default()).unwrap();
    let f = templates.iter().find(|t| t.get_name().as_deref() == Some("wasm.module.func_0")).unwrap();
    assert!(f.blocks.contains(&set_var(
        "GetListValue",
        vec![Item::var("$result"), Item::var("%var($table)"), Item::num("%math(1000*%var($index)+1)")]
    )));
    assert!(f.blocks.contains(&set_var(
        "GetListValue",
        vec![Item::var("$table"), Item::var("wasm.$store_tables"), Item::num("1")]
    )));
}

#[test]
fn bit_counting_and_unsigned_64_bit_remainders_are_not_yet_implemented() {
    // (i32.const 1) (i32.clz) (drop)
    let wasm = one_function(&[0x41, 0x01, 0x67, 0x1a, 0x0b]);
    assert!(matches!(
        compile(&wasm, DFWasmCompilerOptions::default()),
        Err(DFWasmError::NotYetImplemented("bit counting operators"))
    ));
    // (i64.const 1) (i64.const 1) (i64.rem_u) (drop)
    let wasm = one_function(&[0x42, 0x01, 0x42, 0x01, 0x82, 0x1a, 0x0b]);
    assert!(matches!(
        compile(&wasm, DFWasmCompilerOptions::default()),
        Err(DFWasmError::NotYetImplemented("64-bit unsigned remainders"))
    ));
}
