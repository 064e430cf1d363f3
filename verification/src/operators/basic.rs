//! Calls, parametric operators, locals and globals.
use vstd::prelude::*;
use crate::compiler::{CompilerV, DFWasmCompiler, emit, lemma_emit_wf, wf};
use crate::df_helper::{
    DF_FUNC_CALL_FUNC, DF_VAR_STORE_GLOBALS, DF_VAR_STORE_TABLES, TemplateExt, get_local_name,
    local_name, nonzero_test, num, num_v, pop_v, popped_into, push_v, pushed_item, var, var_v,
};
use crate::error::DFWasmResult;
use crate::operators::memory::{call_v, set_v};
use crate::operators::table::{items2, items3};
use crate::template::{Args, Block, BlockV, ItemV, close_v, open_v, slotted};
use crate::text::{dec, u32_text, usize_text};
use crate::wasm::{RecGroupInfo, WasmOp};

verus! {

/// The parameter and result counts of a function type; `None` when the type
/// is missing or is not a function type.
pub open spec fn sig_counts(s: Seq<RecGroupInfo>, i: nat) -> Option<(usize, usize)> {
    if i < s.len() {
        match s[i as int] {
            RecGroupInfo::Func { params, results } => Some((params, results)),
            _ => None,
        }
    } else {
        None
    }
}

/// The code of a basic operator in state `s`; `None` where a type is missing
/// or is not a function type, or an index plus one does not fit in a `u32`.
pub open spec fn basic_blocks(s: CompilerV, op: WasmOp) -> Option<Seq<BlockV>> {
    match op {
        WasmOp::Nop => Some(seq![BlockV::EntityAction { args: Seq::empty(), action: Seq::empty(), target: None }]),
        WasmOp::Call { function_index } => match sig_counts(s.function_to_type_signature, function_index as nat) {
            Some((p, r)) => Some(seq![
                call_v(DF_FUNC_CALL_FUNC@, seq![num_v(dec(function_index as nat)), num_v(dec(p as nat)), num_v(dec(r as nat))]),
            ]),
            None => None,
        },
        WasmOp::CallIndirect { type_index, table_index } => match sig_counts(s.function_signatures, type_index as nat) {
            Some((p, r)) => if table_index as nat + 1 > u32::MAX {
                None
            } else {
                Some(seq![
                    pop_v(var_v("$index"@)),
                    set_v(
                        "GetListValue"@,
                        seq![var_v("$table_ptr"@), var_v(DF_VAR_STORE_TABLES@), num_v(dec(table_index as nat + 1))],
                    ),
                    set_v(
                        "GetListValue"@,
                        seq![var_v("$func_idx"@), var_v("%var($table_ptr)"@), num_v("%math(1000*%var($index)+1)"@)],
                    ),
                    call_v(DF_FUNC_CALL_FUNC@, seq![var_v("$func_idx"@), num_v(dec(p as nat)), num_v(dec(r as nat))]),
                ])
            },
            None => None,
        },
        WasmOp::Drop => Some(seq![pop_v(var_v("$_"@))]),
        WasmOp::Select => Some(seq![
            pop_v(var_v("$cond"@)),
            pop_v(var_v("$if_false"@)),
            pop_v(var_v("$if_true"@)),
            BlockV::IfVariable { args: slotted(seq![var_v("$cond"@), num_v("0"@)]), action: "!="@, is_negated: false },
            open_v(),
            push_v(var_v("$if_true"@)),
            close_v(),
            BlockV::Else,
            open_v(),
            push_v(var_v("$if_false"@)),
            close_v(),
        ]),
        WasmOp::LocalGet { local_index } => Some(seq![push_v(var_v(local_name(local_index as nat)))]),
        WasmOp::LocalSet { local_index } => Some(seq![
            pop_v(var_v("$value"@)),
            set_v("="@, seq![var_v(local_name(local_index as nat)), var_v("$value"@)]),
        ]),
        WasmOp::LocalTee { local_index } => Some(seq![
            pop_v(var_v("$tee"@)),
            push_v(var_v("$tee"@)),
            set_v("="@, seq![var_v(local_name(local_index as nat)), var_v("$tee"@)]),
        ]),
        WasmOp::GlobalGet { global_index } => if global_index as nat + 1 > u32::MAX {
            None
        } else {
            Some(seq![
                set_v("GetListValue"@, seq![var_v("$value"@), var_v(DF_VAR_STORE_GLOBALS@), num_v(dec(global_index as nat + 1))]),
                push_v(var_v("$value"@)),
            ])
        },
        WasmOp::GlobalSet { global_index } => if global_index as nat + 1 > u32::MAX {
            None
        } else {
            Some(seq![
                pop_v(var_v("$value"@)),
                set_v("SetListValue"@, seq![var_v(DF_VAR_STORE_GLOBALS@), num_v(dec(global_index as nat + 1)), var_v("$value"@)]),
            ])
        },
        _ => None,
    }
}

impl<'a> DFWasmCompiler<'a> {
    /// The parameter count of the first type of a recursion group; `None`
    /// when the group is empty. The first type must be a function type.
    pub fn arg_count_of_type(signature: &RecGroupInfo) -> (r: Option<usize>)
        requires
            !(*signature is NotFunc),
        ensures
            r == match *signature {
                RecGroupInfo::Func { params, .. } => Some(params),
                _ => None::<usize>,
            },
    {
        match signature {
            RecGroupInfo::Func { params, .. } => Some(*params),
            _ => None,
        }
    }

    /// The result count of the first type of a recursion group; `None`
    /// when the group is empty. The first type must be a function type.
    pub fn result_count_of_type(signature: &RecGroupInfo) -> (r: Option<usize>)
        requires
            !(*signature is NotFunc),
        ensures
            r == match *signature {
                RecGroupInfo::Func { results, .. } => Some(results),
                _ => None::<usize>,
            },
    {
        match signature {
            RecGroupInfo::Func { results, .. } => Some(*results),
            _ => None,
        }
    }
}

/// Compiles a basic operator into the current template.
pub fn compile_basic_operator(compiler: &mut DFWasmCompiler, operator: WasmOp, _location: usize) -> (r: DFWasmResult<()>)
    requires
        wf(old(compiler)@),
        old(compiler).control_stack@.len() > 0,
        basic_blocks(old(compiler)@, operator) is Some,
    ensures
        final(compiler)@ == emit(old(compiler)@, basic_blocks(old(compiler)@, operator).unwrap()),
        r is Ok,
        wf(final(compiler)@),
        final(compiler).options == old(compiler).options,
        final(compiler).wasm == old(compiler).wasm,
{
    let ghost s0 = compiler@;
    match operator {
        WasmOp::Call { function_index } => {
            let signature = compiler.function_to_type_signature[function_index as usize];
            let arg_count = DFWasmCompiler::arg_count_of_type(&signature).unwrap();
            let result_count = DFWasmCompiler::result_count_of_type(&signature).unwrap();
            let template = compiler.get_current_template();
            let ghost t0 = template@;
            template.call_function(
                DF_FUNC_CALL_FUNC,
                items3(
                    num(u32_text(function_index).as_str()),
                    num(usize_text(arg_count).as_str()),
                    num(usize_text(result_count).as_str()),
                ),
            );
            proof {
                let b = basic_blocks(s0, operator).unwrap();
                assert(template@ =~= t0 + b);
                lemma_emit_wf(s0, b);
            }
            return Ok(());
        },
        WasmOp::CallIndirect { type_index, table_index } => {
            let signature = compiler.function_signatures[type_index as usize];
            let arg_count = DFWasmCompiler::arg_count_of_type(&signature).unwrap();
            let res_count = DFWasmCompiler::result_count_of_type(&signature).unwrap();
            let template = compiler.get_current_template();
            let ghost t0 = template@;
            template.pop_op_stack(var("$index")).set_var(
                "GetListValue",
                items3(var("$table_ptr"), var(DF_VAR_STORE_TABLES), num(u32_text(table_index + 1).as_str())),
            ).set_var(
                "GetListValue",
                items3(var("$func_idx"), var("%var($table_ptr)"), num("%math(1000*%var($index)+1)")),
            ).call_function(
                DF_FUNC_CALL_FUNC,
                items3(var("$func_idx"), num(usize_text(arg_count).as_str()), num(usize_text(res_count).as_str())),
            );
            proof {
                let b = basic_blocks(s0, operator).unwrap();
                assert(template@ =~= t0 + b);
                lemma_emit_wf(s0, b);
            }
            return Ok(());
        },
        _ => {},
    }
    let template = compiler.get_current_template();
    let ghost t0 = template@;
    match operator {
        WasmOp::Nop => {
            template.add_block(Block::EntityAction { args: Args::default(), action: String::new(), target: None });
        },
        WasmOp::Drop => {
            template.pop_op_stack(var("$_"));
        },
        WasmOp::Select => {
            template.pop_op_stack(var("$cond")).pop_op_stack(var("$if_false")).pop_op_stack(var("$if_true")).if_var(
                "!=",
                items2(var("$cond"), num("0")),
            ).open_bracket().push_op_stack(var("$if_true")).close_bracket().else_block().open_bracket().push_op_stack(
                var("$if_false"),
            ).close_bracket();
        },
        WasmOp::LocalGet { local_index } => {
            let local_var_name = get_local_name(local_index);
            template.push_op_stack(var(local_var_name.as_str()));
        },
        WasmOp::LocalSet { local_index } => {
            let local_var_name = get_local_name(local_index);
            template.pop_op_stack(var("$value")).set_var("=", items2(var(local_var_name.as_str()), var("$value")));
        },
        WasmOp::LocalTee { local_index } => {
            let local_var_name = get_local_name(local_index);
            template.pop_op_stack(var("$tee")).push_op_stack(var("$tee")).set_var(
                "=",
                items2(var(local_var_name.as_str()), var("$tee")),
            );
        },
        WasmOp::GlobalGet { global_index } => {
            template.set_var(
                "GetListValue",
                items3(var("$value"), var(DF_VAR_STORE_GLOBALS), num(u32_text(global_index + 1).as_str())),
            ).push_op_stack(var("$value"));
        },
        WasmOp::GlobalSet { global_index } => {
            template.pop_op_stack(var("$value")).set_var(
                "SetListValue",
                items3(var(DF_VAR_STORE_GLOBALS), num(u32_text(global_index + 1).as_str()), var("$value")),
            );
        },
        _ => {},
    }
    proof {
        let b = basic_blocks(s0, operator).unwrap();
        assert(template@ =~= t0 + b);
        lemma_emit_wf(s0, b);
    }
    Ok(())
}

/// `select` keeps the operand pushed first when the condition is not zero,
/// and the one pushed second otherwise. Its code pops the condition, then the
/// second operand, then the first, into three different variables; under a
/// test that the condition is not 0 it pushes the first, and otherwise the
/// second.
pub proof fn lemma_select_keeps_first_when_nonzero(s: CompilerV)
    ensures
        ({
            let b = basic_blocks(s, WasmOp::Select).unwrap();
            let cond = popped_into(b[0]);
            let second = popped_into(b[1]);
            let first = popped_into(b[2]);
            &&& basic_blocks(s, WasmOp::Select) is Some
            &&& b.len() == 11
            &&& cond is Some && second is Some && first is Some
            &&& cond != second && cond != first && second != first
            &&& nonzero_test(b[3]) == cond
            &&& b[4] == open_v() && b[6] == close_v()
            &&& pushed_item(b[5]) == Some(var_v(first.unwrap()))
            &&& b[7] == BlockV::Else
            &&& b[8] == open_v() && b[10] == close_v()
            &&& pushed_item(b[9]) == Some(var_v(second.unwrap()))
        }),
{
    reveal_strlit("$cond");
    reveal_strlit("$if_true");
    reveal_strlit("$if_false");
    assert("$cond"@ != "$if_true"@) by {
        assert("$cond"@[1] != "$if_true"@[1]);
    }
    assert("$cond"@ != "$if_false"@) by {
        assert("$cond"@[1] != "$if_false"@[1]);
    }
    assert("$if_true"@ != "$if_false"@) by {
        assert("$if_true"@[4] != "$if_false"@[4]);
    }
}

/// The variable that a block assigns an item to with `=`, and the item.
pub open spec fn assigned(b: BlockV) -> Option<(Seq<char>, ItemV)> {
    match b {
        BlockV::SetVariable { args, action } => if action == "="@ && args.len() == 2 {
            match args[0].1 {
                ItemV::Variable { name, .. } => Some((name, args[1].1)),
                _ => None,
            }
        } else {
            None
        },
        _ => None,
    }
}

/// `local.set` and `local.tee` write the local that `local.get` of the same
/// index reads, and different indices are different locals. `local.get i`
/// pushes a variable; `local.set i` pops the top of the operand stack into a
/// variable and assigns it to the variable `local.get i` pushes; `local.tee i`
/// does the same and pushes the popped value back first.
pub proof fn lemma_locals(s: CompilerV, i: u32, j: u32)
    ensures
        ({
            let get = basic_blocks(s, WasmOp::LocalGet { local_index: i }).unwrap();
            let set = basic_blocks(s, WasmOp::LocalSet { local_index: i }).unwrap();
            let tee = basic_blocks(s, WasmOp::LocalTee { local_index: i }).unwrap();
            let other = basic_blocks(s, WasmOp::LocalGet { local_index: j }).unwrap();
            &&& get.len() == 1 && set.len() == 2 && tee.len() == 3 && other.len() == 1
            &&& pushed_item(get[0]) matches Some(ItemV::Variable { name: l, .. }) && {
                &&& popped_into(set[0]) matches Some(v) && assigned(set[1]) == Some((l, var_v(v)))
                &&& popped_into(tee[0]) matches Some(t) && pushed_item(tee[1]) == Some(var_v(t)) && assigned(tee[2])
                    == Some((l, var_v(t)))
                &&& i != j ==> pushed_item(other[0]) != pushed_item(get[0])
            }
        }),
{
    if i != j {
        if local_name(i as nat) == local_name(j as nat) {
            let p = "wasm.$frame%var("@ + crate::df_helper::DF_VAR_CURRENT_STACK_FRAME@ + ")_local_"@;
            assert(local_name(i as nat).skip(p.len() as int) =~= dec(i as nat));
            assert(local_name(j as nat).skip(p.len() as int) =~= dec(j as nat));
            crate::names::lemma_dec_injective(i as nat, j as nat);
        }
    }
}

/// The variable that a block reads a list entry into, the list, and the
/// entry (counted from 1), where the block reads an entry given in decimal
/// digits.
pub open spec fn list_get(b: BlockV) -> Option<(Seq<char>, Seq<char>, nat)> {
    match b {
        BlockV::SetVariable { args, action } => if action == "GetListValue"@ && args.len() == 3 {
            match (args[0].1, args[1].1, args[2].1) {
                (ItemV::Variable { name: t, .. }, ItemV::Variable { name: l, .. }, ItemV::Number { name: at }) => if at.len()
                    > 0 && crate::names::all_digits(at) {
                    Some((t, l, crate::names::digits_value(at)))
                } else {
                    None
                },
                _ => None,
            }
        } else {
            None
        },
        _ => None,
    }
}

/// The list that a block writes an entry of, the entry (counted from 1), and
/// the item written, where the block writes an entry given in decimal digits.
pub open spec fn list_set(b: BlockV) -> Option<(Seq<char>, nat, ItemV)> {
    match b {
        BlockV::SetVariable { args, action } => if action == "SetListValue"@ && args.len() == 3 {
            match (args[0].1, args[1].1) {
                (ItemV::Variable { name: l, .. }, ItemV::Number { name: at }) => if at.len() > 0 && crate::names::all_digits(
                    at,
                ) {
                    Some((l, crate::names::digits_value(at), args[2].1))
                } else {
                    None
                },
                _ => None,
            }
        } else {
            None
        },
        _ => None,
    }
}

/// `global.get g` and `global.set g` use entry `g + 1` of the list of globals
/// (DiamondFire lists count from 1): `global.get` reads that entry into a
/// variable and pushes the variable; `global.set` pops the top of the operand
/// stack into a variable and writes it to that entry.
pub proof fn lemma_globals(s: CompilerV, g: u32)
    requires
        g + 1 <= u32::MAX,
    ensures
        ({
            let get = basic_blocks(s, WasmOp::GlobalGet { global_index: g }).unwrap();
            let set = basic_blocks(s, WasmOp::GlobalSet { global_index: g }).unwrap();
            &&& get.len() == 2 && set.len() == 2
            &&& list_get(get[0]) matches Some((v, l, at)) && l == DF_VAR_STORE_GLOBALS@ && at == g + 1
                && pushed_item(get[1]) == Some(var_v(v))
            &&& popped_into(set[0]) matches Some(w) && list_set(set[1]) == Some(
                (DF_VAR_STORE_GLOBALS@, (g + 1) as nat, var_v(w)),
            )
        }),
{
    crate::df_helper::lemma_dec_digits(g as nat + 1);
}

/// Calls pass the parameter and result counts of the callee's type. `call f`
/// calls the function-call helper with `f` and the counts of the type of `f`,
/// and has no code where that type is missing. `call_indirect` pops the index
/// into a variable, reads the table's list from entry `table + 1` of the list
/// of tables, reads from that list the entry the index selects (the index's
/// DiamondFire value times 1000, plus 1: lists count from 1), and calls the
/// function read there with the counts of the type that the instruction
/// names.
pub proof fn lemma_calls(s: CompilerV, f: u32, ty: u32, table: u32)
    ensures
        sig_counts(s.function_to_type_signature, f as nat) matches Some((p, r)) ==> basic_blocks(
            s,
            WasmOp::Call { function_index: f },
        ) == Some(
            seq![call_v(DF_FUNC_CALL_FUNC@, seq![num_v(dec(f as nat)), num_v(dec(p as nat)), num_v(dec(r as nat))])],
        ),
        sig_counts(s.function_to_type_signature, f as nat) is None ==> basic_blocks(
            s,
            WasmOp::Call { function_index: f },
        ) is None,
        sig_counts(s.function_signatures, ty as nat) matches Some((p, r)) ==> table + 1 <= u32::MAX ==> ({
            let b = basic_blocks(s, WasmOp::CallIndirect { type_index: ty, table_index: table }).unwrap();
            let v = popped_into(b[0]).unwrap();
            &&& basic_blocks(s, WasmOp::CallIndirect { type_index: ty, table_index: table }) is Some
            &&& b.len() == 4 && popped_into(b[0]) is Some
            &&& list_get(b[1]) matches Some((ptr, l, at)) && l == DF_VAR_STORE_TABLES@ && at == table + 1
                && exists|fv: Seq<char>|
                #![trigger var_v(fv)]
                fv != v && b[2] == set_v(
                    "GetListValue"@,
                    seq![var_v(fv), var_v("%var("@ + ptr + ")"@), num_v("%math(1000*%var("@ + v + ")+1)"@)],
                ) && b[3] == call_v(DF_FUNC_CALL_FUNC@, seq![var_v(fv), num_v(dec(p as nat)), num_v(dec(r as nat))])
        }),
{
    reveal_strlit("$index");
    reveal_strlit("$table_ptr");
    reveal_strlit("$func_idx");
    reveal_strlit("%var(");
    reveal_strlit(")");
    reveal_strlit("%var($table_ptr)");
    reveal_strlit("%math(1000*%var(");
    reveal_strlit(")+1)");
    reveal_strlit("%math(1000*%var($index)+1)");
    crate::df_helper::lemma_dec_digits(table as nat + 1);
    assert("$func_idx"@ != "$index"@) by {
        assert("$func_idx"@[1] != "$index"@[1]);
    }
    assert("%var("@ + "$table_ptr"@ + ")"@ =~= "%var($table_ptr)"@);
    assert("%math(1000*%var("@ + "$index"@ + ")+1)"@ =~= "%math(1000*%var($index)+1)"@);
    assert(var_v("$func_idx"@) == var_v("$func_idx"@));
}

} // verus!
