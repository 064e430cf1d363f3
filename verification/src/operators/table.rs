//! Reference and table operators. Tables are DiamondFire lists; the table
//! store holds the name of each table's list.
use vstd::prelude::*;
use crate::compiler::{DFWasmCompiler, emit, lemma_emit_wf, wf};
use crate::df_helper::{
    DF_FUNC_FILL_TABLE, DF_FUNC_GROW_TABLE, DF_VAR_STORE_TABLES, TemplateExt, compare_push_v, num, num_v,
    pop_v, popped_into, push_v, pushed_item, var, var_v,
};
use crate::operators::basic::list_get;
use crate::error::DFWasmResult;
use crate::operators::memory::{call_v, set_v};
use crate::template::{Args, BlockV, Item, ItemV, items_view};
use crate::text::{dec, u32_text};
use crate::wasm::WasmOp;

verus! {

/// The code of a table operator; `None` where a table index plus one does
/// not fit in a `u32` and for `table.copy`, `table.init` and `elem.drop`,
/// which the compiler does not handle.
pub open spec fn table_blocks(op: WasmOp) -> Option<Seq<BlockV>> {
    match op {
        WasmOp::RefNull => Some(seq![push_v(num_v("-1"@))]),
        WasmOp::RefIsNull => Some(seq![pop_v(var_v("$ref"@))] + compare_push_v("="@, var_v("$ref"@), num_v("-1"@))),
        WasmOp::RefFunc { function_index } => Some(seq![push_v(num_v(dec(function_index as nat)))]),
        WasmOp::TableFill { table } => Some(seq![call_v(DF_FUNC_FILL_TABLE@, seq![num_v(dec(table as nat))])]),
        WasmOp::TableGet { table } => if table as nat + 1 > u32::MAX {
            None
        } else {
            Some(seq![
                pop_v(var_v("$index"@)),
                set_v("GetListValue"@, seq![var_v("$table"@), var_v(DF_VAR_STORE_TABLES@), num_v(dec(table as nat + 1))]),
                set_v(
                    "GetListValue"@,
                    seq![var_v("$result"@), var_v("%var($table)"@), num_v("%math(1000*%var($index)+1)"@)],
                ),
                push_v(var_v("$result"@)),
            ])
        },
        WasmOp::TableSet { table } => if table as nat + 1 > u32::MAX {
            None
        } else {
            Some(seq![
                pop_v(var_v("$value"@)),
                pop_v(var_v("$index"@)),
                set_v("GetListValue"@, seq![var_v("$table_ptr"@), var_v(DF_VAR_STORE_TABLES@), num_v(dec(table as nat + 1))]),
                set_v(
                    "SetListValue"@,
                    seq![var_v("%var($table_ptr)"@), num_v("%math(%var($index)+1)"@), var_v("$value"@)],
                ),
            ])
        },
        WasmOp::TableGrow { table } => Some(seq![call_v(DF_FUNC_GROW_TABLE@, seq![num_v(dec(table as nat))])]),
        WasmOp::TableSize { table } => if table as nat + 1 > u32::MAX {
            None
        } else {
            Some(seq![
                set_v("GetListValue"@, seq![var_v("$table_ptr"@), var_v(DF_VAR_STORE_TABLES@), num_v(dec(table as nat + 1))]),
                set_v("ListLength"@, seq![var_v("$result"@), var_v("%var($table_ptr)"@)]),
                set_v("/"@, seq![var_v("$result"@), var_v("$result"@), num_v("1000"@)]),
                push_v(var_v("$result"@)),
            ])
        },
        _ => None,
    }
}

pub(crate) fn items2(a: Item, b: Item) -> (r: Args)
    ensures
        r@ == crate::template::slotted(seq![a@, b@]),
{
    let ghost (x, y) = (a@, b@);
    let mut v = Vec::new();
    v.push(a);
    v.push(b);
    assert(items_view(v@) =~= seq![x, y]);
    Args::with(v)
}

pub(crate) fn items3(a: Item, b: Item, c: Item) -> (r: Args)
    ensures
        r@ == crate::template::slotted(seq![a@, b@, c@]),
{
    let ghost (x, y, z) = (a@, b@, c@);
    let mut v = Vec::new();
    v.push(a);
    v.push(b);
    v.push(c);
    assert(items_view(v@) =~= seq![x, y, z]);
    Args::with(v)
}

pub(crate) fn items1(a: Item) -> (r: Args)
    ensures
        r@ == crate::template::slotted(seq![a@]),
{
    let ghost x = a@;
    let mut v = Vec::new();
    v.push(a);
    assert(items_view(v@) =~= seq![x]);
    Args::with(v)
}

/// Compiles a reference or table operator into the current template.
pub fn compile_table_operator(compiler: &mut DFWasmCompiler, operator: WasmOp, _location: usize) -> (r: DFWasmResult<()>)
    requires
        wf(old(compiler)@),
        old(compiler).control_stack@.len() > 0,
        table_blocks(operator) is Some,
    ensures
        final(compiler)@ == emit(old(compiler)@, table_blocks(operator).unwrap()),
        r is Ok,
        wf(final(compiler)@),
        final(compiler).options == old(compiler).options,
        final(compiler).wasm == old(compiler).wasm,
{
    let ghost s0 = compiler@;
    let template = compiler.get_current_template();
    let ghost t0 = template@;
    match operator {
        WasmOp::RefNull => {
            template.push_op_stack(num("-1"));
        },
        WasmOp::RefIsNull => {
            template.pop_op_stack(var("$ref")).compare_and_push("=", var("$ref"), num("-1"));
        },
        WasmOp::RefFunc { function_index } => {
            template.push_op_stack(num(u32_text(function_index).as_str()));
        },
        WasmOp::TableFill { table } => {
            template.call_function(DF_FUNC_FILL_TABLE, items1(num(u32_text(table).as_str())));
        },
        WasmOp::TableGet { table } => {
            template.pop_op_stack(var("$index")).set_var(
                "GetListValue",
                items3(var("$table"), var(DF_VAR_STORE_TABLES), num(u32_text(table + 1).as_str())),
            ).set_var(
                "GetListValue",
                items3(var("$result"), var("%var($table)"), num("%math(1000*%var($index)+1)")),
            ).push_op_stack(var("$result"));
        },
        WasmOp::TableSet { table } => {
            template.pop_op_stack(var("$value")).pop_op_stack(var("$index")).set_var(
                "GetListValue",
                items3(var("$table_ptr"), var(DF_VAR_STORE_TABLES), num(u32_text(table + 1).as_str())),
            ).set_var(
                "SetListValue",
                items3(var("%var($table_ptr)"), num("%math(%var($index)+1)"), var("$value")),
            );
        },
        WasmOp::TableGrow { table } => {
            template.call_function(DF_FUNC_GROW_TABLE, items1(num(u32_text(table).as_str())));
        },
        WasmOp::TableSize { table } => {
            template.set_var(
                "GetListValue",
                items3(var("$table_ptr"), var(DF_VAR_STORE_TABLES), num(u32_text(table + 1).as_str())),
            ).set_var("ListLength", items2(var("$result"), var("%var($table_ptr)"))).set_var(
                "/",
                items3(var("$result"), var("$result"), num("1000")),
            ).push_op_stack(var("$result"));
        },
        _ => {},
    }
    proof {
        let b = table_blocks(operator).unwrap();
        assert(template@ =~= t0 + b);
        lemma_emit_wf(s0, b);
    }
    Ok(())
}

/// `table.get` and `table.set` address the table's list through entry
/// `table + 1` of the list of tables. `table.get` pops the index into a
/// variable, reads the table's list, reads from it the entry the index selects
/// (as `call_indirect` does) into another variable, and pushes that variable.
/// `table.set` pops the value (the top of the operand stack) and then the
/// index into two different variables, reads the table's list, and writes the
/// value into it at the index's DiamondFire value plus 1.
pub proof fn lemma_table_get_and_set(table: u32)
    requires
        table + 1 <= u32::MAX,
    ensures
        ({
            let g = table_blocks(WasmOp::TableGet { table }).unwrap();
            let i = popped_into(g[0]).unwrap();
            &&& table_blocks(WasmOp::TableGet { table }) is Some
            &&& g.len() == 4 && popped_into(g[0]) is Some
            &&& list_get(g[1]) matches Some((t, l, at)) && l == DF_VAR_STORE_TABLES@ && at == table + 1
                && exists|res: Seq<char>|
                #![trigger var_v(res)]
                res != i && g[2] == set_v(
                    "GetListValue"@,
                    seq![var_v(res), var_v("%var("@ + t + ")"@), num_v("%math(1000*%var("@ + i + ")+1)"@)],
                ) && pushed_item(g[3]) == Some(var_v(res))
        }),
        ({
            let b = table_blocks(WasmOp::TableSet { table }).unwrap();
            let v = popped_into(b[0]).unwrap();
            let i = popped_into(b[1]).unwrap();
            &&& table_blocks(WasmOp::TableSet { table }) is Some
            &&& b.len() == 4 && popped_into(b[0]) is Some && popped_into(b[1]) is Some && v != i
            &&& list_get(b[2]) matches Some((t, l, at)) && l == DF_VAR_STORE_TABLES@ && at == table + 1
                && b[3] == set_v(
                    "SetListValue"@,
                    seq![var_v("%var("@ + t + ")"@), num_v("%math(%var("@ + i + ")+1)"@), var_v(v)],
                )
        }),
{
    reveal_strlit("$index");
    reveal_strlit("$table");
    reveal_strlit("$table_ptr");
    reveal_strlit("$result");
    reveal_strlit("$value");
    reveal_strlit("%var(");
    reveal_strlit(")");
    reveal_strlit("%var($table)");
    reveal_strlit("%var($table_ptr)");
    reveal_strlit("%math(1000*%var(");
    reveal_strlit(")+1)");
    reveal_strlit("%math(%var(");
    reveal_strlit("%math(1000*%var($index)+1)");
    reveal_strlit("%math(%var($index)+1)");
    crate::df_helper::lemma_dec_digits(table as nat + 1);
    assert("$result"@ != "$index"@) by {
        assert("$result"@[1] != "$index"@[1]);
    }
    assert("$value"@ != "$index"@) by {
        assert("$value"@[1] != "$index"@[1]);
    }
    assert("%var("@ + "$table"@ + ")"@ =~= "%var($table)"@);
    assert("%var("@ + "$table_ptr"@ + ")"@ =~= "%var($table_ptr)"@);
    assert("%math(1000*%var("@ + "$index"@ + ")+1)"@ =~= "%math(1000*%var($index)+1)"@);
    assert("%math(%var("@ + "$index"@ + ")+1)"@ =~= "%math(%var($index)+1)"@);
    assert(var_v("$result"@) == var_v("$result"@));
}

} // verus!
