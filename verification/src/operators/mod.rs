//! Compiling the operators of function bodies.
use vstd::prelude::*;
use crate::compiler::{CompilerV, DFWasmCompiler, OptionsV, cur_idx, emit, lemma_emit_wf, wf};
use crate::df_helper::{str_v, string};
use crate::error::{DFWasmError, DFWasmResult, ErrV, unit_res};
use crate::template::{Args, BlockV, Item, items_view, template_name};
use crate::text::{hex, hex_chars, owned, pad_chars_left, pad_left, push_chars, push_str, string_of};
use crate::wasm::{IntOp, RecGroupInfo, WasmOp};
use basic::{basic_blocks, compile_basic_operator, sig_counts};
use control_flow::{compile_control_flow_operator, control_ok, control_outcome, is_control, is_control_op};
use memory::{call_v, compile_memory_operator, memory_blocks};
use numeric::{compile_numeric_operator, int_op_blocks, is_numeric, numeric_blocks};
use table::{compile_table_operator, table_blocks};

pub mod basic;
pub mod control_flow;
pub mod memory;
pub mod numeric;
pub mod table;

verus! {

/// The text of a location in the debugger call: `0x` and at least four hexadecimal digits.
pub open spec fn location_text(location: nat) -> Seq<char> {
    "0x"@ + pad_left(hex(location), '0', 4)
}

/// The debugger call made before an operator, with the name of the function
/// it is in, its location and its text.
pub open spec fn debug_v(function: Seq<char>, location: nat, text: Seq<char>) -> BlockV {
    call_v(
        "debug"@,
        seq![
            str_v("df_function"@),
            str_v(function),
            str_v("location"@),
            str_v(location_text(location)),
            str_v("next_op"@),
            str_v(text),
        ],
    )
}

/// Whether the debugger is called before `op`: when the debugger is on, but
/// never before a block or a loop, nor before `nop` when those are skipped.
pub open spec fn debugged(o: OptionsV, op: WasmOp) -> bool {
    &&& o.debugger
    &&& !(op is Nop && o.skip_nop_debugger)
    &&& !(op is Block)
    &&& !(op is Loop)
}

/// `s` after the debugger call before `op`, if there is one.
pub open spec fn debug_step(o: OptionsV, s: CompilerV, op: WasmOp, text: Seq<char>, location: nat) -> CompilerV {
    if debugged(o, op) {
        emit(s, seq![debug_v(template_name(s.templates[cur_idx(s) as int]).unwrap(), location, text)])
    } else {
        s
    }
}

/// The code of an operator that only appends to the current template.
pub open spec fn plain_blocks(s: CompilerV, op: WasmOp) -> Option<Seq<BlockV>> {
    match op {
        WasmOp::Memory { .. } | WasmOp::MemorySize | WasmOp::MemoryGrow => memory_blocks(op),
        WasmOp::Nop | WasmOp::Call { .. } | WasmOp::CallIndirect { .. } | WasmOp::Drop | WasmOp::Select
        | WasmOp::LocalGet { .. } | WasmOp::LocalSet { .. } | WasmOp::LocalTee { .. } | WasmOp::GlobalGet { .. }
        | WasmOp::GlobalSet { .. } => basic_blocks(s, op),
        _ => table_blocks(op),
    }
}

/// The effect of compiling the operator `op`, whose text is `text`, at
/// `location` with options `o` in state `s`: the new state and the result.
/// An operator outside the supported set is refused with its text and
/// location. `None` where the compiler stops short: no open function, a
/// missing or non-function type, a branch out of range, an integer operator
/// or table operator it does not handle, an index too large to count past.
pub open spec fn op_outcome(o: OptionsV, s: CompilerV, op: WasmOp, text: Seq<char>, location: nat) -> Option<
    (CompilerV, Result<(), ErrV>),
> {
    let refused = Err(ErrV::UnsupportedOperator { op: text, location: location as usize });
    if s.control_stack.len() == 0 {
        if op is Other && !debugged(o, op) {
            Some((s, refused))
        } else {
            None
        }
    } else {
        let s1 = debug_step(o, s, op, text, location);
        if op is Other {
            Some((s1, refused))
        } else if is_control(op) {
            control_outcome(o.module_name, s1, op, location)
        } else if is_numeric(op) {
            match numeric_blocks(op) {
                Some(Ok(b)) => Some((emit(s1, b), Ok(()))),
                Some(Err(e)) => Some((s1, Err(e))),
                None => None,
            }
        } else {
            match plain_blocks(s1, op) {
                Some(b) => Some((emit(s1, b), Ok(()))),
                None => None,
            }
        }
    }
}

/// Whether `control_outcome` succeeds depends on the control stack alone.
proof fn lemma_control_some(m: Option<Seq<char>>, s: CompilerV, t: CompilerV, op: WasmOp, location: nat)
    requires
        s.control_stack == t.control_stack,
    ensures
        (control_outcome(m, s, op, location) is Some) == (control_outcome(m, t, op, location) is Some),
{
}

/// Calls the debugger before an operator, if the options ask for it.
fn handle_debugger_call(compiler: &mut DFWasmCompiler, operator: &WasmOp, text: &str, location: usize)
    requires
        wf(old(compiler)@),
        old(compiler).control_stack@.len() > 0,
    ensures
        final(compiler)@ == debug_step(old(compiler).options@, old(compiler)@, *operator, text@, location as nat),
        wf(final(compiler)@),
        final(compiler).options == old(compiler).options,
        final(compiler).wasm == old(compiler).wasm,
{
    if !compiler.options.debugger {
        return;
    }
    if matches!(operator, WasmOp::Nop) && compiler.options.skip_nop_debugger {
        return;
    }
    if matches!(operator, WasmOp::Block | WasmOp::Loop) {
        return;
    }
    let ghost s0 = compiler@;
    let template = compiler.get_current_template();
    let ghost t0 = template@;
    let name = template.get_name().unwrap();
    let mut loc: Vec<char> = Vec::new();
    push_str(&mut loc, "0x");
    let digits = pad_chars_left(&hex_chars(location as u64), '0', 4);
    push_chars(&mut loc, &digits);
    let loc = string_of(&loc);
    let mut items: Vec<Item> = Vec::new();
    items.push(string("df_function"));
    items.push(string(name.as_str()));
    items.push(string("location"));
    items.push(string(loc.as_str()));
    items.push(string("next_op"));
    items.push(string(text));
    proof {
        assert(loc@ =~= location_text(location as nat));
        assert(items_view(items@) =~= seq![
            str_v("df_function"@),
            str_v(name@),
            str_v("location"@),
            str_v(location_text(location as nat)),
            str_v("next_op"@),
            str_v(text@),
        ]);
    }
    template.call_function("debug", Args::with(items));
    proof {
        let code = seq![debug_v(name@, location as nat, text@)];
        assert(template@ =~= t0 + code);
        lemma_emit_wf(s0, code);
    }
}

/// Whether a function type is known and is a function type.
fn sig_ok(s: &Vec<RecGroupInfo>, i: u32) -> (r: bool)
    ensures
        r == sig_counts(s@, i as nat) is Some,
{
    if i as usize >= s.len() {
        return false;
    }
    match s[i as usize] {
        RecGroupInfo::Func { .. } => true,
        _ => false,
    }
}

/// Whether the compiler handles an integer operator.
pub(crate) fn int_op_ok(op: IntOp) -> (r: bool)
    ensures
        r == int_op_blocks(op) is Some,
{
    match op {
        IntOp::I64Clz | IntOp::I32Clz | IntOp::I64Ctz | IntOp::I32Ctz | IntOp::I64Popcnt | IntOp::I32Popcnt
        | IntOp::I64RemU => false,
        _ => true,
    }
}

/// Whether an index plus one fits in a `u32`.
fn succ_fits(i: u32) -> (r: bool)
    ensures
        r == (i as nat + 1 <= u32::MAX),
{
    i < u32::MAX
}

/// Whether an operator that only appends to the current template can be compiled.
fn plain_ok(compiler: &DFWasmCompiler, op: &WasmOp) -> (r: bool)
    ensures
        r == plain_blocks(compiler@, *op) is Some,
{
    match op {
        WasmOp::Memory { .. } | WasmOp::MemorySize | WasmOp::MemoryGrow => true,
        WasmOp::Call { function_index } => sig_ok(&compiler.function_to_type_signature, *function_index),
        WasmOp::CallIndirect { type_index, table_index } => sig_ok(&compiler.function_signatures, *type_index)
            && succ_fits(*table_index),
        WasmOp::GlobalGet { global_index } | WasmOp::GlobalSet { global_index } => succ_fits(*global_index),
        WasmOp::Nop | WasmOp::Drop | WasmOp::Select | WasmOp::LocalGet { .. } | WasmOp::LocalSet { .. }
        | WasmOp::LocalTee { .. } | WasmOp::RefNull | WasmOp::RefIsNull | WasmOp::RefFunc { .. }
        | WasmOp::TableFill { .. } | WasmOp::TableGrow { .. } => true,
        WasmOp::TableGet { table } | WasmOp::TableSet { table } | WasmOp::TableSize { table } => succ_fits(*table),
        _ => false,
    }
}

/// Whether an operator is numeric.
fn is_numeric_op(op: &WasmOp) -> (r: bool)
    ensures
        r == is_numeric(*op),
{
    matches!(op, WasmOp::I32Const { .. } | WasmOp::I64Const { .. } | WasmOp::Int { .. } | WasmOp::Float)
}

/// Whether compiling an operator succeeds does not depend on its text.
pub proof fn lemma_outcome_text(o: OptionsV, s: CompilerV, op: WasmOp, a: Seq<char>, b: Seq<char>, location: nat)
    ensures
        (op_outcome(o, s, op, a, location) is Some) == (op_outcome(o, s, op, b, location) is Some),
{
    if s.control_stack.len() > 0 {
        lemma_control_some(
            o.module_name,
            debug_step(o, s, op, a, location),
            debug_step(o, s, op, b, location),
            op,
            location,
        );
    }
}

/// Whether the compiler can compile `operator` in its present state, whatever
/// its text (see [`op_outcome`]).
pub fn operator_ok(compiler: &DFWasmCompiler, operator: &WasmOp, location: usize) -> (r: bool)
    requires
        wf(compiler@),
    ensures
        forall|text: Seq<char>|
            r == #[trigger] op_outcome(compiler.options@, compiler@, *operator, text, location as nat) is Some,
{
    let r = operator_ok_blank(compiler, operator, location);
    proof {
        assert forall|text: Seq<char>|
            r == #[trigger] op_outcome(compiler.options@, compiler@, *operator, text, location as nat) is Some by {
            lemma_outcome_text(compiler.options@, compiler@, *operator, text, Seq::empty(), location as nat);
        }
    }
    r
}

fn operator_ok_blank(compiler: &DFWasmCompiler, operator: &WasmOp, location: usize) -> (r: bool)
    requires
        wf(compiler@),
    ensures
        r == op_outcome(compiler.options@, compiler@, *operator, Seq::empty(), location as nat) is Some,
{
    let ghost o = compiler.options@;
    let ghost s = compiler@;
    let ghost s1 = debug_step(o, s, *operator, Seq::empty(), location as nat);
    let debugged = compiler.options.debugger && !(matches!(operator, WasmOp::Nop)
        && compiler.options.skip_nop_debugger) && !matches!(operator, WasmOp::Block | WasmOp::Loop);
    if compiler.control_stack.len() == 0 {
        return matches!(operator, WasmOp::Other) && !debugged;
    }
    proof {
        lemma_control_some(o.module_name, s, s1, *operator, location as nat);
    }
    match operator {
        WasmOp::Other => true,
        _ => if is_control_op(operator) {
            control_ok(compiler, operator, location)
        } else if is_numeric_op(operator) {
            true
        } else {
            plain_ok(compiler, operator)
        },
    }
}

/// Compiles one operator, whose text is `text`, into the current template,
/// calling the debugger first if the options ask for it (see [`op_outcome`]).
pub fn compile_operator(compiler: &mut DFWasmCompiler, operator: WasmOp, text: &str, location: usize) -> (r: DFWasmResult<()>)
    requires
        wf(old(compiler)@),
        op_outcome(old(compiler).options@, old(compiler)@, operator, text@, location as nat) is Some,
    ensures
        (final(compiler)@, unit_res(r)) == op_outcome(
            old(compiler).options@,
            old(compiler)@,
            operator,
            text@,
            location as nat,
        ).unwrap(),
        wf(final(compiler)@),
        final(compiler).options == old(compiler).options,
        final(compiler).wasm == old(compiler).wasm,
{
    if compiler.control_stack.len() == 0 {
        return Err(DFWasmError::UnsupportedOperator { op: owned(text), location });
    }
    let ghost s0 = compiler@;
    handle_debugger_call(compiler, &operator, text, location);
    let ghost s1 = compiler@;
    proof {
        lemma_control_some(compiler.options@.module_name, s0, s1, operator, location as nat);
    }
    match operator {
        WasmOp::Other => Err(DFWasmError::UnsupportedOperator { op: owned(text), location }),
        WasmOp::Nop | WasmOp::Call { .. } | WasmOp::CallIndirect { .. } | WasmOp::Drop | WasmOp::Select
        | WasmOp::LocalGet { .. } | WasmOp::LocalSet { .. } | WasmOp::LocalTee { .. } | WasmOp::GlobalGet { .. }
        | WasmOp::GlobalSet { .. } => compile_basic_operator(compiler, operator, location),
        WasmOp::Block | WasmOp::Loop | WasmOp::If | WasmOp::Else | WasmOp::End | WasmOp::Br { .. }
        | WasmOp::BrIf { .. } | WasmOp::BrTable { .. } | WasmOp::Return | WasmOp::Unreachable => {
            compile_control_flow_operator(compiler, operator, location)
        },
        WasmOp::RefIsNull | WasmOp::RefNull | WasmOp::RefFunc { .. } | WasmOp::TableFill { .. }
        | WasmOp::TableGet { .. } | WasmOp::TableSet { .. } | WasmOp::TableGrow { .. } | WasmOp::TableSize { .. }
        | WasmOp::TableCopy | WasmOp::TableInit | WasmOp::ElemDrop => compile_table_operator(compiler, operator, location),
        WasmOp::Memory { .. } | WasmOp::MemorySize | WasmOp::MemoryGrow => compile_memory_operator(
            compiler,
            operator,
            location,
        ),
        WasmOp::I32Const { .. } | WasmOp::I64Const { .. } | WasmOp::Int { .. } | WasmOp::Float => {
            compile_numeric_operator(compiler, operator, location)
        },
    }
}

} // verus!
