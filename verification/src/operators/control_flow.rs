//! Structured control flow. Each block, loop and branch of a conditional
//! becomes a hidden function template called from the enclosing one; blocks
//! and loops run inside a repeat so that a branch can leave them, counting in
//! the branch counter how many repeats are still to be left.
use vstd::prelude::*;
use crate::compiler::{CompilerV, ControlStackEntry, DFWasmCompiler, emit, entry_index, lemma_emit_wf, wf};
use crate::df_helper::{
    DF_FUNC_CONTROL_LOOP_CHECK, DF_FUNC_TRAP, DF_VAR_BRANCH_COUNTER, TemplateExt, df_text,
    format_df_number_usize, generate_block_name, generate_conditional_name, generate_loop_name, num, num_v,
    nonzero_test, opt_name, pop_v, popped_into, scoped_name, str_v, string, var, var_v,
};
use crate::error::{DFWasmError, DFWasmResult, ErrV, unit_res};
use crate::operators::memory::{call_v, set_v};
use crate::operators::table::{items1, items2};
use crate::splitter::templates_view;
use crate::template::{
    Args, BlockV, Template, close_repeat_v, close_v, hidden_args, open_repeat_v, open_v, slotted,
};
use crate::text::{dec, hex, hex_chars, push_chars, push_str, string_of, usize_text};
use crate::wasm::WasmOp;

verus! {

/// The number of blocks and loops among the entries.
pub open spec fn count_loops(entries: Seq<ControlStackEntry>) -> nat
    decreases entries.len(),
{
    if entries.len() == 0 {
        0
    } else {
        count_loops(entries.drop_last()) + match entries.last() {
            ControlStackEntry::Block(_) | ControlStackEntry::Loop(_) => 1nat,
            _ => 0nat,
        }
    }
}

/// Leaves `depth` enclosing repeats: skips the rest of the function when there
/// are none, and otherwise sets the branch counter and stops the repeat.
pub open spec fn leave_v(depth: nat) -> Seq<BlockV> {
    if depth == 0 {
        seq![BlockV::Control { args: Seq::empty(), action: "Skip"@ }]
    } else {
        seq![
            set_v("="@, seq![var_v(DF_VAR_BRANCH_COUNTER@), num_v(dec(depth))]),
            BlockV::Control { args: Seq::empty(), action: "StopRepeat"@ },
        ]
    }
}

/// The code of a branch to the construct `depth` entries below the top of the
/// control stack; `None` when there is no such entry or it is not a block or loop.
pub open spec fn branch_blocks(stack: Seq<ControlStackEntry>, depth: nat) -> Option<Seq<BlockV>> {
    if depth >= stack.len() {
        None
    } else {
        let idx = stack.len() - 1 - depth;
        match stack[idx] {
            ControlStackEntry::Block(_) | ControlStackEntry::Loop(_) => Some(
                leave_v(count_loops(stack.subrange(idx + 1, stack.len() as int))),
            ),
            _ => None,
        }
    }
}

/// The cases of a branch table: for the `i`-th target, a branch taken when the
/// index equals `i`.
pub open spec fn br_cases(stack: Seq<ControlStackEntry>, targets: Seq<u32>) -> Option<Seq<BlockV>>
    decreases targets.len(),
{
    if targets.len() == 0 {
        Some(Seq::empty())
    } else {
        let i = (targets.len() - 1) as nat;
        match (br_cases(stack, targets.drop_last()), branch_blocks(stack, targets.last() as nat)) {
            (Some(a), Some(b)) => Some(
                a + seq![
                    BlockV::IfVariable {
                        args: slotted(seq![var_v("$index"@), num_v(df_text(false, i))]),
                        action: "="@,
                        is_negated: false,
                    },
                    open_v(),
                ] + b + seq![close_v()],
            ),
            _ => None,
        }
    }
}

/// `s` with a new hidden function template and a new control stack entry.
pub open spec fn open_construct(s: CompilerV, name: Seq<char>, entry: ControlStackEntry) -> CompilerV {
    CompilerV {
        templates: s.templates.push(seq![BlockV::Function { args: hidden_args(), name }]),
        control_stack: s.control_stack.push(entry),
        ..s
    }
}

/// The text `0x<hex>`.
pub open spec fn hex_text(n: nat) -> Seq<char> {
    "0x"@ + hex(n)
}

/// The effect of a control flow operator, with the module name `m` and at
/// `location`; `None` where the compiler stops short.
pub open spec fn control_outcome(m: Option<Seq<char>>, s: CompilerV, op: WasmOp, location: nat) -> Option<
    (CompilerV, Result<(), ErrV>),
> {
    let n = s.templates.len();
    let stack = s.control_stack;
    if stack.len() == 0 {
        None
    } else {
        match op {
            WasmOp::Block => {
                let name = scoped_name(m, "block"@, n);
                let code = seq![
                    BlockV::Repeat { args: slotted(seq![num_v("1"@)]), action: "Multiple"@, sub_action: None, is_negated: false },
                    open_repeat_v(),
                    call_v(DF_FUNC_CONTROL_LOOP_CHECK@, Seq::empty()),
                    call_v(name, Seq::empty()),
                    close_repeat_v(),
                    call_v(DF_FUNC_CONTROL_LOOP_CHECK@, Seq::empty()),
                ];
                Some((open_construct(emit(s, code), name, ControlStackEntry::Block(n as usize)), Ok(())))
            },
            WasmOp::Loop => {
                let name = scoped_name(m, "loop"@, n);
                let code = seq![
                    BlockV::Repeat { args: Seq::empty(), action: "Forever"@, sub_action: None, is_negated: false },
                    open_repeat_v(),
                    call_v(DF_FUNC_CONTROL_LOOP_CHECK@, Seq::empty()),
                    call_v(name, Seq::empty()),
                    BlockV::Control { args: Seq::empty(), action: "StopRepeat"@ },
                    close_repeat_v(),
                    call_v(DF_FUNC_CONTROL_LOOP_CHECK@, Seq::empty()),
                ];
                Some((open_construct(emit(s, code), name, ControlStackEntry::Loop(n as usize)), Ok(())))
            },
            WasmOp::If => {
                let name = scoped_name(m, "if"@, n);
                let code = seq![
                    pop_v(var_v("$a"@)),
                    BlockV::IfVariable { args: slotted(seq![var_v("$a"@), num_v("0"@)]), action: "!="@, is_negated: false },
                    open_v(),
                    call_v(name, Seq::empty()),
                    close_v(),
                ];
                Some((open_construct(emit(s, code), name, ControlStackEntry::If(n as usize)), Ok(())))
            },
            WasmOp::Else => if stack.len() < 2 {
                None
            } else {
                let name = scoped_name(m, "if"@, n);
                let s1 = CompilerV { control_stack: stack.drop_last(), ..s };
                let code = seq![BlockV::Else, open_v(), call_v(name, Seq::empty()), close_v()];
                Some((open_construct(emit(s1, code), name, ControlStackEntry::Else(n as usize)), Ok(())))
            },
            WasmOp::End => Some((CompilerV { control_stack: stack.drop_last(), ..s }, Ok(()))),
            WasmOp::Br { relative_depth } => match branch_blocks(stack, relative_depth as nat) {
                Some(b) => Some((emit(s, b), Ok(()))),
                None => None,
            },
            WasmOp::BrIf { relative_depth } => match branch_blocks(stack, relative_depth as nat) {
                Some(b) => Some((
                    emit(
                        s,
                        seq![
                            pop_v(var_v("$cond"@)),
                            BlockV::IfVariable {
                                args: slotted(seq![var_v("$cond"@), num_v("0"@)]),
                                action: "!="@,
                                is_negated: false,
                            },
                            open_v(),
                        ] + b + seq![close_v()],
                    ),
                    Ok(()),
                )),
                None => None,
            },
            WasmOp::BrTable { targets, error, default } => match br_cases(stack, targets@) {
                Some(cases) => match error {
                    Some(e) => Some((emit(s, seq![pop_v(var_v("$index"@))] + cases), Err(ErrV::ReadError(e)))),
                    None => match branch_blocks(stack, default as nat) {
                        Some(d) => Some((emit(s, seq![pop_v(var_v("$index"@))] + cases + d), Ok(()))),
                        None => None,
                    },
                },
                None => None,
            },
            WasmOp::Return => Some((emit(s, leave_v(count_loops(stack))), Ok(()))),
            WasmOp::Unreachable => Some((
                emit(s, seq![call_v(DF_FUNC_TRAP@, seq![str_v("unreachable"@), str_v(hex_text(location))])]),
                Ok(()),
            )),
            _ => None,
        }
    }
}

/// Whether the entry is a block or a loop.
fn is_loop_like(e: &ControlStackEntry) -> (r: bool)
    ensures
        r == (*e is Block || *e is Loop),
{
    match e {
        ControlStackEntry::Block(_) | ControlStackEntry::Loop(_) => true,
        _ => false,
    }
}

/// The number of blocks and loops among the entries from `from` on.
fn count_loops_from(stack: &Vec<ControlStackEntry>, from: usize) -> (r: usize)
    requires
        from <= stack@.len(),
    ensures
        r == count_loops(stack@.subrange(from as int, stack@.len() as int)),
{
    let mut c: usize = 0;
    let mut i: usize = from;
    while i < stack.len()
        invariant
            from <= i <= stack@.len(),
            c == count_loops(stack@.subrange(from as int, i as int)),
            c <= i - from,
        decreases stack.len() - i,
    {
        assert(stack@.subrange(from as int, i + 1).drop_last() =~= stack@.subrange(from as int, i as int));
        if is_loop_like(&stack[i]) {
            c = c + 1;
        }
        i = i + 1;
    }
    c
}

/// Whether a branch to `depth` entries below the top is possible.
pub fn branch_ok(stack: &Vec<ControlStackEntry>, depth: u32) -> (r: bool)
    ensures
        r == branch_blocks(stack@, depth as nat) is Some,
{
    if depth as usize >= stack.len() {
        return false;
    }
    is_loop_like(&stack[stack.len() - 1 - depth as usize])
}

fn compile_leave(template: &mut Template, depth: usize)
    ensures
        final(template)@ == old(template)@ + leave_v(depth as nat),
{
    let ghost t0 = template@;
    if depth == 0 {
        template.control("Skip", Args::default());
    } else {
        template.set_var("=", items2(var(DF_VAR_BRANCH_COUNTER), num(usize_text(depth).as_str()))).control(
            "StopRepeat",
            Args::default(),
        );
    }
    assert(template@ =~= t0 + leave_v(depth as nat));
}

/// Compiles a branch to the construct `relative_control_stack_depth` entries
/// below the top of the control stack, into the current template.
fn compile_branch_operator(compiler: &mut DFWasmCompiler, relative_control_stack_depth: u32)
    requires
        wf(old(compiler)@),
        old(compiler).control_stack@.len() > 0,
        branch_blocks(old(compiler).control_stack@, relative_control_stack_depth as nat) is Some,
    ensures
        final(compiler)@ == emit(
            old(compiler)@,
            branch_blocks(old(compiler).control_stack@, relative_control_stack_depth as nat).unwrap(),
        ),
        wf(final(compiler)@),
        final(compiler).options == old(compiler).options,
        final(compiler).wasm == old(compiler).wasm,
{
    let ghost s0 = compiler@;
    let control_stack_idx = compiler.control_stack.len() - 1 - relative_control_stack_depth as usize;
    let loop_depth = count_loops_from(&compiler.control_stack, control_stack_idx + 1);
    let template = compiler.get_current_template();
    let ghost t0 = template@;
    compile_leave(template, loop_depth);
    proof {
        lemma_emit_wf(s0, branch_blocks(s0.control_stack, relative_control_stack_depth as nat).unwrap());
    }
}

/// Whether every target of a branch table can be branched to.
fn br_cases_ok(stack: &Vec<ControlStackEntry>, targets: &Vec<u32>) -> (r: bool)
    ensures
        r == br_cases(stack@, targets@) is Some,
{
    let mut i: usize = 0;
    while i < targets.len()
        invariant
            i <= targets@.len(),
            br_cases(stack@, targets@.subrange(0, i as int)) is Some,
        decreases targets.len() - i,
    {
        assert(targets@.subrange(0, i + 1).drop_last() =~= targets@.subrange(0, i as int));
        if !branch_ok(stack, targets[i]) {
            proof {
                lemma_br_cases_prefix(stack@, targets@, i as int + 1);
            }
            return false;
        }
        i = i + 1;
    }
    assert(targets@.subrange(0, targets@.len() as int) =~= targets@);
    true
}

/// When a prefix of the targets cannot be branched to, neither can all of them.
proof fn lemma_br_cases_prefix(stack: Seq<ControlStackEntry>, targets: Seq<u32>, k: int)
    requires
        0 <= k <= targets.len(),
        br_cases(stack, targets.subrange(0, k)) is None,
    ensures
        br_cases(stack, targets) is None,
    decreases targets.len() - k,
{
    if k < targets.len() {
        assert(targets.subrange(0, k + 1).drop_last() =~= targets.subrange(0, k));
        lemma_br_cases_prefix(stack, targets, k + 1);
    } else {
        assert(targets.subrange(0, k) =~= targets);
    }
}

/// Whether a control flow operator can be compiled (see [`control_outcome`]).
pub fn control_ok(compiler: &DFWasmCompiler, operator: &WasmOp, location: usize) -> (r: bool)
    ensures
        r == (!is_control(*operator) || control_outcome(compiler.options@.module_name, compiler@, *operator, location as nat) is Some),
{
    if !is_control_op(operator) {
        return true;
    }
    if compiler.control_stack.len() == 0 {
        return false;
    }
    match operator {
        WasmOp::Else => compiler.control_stack.len() >= 2,
        WasmOp::Br { relative_depth } | WasmOp::BrIf { relative_depth } => branch_ok(
            &compiler.control_stack,
            *relative_depth,
        ),
        WasmOp::BrTable { targets, error, default } => {
            br_cases_ok(&compiler.control_stack, targets) && (error.is_some() || branch_ok(
                &compiler.control_stack,
                *default,
            ))
        },
        _ => true,
    }
}

/// Whether an operator is a control flow operator.
pub open spec fn is_control(op: WasmOp) -> bool {
    match op {
        WasmOp::Block | WasmOp::Loop | WasmOp::If | WasmOp::Else | WasmOp::End | WasmOp::Br { .. }
        | WasmOp::BrIf { .. } | WasmOp::BrTable { .. } | WasmOp::Return | WasmOp::Unreachable => true,
        _ => false,
    }
}

/// Whether an operator is a control flow operator.
pub fn is_control_op(op: &WasmOp) -> (r: bool)
    ensures
        r == is_control(*op),
{
    match op {
        WasmOp::Block | WasmOp::Loop | WasmOp::If | WasmOp::Else | WasmOp::End | WasmOp::Br { .. }
        | WasmOp::BrIf { .. } | WasmOp::BrTable { .. } | WasmOp::Return | WasmOp::Unreachable => true,
        _ => false,
    }
}

/// Adds a hidden function template and its control stack entry.
fn open_new(compiler: &mut DFWasmCompiler, name: &str, entry: ControlStackEntry)
    requires
        wf(old(compiler)@),
        entry_index(entry) == old(compiler).templates@.len(),
    ensures
        final(compiler)@ == open_construct(old(compiler)@, name@, entry),
        wf(final(compiler)@),
        final(compiler).options == old(compiler).options,
        final(compiler).wasm == old(compiler).wasm,
{
    let ghost s0 = compiler@;
    compiler.templates.push(Template::start_function_hidden(name));
    compiler.control_stack.push(entry);
    proof {
        assert(templates_view(compiler.templates@) =~= s0.templates.push(
            seq![BlockV::Function { args: hidden_args(), name: name@ }],
        ));
        let e = compiler@;
        assert forall|i: int| 0 <= i < e.templates.len() implies #[trigger] crate::template::template_name(e.templates[i]) is Some by {
            if i < s0.templates.len() {
                assert(crate::template::template_name(s0.templates[i]) is Some);
            }
        }
        assert forall|i: int| 0 <= i < e.control_stack.len() implies entry_index(#[trigger] e.control_stack[i]) < e.templates.len() by {
            if i < s0.control_stack.len() {
                assert(entry_index(s0.control_stack[i]) < s0.templates.len());
            }
        }
    }
}

/// Removes the top entry of the control stack.
fn pop_control(compiler: &mut DFWasmCompiler)
    requires
        wf(old(compiler)@),
        old(compiler).control_stack@.len() > 0,
    ensures
        final(compiler)@ == (CompilerV { control_stack: old(compiler)@.control_stack.drop_last(), ..old(compiler)@ }),
        wf(final(compiler)@),
        final(compiler).options == old(compiler).options,
        final(compiler).wasm == old(compiler).wasm,
{
    let ghost s0 = compiler@;
    compiler.control_stack.pop();
    proof {
        let e = compiler@;
        assert forall|i: int| 0 <= i < e.control_stack.len() implies entry_index(#[trigger] e.control_stack[i]) < e.templates.len() by {
            assert(e.control_stack[i] == s0.control_stack[i]);
        }
    }
}

/// The module name as a string slice.
pub fn module_name_str(name: &Option<String>) -> (r: Option<&str>)
    ensures
        opt_name(r) == crate::template::opt_text(*name),
{
    match name {
        Some(s) => Some(s.as_str()),
        None => None,
    }
}

/// The requirement and effect shared by the compilers of single control flow operators.
pub open spec fn control_effect(old_c: CompilerV, m: Option<Seq<char>>, operator: WasmOp, location: nat, new_c: CompilerV, r: DFWasmResult<()>) -> bool {
    let (s2, res) = control_outcome(m, old_c, operator, location).unwrap();
    new_c == s2 && unit_res(r) == res
}

fn compile_block(compiler: &mut DFWasmCompiler, operator: WasmOp, location: usize) -> (r: DFWasmResult<()>)
    requires
        wf(old(compiler)@),
        operator is Block,
        control_outcome(old(compiler).options@.module_name, old(compiler)@, operator, location as nat) is Some,
    ensures
        control_effect(old(compiler)@, old(compiler).options@.module_name, operator, location as nat, final(compiler)@, r),
        wf(final(compiler)@),
        final(compiler).options == old(compiler).options,
        final(compiler).wasm == old(compiler).wasm,
{
    let ghost s0 = compiler@;
    let templates_len = compiler.templates.len();
            let name = generate_block_name(templates_len, module_name_str(&compiler.options.module_name));
            let template = compiler.get_current_template();
            let ghost t0 = template@;
            template.repeat("Multiple", items1(num("1"))).open_bracket_repeat().call_function(
                DF_FUNC_CONTROL_LOOP_CHECK,
                Args::default(),
            ).call_function(name.as_str(), Args::default()).close_bracket_repeat().call_function(
                DF_FUNC_CONTROL_LOOP_CHECK,
                Args::default(),
            );
            let ghost code = seq![
                BlockV::Repeat { args: slotted(seq![num_v("1"@)]), action: "Multiple"@, sub_action: None, is_negated: false },
                open_repeat_v(),
                call_v(DF_FUNC_CONTROL_LOOP_CHECK@, Seq::empty()),
                call_v(name@, Seq::empty()),
                close_repeat_v(),
                call_v(DF_FUNC_CONTROL_LOOP_CHECK@, Seq::empty()),
            ];
            proof {
                assert(slotted(Seq::<crate::template::ItemV>::empty()) =~= Seq::empty());
                assert(template@ =~= t0 + code);
                lemma_emit_wf(s0, code);
            }
            open_new(compiler, name.as_str(), ControlStackEntry::Block(templates_len));
            Ok(())
}

fn compile_loop(compiler: &mut DFWasmCompiler, operator: WasmOp, location: usize) -> (r: DFWasmResult<()>)
    requires
        wf(old(compiler)@),
        operator is Loop,
        control_outcome(old(compiler).options@.module_name, old(compiler)@, operator, location as nat) is Some,
    ensures
        control_effect(old(compiler)@, old(compiler).options@.module_name, operator, location as nat, final(compiler)@, r),
        wf(final(compiler)@),
        final(compiler).options == old(compiler).options,
        final(compiler).wasm == old(compiler).wasm,
{
    let ghost s0 = compiler@;
    let templates_len = compiler.templates.len();
            let name = generate_loop_name(templates_len, module_name_str(&compiler.options.module_name));
            let template = compiler.get_current_template();
            let ghost t0 = template@;
            template.repeat("Forever", Args::default()).open_bracket_repeat().call_function(
                DF_FUNC_CONTROL_LOOP_CHECK,
                Args::default(),
            ).call_function(name.as_str(), Args::default()).control("StopRepeat", Args::default()).close_bracket_repeat().call_function(
                DF_FUNC_CONTROL_LOOP_CHECK,
                Args::default(),
            );
            let ghost code = seq![
                BlockV::Repeat { args: Seq::empty(), action: "Forever"@, sub_action: None, is_negated: false },
                open_repeat_v(),
                call_v(DF_FUNC_CONTROL_LOOP_CHECK@, Seq::empty()),
                call_v(name@, Seq::empty()),
                BlockV::Control { args: Seq::empty(), action: "StopRepeat"@ },
                close_repeat_v(),
                call_v(DF_FUNC_CONTROL_LOOP_CHECK@, Seq::empty()),
            ];
            proof {
                assert(slotted(Seq::<crate::template::ItemV>::empty()) =~= Seq::empty());
                assert(template@ =~= t0 + code);
                lemma_emit_wf(s0, code);
            }
            open_new(compiler, name.as_str(), ControlStackEntry::Loop(templates_len));
            Ok(())
}

fn compile_if(compiler: &mut DFWasmCompiler, operator: WasmOp, location: usize) -> (r: DFWasmResult<()>)
    requires
        wf(old(compiler)@),
        operator is If,
        control_outcome(old(compiler).options@.module_name, old(compiler)@, operator, location as nat) is Some,
    ensures
        control_effect(old(compiler)@, old(compiler).options@.module_name, operator, location as nat, final(compiler)@, r),
        wf(final(compiler)@),
        final(compiler).options == old(compiler).options,
        final(compiler).wasm == old(compiler).wasm,
{
    let ghost s0 = compiler@;
    let templates_len = compiler.templates.len();
            let name = generate_conditional_name(templates_len, module_name_str(&compiler.options.module_name));
            let template = compiler.get_current_template();
            let ghost t0 = template@;
            template.pop_op_stack(var("$a")).if_var("!=", items2(var("$a"), num("0"))).open_bracket().call_function(
                name.as_str(),
                Args::default(),
            ).close_bracket();
            let ghost code = seq![
                pop_v(var_v("$a"@)),
                BlockV::IfVariable { args: slotted(seq![var_v("$a"@), num_v("0"@)]), action: "!="@, is_negated: false },
                open_v(),
                call_v(name@, Seq::empty()),
                close_v(),
            ];
            proof {
                assert(slotted(Seq::<crate::template::ItemV>::empty()) =~= Seq::empty());
                assert(template@ =~= t0 + code);
                lemma_emit_wf(s0, code);
            }
            open_new(compiler, name.as_str(), ControlStackEntry::If(templates_len));
            Ok(())
}

fn compile_else(compiler: &mut DFWasmCompiler, operator: WasmOp, location: usize) -> (r: DFWasmResult<()>)
    requires
        wf(old(compiler)@),
        operator is Else,
        control_outcome(old(compiler).options@.module_name, old(compiler)@, operator, location as nat) is Some,
    ensures
        control_effect(old(compiler)@, old(compiler).options@.module_name, operator, location as nat, final(compiler)@, r),
        wf(final(compiler)@),
        final(compiler).options == old(compiler).options,
        final(compiler).wasm == old(compiler).wasm,
{
    let ghost s0 = compiler@;
    let templates_len = compiler.templates.len();
            pop_control(compiler);
            let ghost s1 = compiler@;
            let name = generate_conditional_name(templates_len, module_name_str(&compiler.options.module_name));
            let template = compiler.get_current_template();
            let ghost t0 = template@;
            template.else_block().open_bracket().call_function(name.as_str(), Args::default()).close_bracket();
            let ghost code = seq![BlockV::Else, open_v(), call_v(name@, Seq::empty()), close_v()];
            proof {
                assert(slotted(Seq::<crate::template::ItemV>::empty()) =~= Seq::empty());
                assert(template@ =~= t0 + code);
                lemma_emit_wf(s1, code);
            }
            open_new(compiler, name.as_str(), ControlStackEntry::Else(templates_len));
            Ok(())
}

fn compile_br_if(compiler: &mut DFWasmCompiler, operator: WasmOp, location: usize) -> (r: DFWasmResult<()>)
    requires
        wf(old(compiler)@),
        operator is BrIf,
        control_outcome(old(compiler).options@.module_name, old(compiler)@, operator, location as nat) is Some,
    ensures
        control_effect(old(compiler)@, old(compiler).options@.module_name, operator, location as nat, final(compiler)@, r),
        wf(final(compiler)@),
        final(compiler).options == old(compiler).options,
        final(compiler).wasm == old(compiler).wasm,
{
    let ghost s0 = compiler@;
    match operator {
        WasmOp::BrIf { relative_depth } => {
            let template = compiler.get_current_template();
            let ghost t0 = template@;
            template.pop_op_stack(var("$cond")).if_var("!=", items2(var("$cond"), num("0"))).open_bracket();
            let ghost head = seq![
                pop_v(var_v("$cond"@)),
                BlockV::IfVariable { args: slotted(seq![var_v("$cond"@), num_v("0"@)]), action: "!="@, is_negated: false },
                open_v(),
            ];
            proof {
                assert(template@ =~= t0 + head);
                lemma_emit_wf(s0, head);
            }
            compile_branch_operator(compiler, relative_depth);
            let template = compiler.get_current_template();
            let ghost t1 = template@;
            template.close_bracket();
            proof {
                assert(template@ =~= t1 + seq![close_v()]);
                let b = branch_blocks(s0.control_stack, relative_depth as nat).unwrap();
                lemma_emit_emit(s0, head, b);
                lemma_emit_emit(s0, head + b, seq![close_v()]);
                lemma_emit_wf(emit(s0, head + b), seq![close_v()]);
            }
            Ok(())
        },
        _ => Ok(()),
    }
}

fn compile_br_table(compiler: &mut DFWasmCompiler, operator: WasmOp, location: usize) -> (r: DFWasmResult<()>)
    requires
        wf(old(compiler)@),
        operator is BrTable,
        control_outcome(old(compiler).options@.module_name, old(compiler)@, operator, location as nat) is Some,
    ensures
        control_effect(old(compiler)@, old(compiler).options@.module_name, operator, location as nat, final(compiler)@, r),
        wf(final(compiler)@),
        final(compiler).options == old(compiler).options,
        final(compiler).wasm == old(compiler).wasm,
{
    let ghost s0 = compiler@;
    match operator {
        WasmOp::BrTable { targets, error, default } => {
            let template = compiler.get_current_template();
            let ghost t0 = template@;
            template.pop_op_stack(var("$index"));
            let ghost pre = seq![pop_v(var_v("$index"@))];
            proof {
                assert(template@ =~= t0 + pre);
                lemma_emit_wf(s0, pre);
            }
            let mut i: usize = 0;
            while i < targets.len()
                invariant
                    i <= targets@.len(),
                    wf(compiler@),
                    compiler.options == old(compiler).options,
                    compiler.wasm == old(compiler).wasm,
                    compiler@.control_stack == s0.control_stack,
                    s0.control_stack.len() > 0,
                    wf(s0),
                    br_cases(s0.control_stack, targets@) is Some,
                    br_cases(s0.control_stack, targets@.subrange(0, i as int)) is Some,
                    compiler@ == emit(s0, pre + br_cases(s0.control_stack, targets@.subrange(0, i as int)).unwrap()),
                decreases targets.len() - i,
            {
                let ghost si = compiler@;
                let ghost prev = br_cases(s0.control_stack, targets@.subrange(0, i as int)).unwrap();
                proof {
                    assert(targets@.subrange(0, i + 1).drop_last() =~= targets@.subrange(0, i as int));
                    lemma_br_cases_some_prefix(s0.control_stack, targets@, i as int + 1);
                }
                let template = compiler.get_current_template();
                let ghost ti = template@;
                let idx_text = format_df_number_usize(i);
                template.if_var("=", items2(var("$index"), num(idx_text.as_str()))).open_bracket();
                let ghost head = seq![
                    BlockV::IfVariable { args: slotted(seq![var_v("$index"@), num_v(df_text(false, i as nat))]), action: "="@, is_negated: false },
                    open_v(),
                ];
                proof {
                    assert(template@ =~= ti + head);
                    lemma_emit_wf(si, head);
                    lemma_emit_emit(s0, pre + prev, head);
                }
                compile_branch_operator(compiler, targets[i]);
                let template = compiler.get_current_template();
                let ghost tc = template@;
                template.close_bracket();
                proof {
                    assert(template@ =~= tc + seq![close_v()]);
                    let b = branch_blocks(s0.control_stack, targets@[i as int] as nat).unwrap();
                    lemma_emit_emit(s0, pre + prev + head, b);
                    lemma_emit_emit(s0, pre + prev + head + b, seq![close_v()]);
                    let cases = br_cases(s0.control_stack, targets@.subrange(0, i + 1)).unwrap();
                    assert(pre + prev + head + b + seq![close_v()] =~= pre + cases);
                    lemma_emit_wf(emit(s0, pre + prev + head + b), seq![close_v()]);
                }
                i = i + 1;
            }
            assert(targets@.subrange(0, targets@.len() as int) =~= targets@);
            match error {
                Some(e) => {
                    return Err(DFWasmError::ReadError(e));
                },
                None => {},
            }
            let ghost s3 = compiler@;
            compile_branch_operator(compiler, default);
            proof {
                let cases = br_cases(s0.control_stack, targets@).unwrap();
                let d = branch_blocks(s0.control_stack, default as nat).unwrap();
                lemma_emit_emit(s0, pre + cases, d);
            }
            Ok(())
        },
        _ => Ok(()),
    }
}

/// Compiles a control flow operator (see [`control_outcome`]).
pub fn compile_control_flow_operator(compiler: &mut DFWasmCompiler, operator: WasmOp, location: usize) -> (r: DFWasmResult<()>)
    requires
        wf(old(compiler)@),
        control_outcome(old(compiler).options@.module_name, old(compiler)@, operator, location as nat) is Some,
    ensures
        control_effect(old(compiler)@, old(compiler).options@.module_name, operator, location as nat, final(compiler)@, r),
        wf(final(compiler)@),
        final(compiler).options == old(compiler).options,
        final(compiler).wasm == old(compiler).wasm,
{
    let ghost s0 = compiler@;
    match operator {
        WasmOp::Block => compile_block(compiler, operator, location),
        WasmOp::Loop => compile_loop(compiler, operator, location),
        WasmOp::If => compile_if(compiler, operator, location),
        WasmOp::Else => compile_else(compiler, operator, location),
        WasmOp::End => {
            pop_control(compiler);
            Ok(())
        },
        WasmOp::Br { relative_depth } => {
            compile_branch_operator(compiler, relative_depth);
            Ok(())
        },
        WasmOp::BrIf { .. } => compile_br_if(compiler, operator, location),
        WasmOp::BrTable { .. } => compile_br_table(compiler, operator, location),
        WasmOp::Return => {
            let loop_depth = count_loops_from(&compiler.control_stack, 0);
            assert(compiler.control_stack@.subrange(0, compiler.control_stack@.len() as int) =~= compiler.control_stack@);
            let template = compiler.get_current_template();
            compile_leave(template, loop_depth);
            proof {
                lemma_emit_wf(s0, leave_v(count_loops(s0.control_stack)));
            }
            Ok(())
        },
        WasmOp::Unreachable => {
            let mut text: Vec<char> = Vec::new();
            push_str(&mut text, "0x");
            let h = hex_chars(location as u64);
            push_chars(&mut text, &h);
            let text = string_of(&text);
            let template = compiler.get_current_template();
            let ghost t0 = template@;
            template.call_function(DF_FUNC_TRAP, items2(string("unreachable"), string(text.as_str())));
            let ghost code = seq![call_v(DF_FUNC_TRAP@, seq![str_v("unreachable"@), str_v(hex_text(location as nat))])];
            proof {
                assert(template@ =~= t0 + code);
                lemma_emit_wf(s0, code);
            }
            Ok(())
        },
        _ => Ok(()),
    }
}

/// Appending twice appends the concatenation.
pub proof fn lemma_emit_emit(s: CompilerV, a: Seq<BlockV>, b: Seq<BlockV>)
    requires
        wf(s),
        s.control_stack.len() > 0,
    ensures
        emit(emit(s, a), b) == emit(s, a + b),
{
    lemma_emit_wf(s, a);
    let e = emit(s, a);
    let idx = crate::compiler::cur_idx(s) as int;
    assert(entry_index(s.control_stack[s.control_stack.len() - 1]) < s.templates.len());
    assert(cur_idx_same(s, e));
    assert(s.templates[idx] + a + b =~= s.templates[idx] + (a + b));
    assert(emit(emit(s, a), b).templates =~= emit(s, a + b).templates);
}

/// Appending keeps the current template index.
pub open spec fn cur_idx_same(s: CompilerV, e: CompilerV) -> bool {
    crate::compiler::cur_idx(s) == crate::compiler::cur_idx(e)
}

/// A prefix of targets that can be branched to extends to the next target
/// whenever all targets can.
proof fn lemma_br_cases_some_prefix(stack: Seq<ControlStackEntry>, targets: Seq<u32>, k: int)
    requires
        0 <= k <= targets.len(),
        br_cases(stack, targets) is Some,
    ensures
        br_cases(stack, targets.subrange(0, k)) is Some,
    decreases targets.len() - k,
{
    if k < targets.len() {
        lemma_br_cases_some_prefix(stack, targets, k + 1);
        assert(targets.subrange(0, k + 1).drop_last() =~= targets.subrange(0, k));
    } else {
        assert(targets.subrange(0, k) =~= targets);
    }
}

/// `br_if` branches exactly when its condition is not zero: it compiles
/// wherever `br` with the same depth does, and its code pops the condition
/// into a variable and then, under a test that the variable is not 0, runs
/// the code of that `br`.
pub proof fn lemma_br_if_is_br_when_nonzero(m: Option<Seq<char>>, s: CompilerV, depth: u32, location: nat)
    ensures
        control_outcome(m, s, WasmOp::BrIf { relative_depth: depth }, location) is Some
            <==> control_outcome(m, s, WasmOp::Br { relative_depth: depth }, location) is Some,
        control_outcome(m, s, WasmOp::Br { relative_depth: depth }, location) matches Some((s_br, r_br)) ==> exists|
            b: Seq<BlockV>,
            x: BlockV,
            t: BlockV,
        |
            #![trigger emit(s, b), popped_into(x), nonzero_test(t)]
            {
                &&& popped_into(x) is Some
                &&& nonzero_test(t) == popped_into(x)
                &&& s_br == emit(s, b) && r_br is Ok
                &&& control_outcome(m, s, WasmOp::BrIf { relative_depth: depth }, location) == Some(
                    (emit(s, seq![x, t, open_v()] + b + seq![close_v()]), Ok::<(), ErrV>(())),
                )
            },
{
    reveal_strlit("$cond");
    reveal_strlit("0");
    if control_outcome(m, s, WasmOp::Br { relative_depth: depth }, location) is Some {
        let b = branch_blocks(s.control_stack, depth as nat).unwrap();
        let x = pop_v(var_v("$cond"@));
        let t = BlockV::IfVariable { args: slotted(seq![var_v("$cond"@), num_v("0"@)]), action: "!="@, is_negated: false };
        assert(popped_into(x) == Some("$cond"@));
        assert(nonzero_test(t) == Some("$cond"@));
        assert(emit(s, b) == emit(s, b));
    }
}

/// `if` runs its body exactly when its condition is not zero: where the
/// control stack is not empty, its code pops the condition into a variable
/// and, under a test that the variable is not 0, calls the function whose
/// template the `if` opens for its body (named after the number of templates
/// so far); the `if` is entered on the control stack with that template.
pub proof fn lemma_if_runs_body_when_nonzero(m: Option<Seq<char>>, s: CompilerV, location: nat)
    requires
        s.control_stack.len() > 0,
    ensures
        ({
            let name = scoped_name(m, "if"@, s.templates.len());
            exists|x: BlockV, t: BlockV|
                #![trigger popped_into(x), nonzero_test(t)]
                {
                    &&& popped_into(x) is Some
                    &&& nonzero_test(t) == popped_into(x)
                    &&& control_outcome(m, s, WasmOp::If, location) == Some(
                        (
                            open_construct(
                                emit(s, seq![x, t, open_v(), call_v(name, Seq::empty()), close_v()]),
                                name,
                                ControlStackEntry::If(s.templates.len() as usize),
                            ),
                            Ok::<(), ErrV>(()),
                        ),
                    )
                }
        }),
{
    reveal_strlit("$a");
    reveal_strlit("0");
    let x = pop_v(var_v("$a"@));
    let t = BlockV::IfVariable { args: slotted(seq![var_v("$a"@), num_v("0"@)]), action: "!="@, is_negated: false };
    assert(popped_into(x) == Some("$a"@));
    assert(nonzero_test(t) == Some("$a"@));
}

/// The code of a branch table case: under a test that the variable `v` equals
/// `k`, the branch code `b`.
pub open spec fn table_case(v: Seq<char>, k: nat, b: Seq<BlockV>) -> Seq<BlockV> {
    seq![
        BlockV::IfVariable {
            args: slotted(seq![var_v(v), num_v(df_text(false, k))]),
            action: "="@,
            is_negated: false,
        },
        open_v(),
    ] + b + seq![close_v()]
}

/// Whether `part` stands in `c` from position `p` on.
pub open spec fn stands_at(c: Seq<BlockV>, p: int, part: Seq<BlockV>) -> bool {
    0 <= p && p + part.len() <= c.len() && c.subrange(p, p + part.len()) == part
}

proof fn lemma_br_cases_hold(stack: Seq<ControlStackEntry>, targets: Seq<u32>)
    requires
        br_cases(stack, targets) is Some,
    ensures
        forall|k: int|
            #![trigger targets[k]]
            0 <= k < targets.len() ==> branch_blocks(stack, targets[k] as nat) is Some && exists|p: int|
                #[trigger] stands_at(
                    br_cases(stack, targets).unwrap(),
                    p,
                    table_case("$index"@, k as nat, branch_blocks(stack, targets[k] as nat).unwrap()),
                ),
    decreases targets.len(),
{
    if targets.len() > 0 {
        let t0 = targets.drop_last();
        lemma_br_cases_hold(stack, t0);
        let a = br_cases(stack, t0).unwrap();
        let last = (targets.len() - 1) as nat;
        let b = branch_blocks(stack, targets.last() as nat).unwrap();
        let c = br_cases(stack, targets).unwrap();
        assert(c == a + table_case("$index"@, last, b));
        assert forall|k: int| 0 <= k < targets.len() implies branch_blocks(stack, targets[k] as nat) is Some
            && exists|p: int|
            #[trigger] stands_at(c, p, table_case("$index"@, k as nat, branch_blocks(stack, targets[k] as nat).unwrap())) by {
            if k == targets.len() - 1 {
                let part = table_case("$index"@, last, b);
                assert(c.subrange(a.len() as int, (a.len() + part.len()) as int) =~= part);
                assert(stands_at(c, a.len() as int, part));
            } else {
                assert(t0[k] == targets[k]);
                let part = table_case("$index"@, k as nat, branch_blocks(stack, targets[k] as nat).unwrap());
                let p = choose|p: int| stands_at(a, p, part);
                assert(stands_at(a, p, part));
                assert(c.subrange(p, p + part.len()) =~= a.subrange(p, p + part.len()));
                assert(stands_at(c, p, part));
            }
        }
    }
}

/// The effect of a `br_table` that was read whole.
proof fn lemma_br_table_outcome(m: Option<Seq<char>>, s: CompilerV, targets: Vec<u32>, default: u32, location: nat)
    ensures
        control_outcome(m, s, WasmOp::BrTable { targets, error: None, default }, location) == (if s.control_stack.len()
            == 0 {
            None
        } else {
            match (br_cases(s.control_stack, targets@), branch_blocks(s.control_stack, default as nat)) {
                (Some(c), Some(d)) => Some((emit(s, seq![pop_v(var_v("$index"@))] + c + d), Ok::<(), ErrV>(()))),
                _ => None,
            }
        }),
{
}

/// `br_table` takes the branch of the target that its index selects: it
/// compiles exactly where the control stack is not empty and `br` could reach
/// every target and the default; its code pops the index into a variable and,
/// for each position `k` of the targets, holds under a test that the variable
/// equals `k` the code of `br` to the `k`-th target; it ends with the code of
/// `br` to the default.
pub proof fn lemma_br_table_takes_selected_target(
    m: Option<Seq<char>>,
    s: CompilerV,
    targets: Vec<u32>,
    default: u32,
    location: nat,
)
    ensures
        ({
            let op = WasmOp::BrTable { targets, error: None, default };
            let t = targets@;
            let stack = s.control_stack;
            &&& control_outcome(m, s, op, location) is Some <==> stack.len() > 0 && (forall|k: int|
                0 <= k < t.len() ==> #[trigger] branch_blocks(stack, t[k] as nat) is Some) && branch_blocks(
                stack,
                default as nat,
            ) is Some
            &&& control_outcome(m, s, op, location) is Some ==> exists|code: Seq<BlockV>|
                #![trigger emit(s, code)]
                {
                    let v = popped_into(code[0]).unwrap();
                    let d = branch_blocks(stack, default as nat).unwrap();
                    &&& control_outcome(m, s, op, location) == Some((emit(s, code), Ok::<(), ErrV>(())))
                    &&& code.len() > 0 && popped_into(code[0]) is Some
                    &&& forall|k: int|
                        #![trigger t[k]]
                        0 <= k < t.len() ==> exists|p: int|
                            1 <= p && #[trigger] stands_at(
                                code,
                                p,
                                table_case(v, k as nat, branch_blocks(stack, t[k] as nat).unwrap()),
                            )
                    &&& stands_at(code, code.len() - d.len(), d)
                }
        }),
{
    let op = WasmOp::BrTable { targets, error: None, default };
    let t = targets@;
    let stack = s.control_stack;
    lemma_br_table_outcome(m, s, targets, default, location);
    reveal_strlit("$index");
    if stack.len() > 0 {
        if br_cases(stack, t) is Some {
            lemma_br_cases_hold(stack, t);
        } else {
            lemma_br_cases_none(stack, t);
        }
    }
    if control_outcome(m, s, op, location) is Some {
        let cases = br_cases(stack, t).unwrap();
        let d = branch_blocks(stack, default as nat).unwrap();
        let code = seq![pop_v(var_v("$index"@))] + cases + d;
        assert(popped_into(code[0]) == Some("$index"@));
        let v = popped_into(code[0]).unwrap();
        assert forall|k: int| #![trigger t[k]] 0 <= k < t.len() implies exists|p: int|
            1 <= p && #[trigger] stands_at(code, p, table_case(v, k as nat, branch_blocks(stack, t[k] as nat).unwrap())) by {
            let part = table_case(v, k as nat, branch_blocks(stack, t[k] as nat).unwrap());
            assert(t[k] == t[k]);
            let p = choose|p: int| stands_at(cases, p, part);
            assert(code.subrange(p + 1, p + 1 + part.len()) =~= cases.subrange(p, p + part.len()));
            assert(stands_at(code, p + 1, part));
        }
        assert(code.subrange(code.len() - d.len(), code.len() as int) =~= d);
        assert(emit(s, code) == emit(s, code));
    }
}

/// Where some target cannot be branched to, the cases have no code.
proof fn lemma_br_cases_none(stack: Seq<ControlStackEntry>, targets: Seq<u32>)
    requires
        br_cases(stack, targets) is None,
    ensures
        exists|k: int| 0 <= k < targets.len() && #[trigger] branch_blocks(stack, targets[k] as nat) is None,
    decreases targets.len(),
{
    if targets.len() > 0 {
        let t0 = targets.drop_last();
        if br_cases(stack, t0) is None {
            lemma_br_cases_none(stack, t0);
            let k = choose|k: int| 0 <= k < t0.len() && #[trigger] branch_blocks(stack, t0[k] as nat) is None;
            assert(targets[k] == t0[k]);
        } else {
            assert(branch_blocks(stack, targets[targets.len() - 1] as nat) is None);
        }
    }
}

} // verus!
