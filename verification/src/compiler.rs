//! The compiler state and the evaluation of constant expressions.
//!
//! The compiler works on a list of templates: one per function body, and one
//! per block, loop and branch of a conditional, each a hidden function. A
//! control stack records which template the next operator goes into.
use vstd::prelude::*;
use crate::df_helper::{df_signed, num, num_v, format_df_number_i64};
use crate::error::{DFWasmError, DFWasmResult, ErrV};
use crate::template::{BlockV, Item, ItemV, Template};
use crate::text::{dec, usize_text, u32_text};
use crate::wasm::{ConstExprInfo, ConstOp, RecGroupInfo, Section};
use crate::wasm_read::read_from;
use crate::df_helper::{
    DF_FUNC_CALL_FUNC, DF_VAR_MEM_SIZE, DF_VAR_MODULE_INIT_FUNC, df_text, format_df_number_u64, str_v, string, var,
    var_v,
};
use crate::operators::memory::{call_v, set_v};
use crate::operators::table::{items2, items3};
use crate::sections::{St, compile_section, done, lemma_run_step, lemma_run_stops, run_items, section_fn, section_outcome, then_read_error};
use crate::splitter::{spec_split_templates, templates_view, try_split_templates};
use crate::text::{push_str, string_of};
use wasmparser::BinaryReaderError;

verus! {

/// An entry of the control stack: the kind of construct and the index of its template.
#[derive(Debug, Clone, Copy, PartialEq, Eq, Structural)]
pub enum ControlStackEntry {
    FunctionStart(usize),
    Block(usize),
    Loop(usize),
    If(usize),
    Else(usize),
}

/// The index of the template of a control stack entry.
pub open spec fn entry_index(e: ControlStackEntry) -> nat {
    match e {
        ControlStackEntry::FunctionStart(i) => i as nat,
        ControlStackEntry::Block(i) => i as nat,
        ControlStackEntry::Loop(i) => i as nat,
        ControlStackEntry::If(i) => i as nat,
        ControlStackEntry::Else(i) => i as nat,
    }
}

/// The options of the compiler.
#[derive(Debug, Clone)]
pub struct DFWasmCompilerOptions {
    /// The module name, used in the names of its templates.
    pub module_name: Option<String>,
    /// Whether to call the debugger before each operator.
    pub debugger: bool,
    /// Whether to skip the debugger call before `nop`.
    pub skip_nop_debugger: bool,
    /// The plot size templates are split to fit in, if any.
    pub max_template_size: Option<usize>,
    /// Whether to batch data section initialization.
    pub batch_data: bool,
    /// The number of bytes per batched data section call: 26 by default when
    /// batching, and at most 26 (see [`batch_size`]).
    pub batch_data_size: Option<usize>,
    /// Whether to keep only the module initialization template.
    pub only_include_module_init: bool,
}

impl Default for DFWasmCompilerOptions {
    /// No module name, no debugger, no size limit and no batching.
    fn default() -> (r: Self)
        ensures
            r.module_name is None,
            !r.debugger,
            !r.skip_nop_debugger,
            r.max_template_size is None,
            !r.batch_data,
            r.batch_data_size is None,
            !r.only_include_module_init,
    {
        DFWasmCompilerOptions {
            module_name: None,
            debugger: false,
            skip_nop_debugger: false,
            max_template_size: None,
            batch_data: false,
            batch_data_size: None,
            only_include_module_init: false,
        }
    }
}

/// The value of the options.
pub struct OptionsV {
    pub module_name: Option<Seq<char>>,
    pub debugger: bool,
    pub skip_nop_debugger: bool,
    pub max_template_size: Option<usize>,
    pub batch_data: bool,
    pub batch_data_size: Option<usize>,
    pub only_include_module_init: bool,
}

impl View for DFWasmCompilerOptions {
    type V = OptionsV;

    open spec fn view(&self) -> OptionsV {
        OptionsV {
            module_name: crate::template::opt_text(self.module_name),
            debugger: self.debugger,
            skip_nop_debugger: self.skip_nop_debugger,
            max_template_size: self.max_template_size,
            batch_data: self.batch_data,
            batch_data_size: self.batch_data_size,
            only_include_module_init: self.only_include_module_init,
        }
    }
}

/// The largest number of bytes one batched data section call takes, and the
/// batch size when batching is asked for without a size.
pub const MAX_BATCH_DATA_SIZE: usize = 26;

/// The number of bytes per batched data section call, if data is batched: a
/// given size from 1 to 26 as it is, any other given size as 26, and 26 when
/// batching is asked for without a size.
pub open spec fn batch_size(o: OptionsV) -> Option<usize> {
    match o.batch_data_size {
        Some(n) => Some(if 0 < n && n <= MAX_BATCH_DATA_SIZE { n } else { MAX_BATCH_DATA_SIZE }),
        None => if o.batch_data {
            Some(MAX_BATCH_DATA_SIZE)
        } else {
            None
        },
    }
}

/// The number of bytes per batched data section call (see [`batch_size`]).
pub fn effective_batch_size(o: &DFWasmCompilerOptions) -> (r: Option<usize>)
    ensures
        r == batch_size(o@),
{
    match o.batch_data_size {
        Some(n) => Some(if 0 < n && n <= MAX_BATCH_DATA_SIZE { n } else { MAX_BATCH_DATA_SIZE }),
        None => if o.batch_data {
            Some(MAX_BATCH_DATA_SIZE)
        } else {
            None
        },
    }
}

/// The compiler.
pub struct DFWasmCompiler<'a> {
    /// The module being compiled.
    pub wasm: &'a [u8],
    /// The options.
    pub options: DFWasmCompilerOptions,
    /// The templates compiled so far.
    pub templates: Vec<Template>,
    /// The memory of the module, by its initial size in pages, once defined.
    pub memory_type: Option<u64>,
    /// The function called when the module is loaded, if any.
    pub start_method: Option<usize>,
    /// The open constructs.
    pub control_stack: Vec<ControlStackEntry>,
    /// The initializer of each table.
    pub table_to_init_expr: Vec<Item>,
    /// The number of functions so far, imported or defined.
    pub function_counter: usize,
    /// The number of tables so far.
    pub table_counter: usize,
    /// The type of each function.
    pub function_to_type_signature: Vec<RecGroupInfo>,
    /// The types defined in the type section.
    pub function_signatures: Vec<RecGroupInfo>,
}

/// The value of the compiler state.
pub struct CompilerV {
    pub templates: Seq<Seq<BlockV>>,
    pub memory_type: Option<u64>,
    pub start_method: Option<usize>,
    pub control_stack: Seq<ControlStackEntry>,
    pub table_to_init_expr: Seq<ItemV>,
    pub function_counter: usize,
    pub table_counter: usize,
    pub function_to_type_signature: Seq<RecGroupInfo>,
    pub function_signatures: Seq<RecGroupInfo>,
}

impl<'a> View for DFWasmCompiler<'a> {
    type V = CompilerV;

    open spec fn view(&self) -> CompilerV {
        CompilerV {
            templates: crate::splitter::templates_view(self.templates@),
            memory_type: self.memory_type,
            start_method: self.start_method,
            control_stack: self.control_stack@,
            table_to_init_expr: crate::template::items_view(self.table_to_init_expr@),
            function_counter: self.function_counter,
            table_counter: self.table_counter,
            function_to_type_signature: self.function_to_type_signature@,
            function_signatures: self.function_signatures@,
        }
    }
}

/// Every control stack entry names a template, and every template starts a function.
pub open spec fn wf(s: CompilerV) -> bool {
    &&& forall|i: int| 0 <= i < s.control_stack.len() ==> entry_index(#[trigger] s.control_stack[i]) < s.templates.len()
    &&& forall|i: int| 0 <= i < s.templates.len() ==> #[trigger] crate::template::template_name(s.templates[i]) is Some
}

/// The index of the template the next operator goes into.
pub open spec fn cur_idx(s: CompilerV) -> nat {
    entry_index(s.control_stack.last())
}

/// `blocks` appended to the current template.
pub open spec fn emit(s: CompilerV, blocks: Seq<BlockV>) -> CompilerV {
    CompilerV { templates: s.templates.update(cur_idx(s) as int, s.templates[cur_idx(s) as int] + blocks), ..s }
}

/// The result of an initializer expression: the item it stands for, an
/// error, or `None` where compilation stops short (floating-point constants
/// and `global.get`).
pub open spec fn const_expr_value(ops: Seq<ConstOp>, has_error: bool) -> Option<Result<ItemV, bool>> {
    if ops.len() == 0 {
        Some(Err(true))
    } else {
        let first: Option<Result<ItemV, bool>> = match ops[0] {
            ConstOp::I32Const { value } => Some(Ok(num_v(df_signed(value as int)))),
            ConstOp::I64Const { value } => Some(Ok(num_v(df_signed(value as int)))),
            ConstOp::F32Const | ConstOp::F64Const | ConstOp::GlobalGet { .. } => None,
            ConstOp::RefNull => Some(Ok(num_v("-1"@))),
            ConstOp::RefFunc { function_index } => Some(Ok(num_v(dec(function_index as nat)))),
            _ => Some(Err(false)),
        };
        match first {
            Some(Ok(item)) => if ops.len() == 1 {
                if has_error { Some(Err(true)) } else { Some(Ok(item)) }
            } else if ops[1] == ConstOp::End {
                Some(Ok(item))
            } else {
                Some(Err(false))
            },
            other => other,
        }
    }
}

/// The offset an offset expression stands for: the constant, its bits read as
/// an unsigned 64-bit number (so a negative `i32` is sign-extended first).
pub open spec fn const_offset_value(ops: Seq<ConstOp>, has_error: bool) -> Option<Result<usize, bool>> {
    if ops.len() == 0 {
        Some(Err(true))
    } else {
        let first: Option<Result<usize, bool>> = match ops[0] {
            ConstOp::I32Const { value } => Some(Ok(value as i64 as u64 as usize)),
            ConstOp::I64Const { value } => Some(Ok(value as u64 as usize)),
            ConstOp::GlobalGet { .. } => None,
            _ => Some(Err(false)),
        };
        match first {
            Some(Ok(v)) => if ops.len() == 1 {
                if has_error { Some(Err(true)) } else { Some(Ok(v)) }
            } else if ops[1] == ConstOp::End {
                Some(Ok(v))
            } else {
                Some(Err(false))
            },
            other => other,
        }
    }
}

/// The error of a failed evaluation: the read error where reading failed, and
/// `UnsupportedConstExpr` otherwise.
pub open spec fn const_error(is_read: bool, error: Option<BinaryReaderErrorV>) -> ErrV {
    if is_read {
        match error {
            Some(e) => ErrV::ReadError(e),
            None => ErrV::UnsupportedConstExpr,
        }
    } else {
        ErrV::UnsupportedConstExpr
    }
}

/// The read error type, as it appears in specifications.
pub type BinaryReaderErrorV = wasmparser::BinaryReaderError;

impl<'a> DFWasmCompiler<'a> {
    /// The index of the template the next operator goes into.
    pub fn get_current_template_idx(&self) -> (r: Option<usize>)
        ensures
            r is Some <==> self.control_stack@.len() > 0,
            r matches Some(i) ==> i as nat == cur_idx(self@),
    {
        if self.control_stack.len() == 0 {
            return None;
        }
        match self.control_stack[self.control_stack.len() - 1] {
            ControlStackEntry::FunctionStart(i) | ControlStackEntry::Block(i) | ControlStackEntry::Loop(i)
            | ControlStackEntry::If(i) | ControlStackEntry::Else(i) => Some(i),
        }
    }

    /// The template the next operator goes into.
    pub fn get_current_template(&mut self) -> (r: &mut Template)
        requires
            wf(old(self)@),
            old(self).control_stack@.len() > 0,
        ensures
            (*r)@ == old(self)@.templates[cur_idx(old(self)@) as int],
            final(self)@ == (CompilerV {
                templates: old(self)@.templates.update(cur_idx(old(self)@) as int, (*final(r))@),
                ..old(self)@
            }),
            final(self).options == old(self).options,
            final(self).wasm == old(self).wasm,
    {
        let idx = self.get_current_template_idx().unwrap();
        assert(entry_index(self.control_stack@[self.control_stack@.len() - 1]) < self.templates@.len());
        let ghost old_ts = self.templates@;
        let r = &mut self.templates[idx];
        proof {
            let ghost newv = old_ts.update(idx as int, *final(r));
            assert(crate::splitter::templates_view(newv) =~= crate::splitter::templates_view(old_ts).update(
                idx as int,
                (*final(r))@,
            ));
        }
        r
    }
}

/// Whether the compiler can evaluate an initializer expression: it does not
/// begin with a floating-point constant or a `global.get`.
pub fn const_expr_supported(expr: &ConstExprInfo) -> (r: bool)
    ensures
        r == (const_expr_value(expr.ops@, expr.error is Some) is Some),
{
    if expr.ops.len() == 0 {
        return true;
    }
    match expr.ops[0] {
        ConstOp::F32Const | ConstOp::F64Const | ConstOp::GlobalGet { .. } => false,
        _ => true,
    }
}

/// Whether the compiler can evaluate an offset expression: it does not begin
/// with a `global.get`.
pub fn const_offset_supported(expr: &ConstExprInfo) -> (r: bool)
    ensures
        r == (const_offset_value(expr.ops@, expr.error is Some) is Some),
{
    if expr.ops.len() == 0 {
        return true;
    }
    match expr.ops[0] {
        ConstOp::GlobalGet { .. } => false,
        _ => true,
    }
}

impl<'a> DFWasmCompiler<'a> {
    /// Evaluates an initializer expression (of a table or a global) to the
    /// item it stands for (see [`const_expr_value`]).
    pub fn eval_const_expr(&self, expr: ConstExprInfo) -> (r: DFWasmResult<Item>)
        requires
            const_expr_value(expr.ops@, expr.error is Some) is Some,
        ensures
            match const_expr_value(expr.ops@, expr.error is Some).unwrap() {
                Ok(item) => r matches Ok(i) && i@ == item,
                Err(is_read) => r matches Err(e) && e@ == const_error(is_read, expr.error),
            },
    {
        let ConstExprInfo { ops, error } = expr;
        if ops.len() == 0 {
            return match error {
                Some(e) => Err(DFWasmError::ReadError(e)),
                None => Err(DFWasmError::UnsupportedConstExpr),
            };
        }
        let result = match ops[0] {
            ConstOp::I32Const { value } => num(format_df_number_i64(value as i64).as_str()),
            ConstOp::I64Const { value } => num(format_df_number_i64(value).as_str()),
            ConstOp::RefNull => num("-1"),
            ConstOp::RefFunc { function_index } => num(u32_text(function_index).as_str()),
            _ => return Err(DFWasmError::UnsupportedConstExpr),
        };
        if ops.len() == 1 {
            match error {
                Some(e) => Err(DFWasmError::ReadError(e)),
                None => Ok(result),
            }
        } else if ops[1] == ConstOp::End {
            Ok(result)
        } else {
            Err(DFWasmError::UnsupportedConstExpr)
        }
    }

    /// Evaluates an offset expression (of an element or data segment) to the
    /// offset it stands for (see [`const_offset_value`]).
    pub fn eval_const_expr_as_offset(&self, expr: ConstExprInfo) -> (r: DFWasmResult<usize>)
        requires
            const_offset_value(expr.ops@, expr.error is Some) is Some,
        ensures
            match const_offset_value(expr.ops@, expr.error is Some).unwrap() {
                Ok(v) => r == Ok::<usize, DFWasmError>(v),
                Err(is_read) => r matches Err(e) && e@ == const_error(is_read, expr.error),
            },
    {
        let ConstExprInfo { ops, error } = expr;
        if ops.len() == 0 {
            return match error {
                Some(e) => Err(DFWasmError::ReadError(e)),
                None => Err(DFWasmError::UnsupportedConstExpr),
            };
        }
        let result: usize = match ops[0] {
            ConstOp::I32Const { value } => value as i64 as u64 as usize,
            ConstOp::I64Const { value } => value as u64 as usize,
            _ => return Err(DFWasmError::UnsupportedConstExpr),
        };
        if ops.len() == 1 {
            match error {
                Some(e) => Err(DFWasmError::ReadError(e)),
                None => Ok(result),
            }
        } else if ops[1] == ConstOp::End {
            Ok(result)
        } else {
            Err(DFWasmError::UnsupportedConstExpr)
        }
    }
}

/// Appending to the current template keeps the state well formed.
pub proof fn lemma_emit_wf(s: CompilerV, blocks: Seq<BlockV>)
    requires
        wf(s),
        s.control_stack.len() > 0,
    ensures
        wf(emit(s, blocks)),
        emit(s, blocks).templates.len() == s.templates.len(),
{
    let e = emit(s, blocks);
    assert forall|i: int| 0 <= i < e.templates.len() implies #[trigger] crate::template::template_name(e.templates[i]) is Some by {
        assert(crate::template::template_name(s.templates[i]) is Some);
        if i == cur_idx(s) {
            assert(e.templates[i][0] == s.templates[i][0]);
        }
    }
}


// ---------------------------------------------------------------------------
// Compiling a module
// ---------------------------------------------------------------------------

/// The compiler state before the first section.
pub open spec fn initial_state() -> CompilerV {
    CompilerV {
        templates: Seq::empty(),
        memory_type: None,
        start_method: None,
        control_stack: Seq::empty(),
        table_to_init_expr: Seq::empty(),
        function_counter: 0,
        table_counter: 0,
        function_to_type_signature: Seq::empty(),
        function_signatures: Seq::empty(),
    }
}

/// The name of the module initialization function: `<module>_module_init`,
/// or `module_init` without a module name.
pub open spec fn module_init_name(m: Option<Seq<char>>) -> Seq<char> {
    match m {
        Some(n) => n + "_module_init"@,
        None => "module_init"@,
    }
}

/// The module initialization template before the first section: it starts
/// the function and records its name.
pub open spec fn initial_module(name: Seq<char>) -> Seq<BlockV> {
    seq![
        BlockV::Function { args: Seq::empty(), name },
        set_v("="@, seq![var_v(DF_VAR_MODULE_INIT_FUNC@), str_v(name)]),
    ]
}

/// The module initialization template after the last section: it calls the
/// start function, if any, and sets the initial memory size, if there is a memory.
pub open spec fn finish_module(c: CompilerV, m: Seq<BlockV>) -> Seq<BlockV> {
    let m1 = match c.start_method {
        Some(s) => m.push(call_v(DF_FUNC_CALL_FUNC@, seq![num_v(dec(s as nat)), num_v("0"@), num_v("0"@)])),
        None => m,
    };
    match c.memory_type {
        Some(initial) => m1.push(set_v("="@, seq![var_v(DF_VAR_MEM_SIZE@), num_v(df_text(false, initial as nat))])),
        None => m1,
    }
}

/// The templates compiled from a module read as `sections`, reading having
/// stopped at `error` if given, with options `o`: the function templates (none
/// when only the module initialization is kept) and the module initialization
/// template last, split to the maximum template size if one is set; or the
/// first error. `None` where the compiler stops short.
pub open spec fn compile_outcome(o: OptionsV, sections: Seq<Section>, error: Option<BinaryReaderError>) -> Option<
    Result<Seq<Seq<BlockV>>, ErrV>,
> {
    let st0 = (initial_state(), initial_module(module_init_name(o.module_name)));
    match then_read_error(run_items(st0, sections, section_fn(o)), error) {
        None => None,
        Some((_, Err(e))) => Some(Err(e)),
        Some(((c, m), Ok(()))) => {
            let kept = if o.only_include_module_init {
                Seq::empty()
            } else {
                c.templates
            };
            let all = kept.push(finish_module(c, m));
            match o.max_template_size {
                Some(n) => match spec_split_templates(all, n as nat) {
                    Some(t) => Some(Ok(t)),
                    None => None,
                },
                None => Some(Ok(all)),
            }
        },
    }
}

/// Whether a compilation result is the given outcome.
pub open spec fn is_outcome(r: Option<DFWasmResult<Vec<Template>>>, out: Option<Result<Seq<Seq<BlockV>>, ErrV>>) -> bool {
    match out {
        None => r is None,
        Some(Ok(ts)) => r matches Some(Ok(v)) && templates_view(v@) == ts,
        Some(Err(e)) => r matches Some(Err(x)) && x@ == e,
    }
}

/// The name of the module initialization function.
fn module_init_name_exec(m: &Option<String>) -> (r: String)
    ensures
        r@ == module_init_name(crate::template::opt_text(*m)),
{
    let mut out: Vec<char> = Vec::new();
    match m {
        Some(n) => {
            push_str(&mut out, n.as_str());
            push_str(&mut out, "_module_init");
        },
        None => push_str(&mut out, "module_init"),
    }
    string_of(&out)
}

impl<'a> DFWasmCompiler<'a> {
    /// A compiler for `wasm` in its initial state.
    pub fn new(wasm: &'a [u8], options: DFWasmCompilerOptions) -> (r: Self)
        ensures
            r@ == initial_state(),
            r.options == options,
            r.wasm == wasm,
    {
        let r = DFWasmCompiler {
            wasm,
            options,
            templates: Vec::new(),
            memory_type: None,
            start_method: None,
            control_stack: Vec::new(),
            table_to_init_expr: Vec::new(),
            function_counter: 0,
            table_counter: 0,
            function_to_type_signature: Vec::new(),
            function_signatures: Vec::new(),
        };
        assert(r@.templates =~= Seq::<Seq<BlockV>>::empty());
        assert(r@.table_to_init_expr =~= Seq::<ItemV>::empty());
        r
    }

    /// Compiles a module into templates: reads it (see [`read_from`]), then compiles what was read
    /// (see [`DFWasmCompiler::compile`]); `None` where the compiler stops short.
    pub fn compile_wasm(wasm: &'a [u8], options: DFWasmCompilerOptions) -> (r: Option<DFWasmResult<Vec<Template>>>)
        ensures
            exists|sections: Seq<Section>, error: Option<BinaryReaderError>|
                read_from(wasm@, sections, error) && is_outcome(r, #[trigger] compile_outcome(options@, sections, error)),
    {
        let (sections, error) = crate::wasm_read::read_module(wasm);
        let ghost s = sections@;
        let ghost e = error;
        let r = DFWasmCompiler::new(wasm, options).compile(sections, error);
        assert(read_from(wasm@, s, e) && is_outcome(r, compile_outcome(options@, s, e)));
        r
    }

    /// Compiles the sections read from the module, reading having stopped at
    /// `error` if given (see [`compile_outcome`]); `None` where the compiler
    /// stops short.
    pub fn compile(self, sections: Vec<Section>, error: Option<BinaryReaderError>) -> (r: Option<
        DFWasmResult<Vec<Template>>,
    >)
        requires
            self@ == initial_state(),
        ensures
            is_outcome(r, compile_outcome(self.options@, sections@, error)),
    {
        let ghost o = self.options@;
        let mut this = self;
        let name = module_init_name_exec(&this.options.module_name);
        let mut module_template = Template::start_function(name.as_str());
        module_template.set_var("=", items2(var(DF_VAR_MODULE_INIT_FUNC), string(name.as_str())));
        let ghost st0: St = (this@, module_template@);
        proof {
            assert(module_template@ =~= initial_module(module_init_name(o.module_name)));
        }
        let ghost f = section_fn(o);
        let ghost orig = sections@;
        let mut items = sections;
        let mut result: Option<DFWasmResult<()>> = Some(Ok(()));
        let mut i: usize = 0;
        while i < items.len()
            invariant
                i <= orig.len(),
                items@.len() == orig.len(),
                forall|j: int| i <= j < orig.len() ==> items@[j] == orig[j],
                wf(this@),
                this.options@ == o,
                f == section_fn(o),
                st0 == (initial_state(), initial_module(module_init_name(o.module_name))),
                result matches Some(Ok(_)) ==> run_items(st0, orig.take(i as int), f) == Some(
                    ((this@, module_template@), Ok::<(), ErrV>(())),
                ),
                !(result matches Some(Ok(_))) ==> i == orig.len() && match run_items(st0, orig, f) {
                    None => result is None,
                    Some(out) => result matches Some(res) && out == done(this@, module_template@, res),
                },
            decreases orig.len() - i,
        {
            proof {
                lemma_run_step(st0, orig, f, i as int);
                assert(f((this@, module_template@), orig[i as int]) == section_outcome(
                    o,
                    (this@, module_template@),
                    orig[i as int],
                ));
            }
            let section = crate::sections::take_item(&mut items, i, Section::End);
            let res = compile_section(&mut this, &mut module_template, section);
            if res.is_some() && res.as_ref().unwrap().is_ok() {
                i = i + 1;
            } else {
                proof {
                    lemma_run_stops(st0, orig, f, i + 1);
                }
                result = res;
                i = items.len();
            }
        }
        match result {
            None => {
                return None;
            },
            Some(Err(e)) => {
                return Some(Err(e));
            },
            Some(Ok(())) => {},
        }
        proof {
            assert(orig.take(orig.len() as int) =~= orig);
        }
        match error {
            Some(e) => {
                return Some(Err(DFWasmError::ReadError(e)));
            },
            None => {},
        }
        let ghost c = this@;
        let ghost m = module_template@;
        match this.start_method {
            Some(start) => {
                module_template.call_function(DF_FUNC_CALL_FUNC, items3(num(usize_text(start).as_str()), num("0"), num("0")));
            },
            None => {},
        }
        match this.memory_type {
            Some(initial) => {
                module_template.set_var("=", items2(var(DF_VAR_MEM_SIZE), num(format_df_number_u64(initial).as_str())));
            },
            None => {},
        }
        proof {
            assert(module_template@ =~= finish_module(c, m));
        }
        let mut templates = if this.options.only_include_module_init {
            Vec::new()
        } else {
            this.templates
        };
        let ghost kept = templates_view(templates@);
        proof {
            if o.only_include_module_init {
                assert(kept =~= Seq::<Seq<BlockV>>::empty());
            }
        }
        templates.push(module_template);
        proof {
            assert(templates_view(templates@) =~= kept.push(finish_module(c, m)));
        }
        match this.options.max_template_size {
            Some(n) => match try_split_templates(templates, n) {
                Some(v) => Some(Ok(v)),
                None => None,
            },
            None => Some(Ok(templates)),
        }
    }
}


/// With a maximum template size, every template a module compiles to fits
/// a plot of that size.
pub proof fn lemma_compiled_templates_fit(o: OptionsV, sections: Seq<Section>, error: Option<BinaryReaderError>)
    requires
        o.max_template_size is Some,
        compile_outcome(o, sections, error) matches Some(Ok(_)),
    ensures
        forall|k: int|
            0 <= k < compile_outcome(o, sections, error)->0->Ok_0.len() ==> #[trigger] compile_outcome(
                o,
                sections,
                error,
            )->0->Ok_0[k].len() * 2 + 4 <= o.max_template_size->0,
{
    let st0 = (initial_state(), initial_module(module_init_name(o.module_name)));
    let ((c, m), _) = then_read_error(run_items(st0, sections, section_fn(o)), error).unwrap();
    let kept = if o.only_include_module_init {
        Seq::empty()
    } else {
        c.templates
    };
    let all = kept.push(finish_module(c, m));
    crate::splitter::lemma_split_templates_fit(all, o.max_template_size->0 as nat);
}

} // verus!
