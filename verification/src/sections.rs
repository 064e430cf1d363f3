//! What each section of a module adds to the compiler state and to the
//! module initialization template.
//!
//! A section is read as a list of items and the error that stopped reading,
//! if any. Its items are compiled in turn; compiling stops at the first error,
//! and the read error comes after all the items read before it.
use vstd::prelude::*;
use crate::compiler::{
    OptionsV, CompilerV, ControlStackEntry, DFWasmCompiler, const_error, const_expr_supported,
    const_expr_value, const_offset_supported, const_offset_value, wf, batch_size,
    effective_batch_size,
};
use crate::df_helper::{
    DF_FUNC_BATCH_DATA_SECTION, DF_VAR_EXPORTS, DF_VAR_STORE_FUNCS, DF_VAR_STORE_GLOBALS, DF_VAR_STORE_TABLES,
    df_text, format_df_number_u64, format_df_number_usize, generate_function_name, generate_table_name, num,
    num_v, scoped_name, str_v, string, var, var_v,
};
use crate::error::{DFWasmError, DFWasmResult, ErrV, unit_res};
use crate::operators::{compile_operator, op_outcome};
use crate::operators::control_flow::module_name_str;
use crate::operators::memory::{call_v, set_v};
use crate::operators::table::{items1, items2, items3};
use crate::template::{Args, BlockV, Item, Template, close_repeat_v, items_view, open_repeat_v, slotted};
use crate::text::{dec, dec_chars, push_str, string_of, u32_text, usize_text};
use crate::wasm::{
    WasmOp,
    ConstExprInfo, DataInfo, DataKindInfo, ElementInfo, ElementItemsInfo, ElementKindInfo, ExportInfo, ImportInfo,
    ImportKind, OpEntry, RecGroupInfo, Section, TableInfo,
};
use wasmparser::BinaryReaderError;

verus! {

/// The compiler state together with the module initialization template.
pub type St = (CompilerV, Seq<BlockV>);

/// The effect of a compilation step: the new state and its result; `None`
/// where the compiler stops short.
pub type Outcome = Option<(St, Result<(), ErrV>)>;

/// Runs `step` on each item in turn, stopping at the first error.
pub open spec fn run_items<A>(st: St, items: Seq<A>, step: spec_fn(St, A) -> Outcome) -> Outcome
    decreases items.len(),
{
    if items.len() == 0 {
        Some((st, Ok(())))
    } else {
        match run_items(st, items.drop_last(), step) {
            Some((s, Ok(()))) => step(s, items.last()),
            other => other,
        }
    }
}

/// The outcome followed by the read error that stopped reading, if any.
pub open spec fn then_read_error(o: Outcome, error: Option<BinaryReaderError>) -> Outcome {
    match o {
        Some((s, Ok(()))) => match error {
            Some(e) => Some((s, Err(ErrV::ReadError(e)))),
            None => Some((s, Ok(()))),
        },
        other => other,
    }
}

/// One more item run after a prefix.
pub proof fn lemma_run_step<A>(st: St, items: Seq<A>, step: spec_fn(St, A) -> Outcome, i: int)
    requires
        0 <= i < items.len(),
    ensures
        run_items(st, items.take(i + 1), step) == match run_items(st, items.take(i), step) {
            Some((s, Ok(()))) => step(s, items[i]),
            other => other,
        },
{
    assert(items.take(i + 1).drop_last() =~= items.take(i));
}

/// A run that stops on a prefix, at an error or short, stops there on all items.
pub proof fn lemma_run_stops<A>(st: St, items: Seq<A>, step: spec_fn(St, A) -> Outcome, k: int)
    requires
        0 <= k <= items.len(),
        !(run_items(st, items.take(k), step) matches Some((_, Ok(_)))),
    ensures
        run_items(st, items, step) == run_items(st, items.take(k), step),
    decreases items.len() - k,
{
    if k < items.len() {
        lemma_run_step(st, items, step, k);
        lemma_run_stops(st, items, step, k + 1);
    } else {
        assert(items.take(k) =~= items);
    }
}

/// The result of a step as a value: the new state and the result.
pub open spec fn done(c: CompilerV, m: Seq<BlockV>, r: DFWasmResult<()>) -> (St, Result<(), ErrV>) {
    ((c, m), unit_res(r))
}

// ---------------------------------------------------------------------------
// Imports, functions, memories
// ---------------------------------------------------------------------------

/// An import: a function takes its type and is recorded in the function
/// store by `<module>/<name>`; a memory becomes the memory, unless there is
/// one already. The compiler stops short on other imports, on an unknown
/// type and when the function count is at its limit.
pub open spec fn import_step(st: St, imp: ImportInfo) -> Outcome {
    let (c, m) = st;
    match imp.kind {
        ImportKind::Func { type_index } => if type_index < c.function_signatures.len() && c.function_counter
            < usize::MAX {
            Some((
                (
                    CompilerV {
                        function_to_type_signature: c.function_to_type_signature.push(
                            c.function_signatures[type_index as int],
                        ),
                        function_counter: (c.function_counter + 1) as usize,
                        ..c
                    },
                    m.push(set_v("AppendValue"@, seq![var_v(DF_VAR_STORE_FUNCS@), str_v(imp.module@ + "/"@ + imp.name@)])),
                ),
                Ok(()),
            ))
        } else {
            None
        },
        ImportKind::Memory { initial } => if c.memory_type is Some {
            Some((st, Err(ErrV::MultipleMemories)))
        } else {
            Some(((CompilerV { memory_type: Some(initial), ..c }, m), Ok(())))
        },
        _ => None,
    }
}

pub open spec fn import_fn() -> spec_fn(St, ImportInfo) -> Outcome {
    |st: St, imp: ImportInfo| import_step(st, imp)
}

/// A function of the function section takes its type; the compiler stops
/// short on an unknown type.
pub open spec fn function_step(st: St, type_index: u32) -> Outcome {
    let (c, m) = st;
    if type_index < c.function_signatures.len() {
        Some((
            (
                CompilerV {
                    function_to_type_signature: c.function_to_type_signature.push(
                        c.function_signatures[type_index as int],
                    ),
                    ..c
                },
                m,
            ),
            Ok(()),
        ))
    } else {
        None
    }
}

pub open spec fn function_fn() -> spec_fn(St, u32) -> Outcome {
    |st: St, t: u32| function_step(st, t)
}

/// A memory, by its initial size, becomes the memory, unless there is one already.
pub open spec fn memory_step(st: St, initial: u64) -> Outcome {
    let (c, m) = st;
    if c.memory_type is Some {
        Some((st, Err(ErrV::MultipleMemories)))
    } else {
        Some(((CompilerV { memory_type: Some(initial), ..c }, m), Ok(())))
    }
}

pub open spec fn memory_fn() -> spec_fn(St, u64) -> Outcome {
    |st: St, initial: u64| memory_step(st, initial)
}

/// An export: a function is recorded in the exports by its name; other
/// exports are left out.
pub open spec fn export_step(st: St, x: ExportInfo) -> Outcome {
    let (c, m) = st;
    if x.is_func {
        Some((
            (c, m.push(set_v("SetDictValue"@, seq![var_v(DF_VAR_EXPORTS@), str_v(x.name@), num_v(dec(x.index as nat))]))),
            Ok(()),
        ))
    } else {
        Some((st, Ok(())))
    }
}

pub open spec fn export_fn() -> spec_fn(St, ExportInfo) -> Outcome {
    |st: St, x: ExportInfo| export_step(st, x)
}










/// The block that creates the exports.
pub open spec fn create_exports_v() -> BlockV {
    set_v("CreateDict"@, seq![var_v(DF_VAR_EXPORTS@)])
}


// ---------------------------------------------------------------------------
// Tables and globals
// ---------------------------------------------------------------------------

/// The variable that holds a table.
pub open spec fn table_name(index: nat) -> Seq<char> {
    "wasm.$table_"@ + dec(index)
}

/// The value of an initializer expression, or the error evaluating it gives.
pub open spec fn init_value(e: ConstExprInfo) -> Option<Result<crate::template::ItemV, ErrV>> {
    match const_expr_value(e.ops@, e.error is Some) {
        Some(Ok(item)) => Some(Ok(item)),
        Some(Err(is_read)) => Some(Err(const_error(is_read, e.error))),
        None => None,
    }
}

/// The code that fills a new table: it is recorded in the table store, then
/// `initial` copies of its initial value are appended to it.
pub open spec fn table_fill_v(name: Seq<char>, initial: u64, item: crate::template::ItemV) -> Seq<BlockV> {
    seq![
        set_v("AppendValue"@, seq![var_v(DF_VAR_STORE_TABLES@), str_v(name)]),
        BlockV::Repeat { args: slotted(seq![num_v(dec(initial as nat))]), action: "Multiple"@, sub_action: None, is_negated: false },
        open_repeat_v(),
        set_v("AppendValue"@, seq![var_v(name), item]),
        close_repeat_v(),
    ]
}

/// A table: refused above 10000 entries; its initial value (a null reference,
/// `-1`, unless it has an initializer) is recorded and it is filled with it.
/// The compiler stops short where the initializer does and when the table
/// count is at its limit.
pub open spec fn table_step(st: St, t: TableInfo) -> Outcome {
    let (c, m) = st;
    if t.initial > 10000 {
        Some((st, Err(ErrV::MaximumTableSize)))
    } else {
        let v = match t.init {
            None => Some(Ok(num_v("-1"@))),
            Some(e) => init_value(e),
        };
        match v {
            None => None,
            Some(Err(err)) => Some((st, Err(err))),
            Some(Ok(item)) => if c.table_counter == usize::MAX {
                None
            } else {
                Some((
                    (
                        CompilerV {
                            table_to_init_expr: c.table_to_init_expr.push(item),
                            table_counter: (c.table_counter + 1) as usize,
                            ..c
                        },
                        m + table_fill_v(table_name(c.table_counter as nat), t.initial, item),
                    ),
                    Ok(()),
                ))
            },
        }
    }
}

pub open spec fn table_fn() -> spec_fn(St, TableInfo) -> Outcome {
    |st: St, t: TableInfo| table_step(st, t)
}

/// A global: its initial value is appended to the global store.
pub open spec fn global_step(st: St, g: ConstExprInfo) -> Outcome {
    let (c, m) = st;
    match init_value(g) {
        None => None,
        Some(Err(err)) => Some((st, Err(err))),
        Some(Ok(item)) => Some(((c, m.push(set_v("AppendValue"@, seq![var_v(DF_VAR_STORE_GLOBALS@), item]))), Ok(()))),
    }
}

pub open spec fn global_fn() -> spec_fn(St, ConstExprInfo) -> Outcome {
    |st: St, g: ConstExprInfo| global_step(st, g)
}

/// Takes the `i`-th item out of `v`, leaving `filler` in its place.
pub(crate) fn take_item<T>(v: &mut Vec<T>, i: usize, filler: T) -> (r: T)
    requires
        i < old(v)@.len(),
    ensures
        r == old(v)@[i as int],
        final(v)@ == old(v)@.update(i as int, filler),
{
    let mut x = filler;
    std::mem::swap(&mut x, &mut v[i]);
    x
}

/// The decimal text of a `u64`.
fn u64_text(n: u64) -> (r: String)
    ensures
        r@ == dec(n as nat),
{
    string_of(&dec_chars(n))
}







// ---------------------------------------------------------------------------
// Elements
// ---------------------------------------------------------------------------

/// The code that sets the entries of a table from `offset` on to function
/// indices (entries count from 1 in the table's list).
pub open spec fn element_sets(name: Seq<char>, offset: nat, indices: Seq<u32>) -> Seq<BlockV> {
    Seq::new(
        indices.len(),
        |i: int| set_v("SetListValue"@, seq![var_v(name), num_v(dec((offset + i + 1) as nat)), num_v(dec(indices[i] as nat))]),
    )
}

/// An element segment: an active segment of function indices sets the
/// entries of its table (table 0 unless given) from its offset on; other
/// segments are refused. The compiler stops short where the offset
/// expression does and where counting the entries runs past `usize::MAX`.
pub open spec fn element_step(st: St, e: ElementInfo) -> Outcome {
    let (c, m) = st;
    let target: Option<Result<(nat, nat), ErrV>> = match e.kind {
        ElementKindInfo::Active { table_index, offset } => match const_offset_value(offset.ops@, offset.error is Some) {
            None => None,
            Some(Err(is_read)) => Some(Err(const_error(is_read, offset.error))),
            Some(Ok(o)) => Some(
                Ok((
                    match table_index {
                        Some(t) => t as nat,
                        None => 0nat,
                    },
                    o as nat,
                )),
            ),
        },
        _ => Some(Err(ErrV::NotYetImplemented("passive/declared elements"@))),
    };
    match target {
        None => None,
        Some(Err(err)) => Some((st, Err(err))),
        Some(Ok((ti, o))) => match e.items {
            ElementItemsInfo::Functions { indices, error } => if o + indices@.len() + 1 > usize::MAX {
                None
            } else {
                Some((
                    (c, m + element_sets(table_name(ti), o, indices@)),
                    match error {
                        Some(x) => Err(ErrV::ReadError(x)),
                        None => Ok(()),
                    },
                ))
            },
            ElementItemsInfo::Expressions => Some((st, Err(ErrV::NotYetImplemented("expression elements for tables"@)))),
        },
    }
}

pub open spec fn element_fn() -> spec_fn(St, ElementInfo) -> Outcome {
    |st: St, e: ElementInfo| element_step(st, e)
}


// ---------------------------------------------------------------------------
// Data
// ---------------------------------------------------------------------------

/// The variable of a byte of memory.
pub open spec fn mem_var(address: nat) -> Seq<char> {
    "$mem_"@ + df_text(false, address)
}

/// A byte as a number item.
pub open spec fn byte_num(b: u8) -> crate::template::ItemV {
    num_v(df_text(false, b as nat))
}

/// One block per byte, setting the byte's memory variable.
pub open spec fn byte_sets(offset: nat, data: Seq<u8>) -> Seq<BlockV> {
    Seq::new(data.len(), |i: int| set_v("="@, seq![var_v(mem_var((offset + i) as nat)), byte_num(data[i])]))
}

/// A call of the batch function for `bytes` stored from `address` on.
pub open spec fn batch_call(address: nat, bytes: Seq<u8>) -> BlockV {
    call_v(DF_FUNC_BATCH_DATA_SECTION@, seq![num_v(df_text(false, address))] + bytes.map_values(|b: u8| byte_num(b)))
}

/// The batch calls for `bytes` from `address` on, `size` bytes each (the last
/// may have fewer; a size of zero puts all in one call). `None` where the
/// address of the next batch runs past `usize::MAX`.
pub open spec fn batched(address: nat, bytes: Seq<u8>, size: nat) -> Option<Seq<BlockV>>
    decreases bytes.len(),
{
    if bytes.len() == 0 {
        Some(Seq::empty())
    } else if size == 0 || bytes.len() < size {
        Some(seq![batch_call(address, bytes)])
    } else if address + size > usize::MAX {
        None
    } else {
        match batched(address + size, bytes.skip(size as int), size) {
            Some(rest) => Some(seq![batch_call(address, bytes.take(size as int))] + rest),
            None => None,
        }
    }
}

/// The code that stores a data segment from `offset` on: in batches when a
/// batch size is set, and one block per byte otherwise. `None` where an
/// address runs past `usize::MAX`.
pub open spec fn data_blocks(batch: Option<usize>, offset: nat, data: Seq<u8>) -> Option<Seq<BlockV>> {
    match batch {
        Some(size) => batched(offset, data, size as nat),
        None => if data.len() > 0 && offset + data.len() - 1 > usize::MAX {
            None
        } else {
            Some(byte_sets(offset, data))
        },
    }
}

/// A data segment: an active segment is stored from its offset on; passive
/// segments are refused.
pub open spec fn data_step(st: St, d: DataInfo, batch: Option<usize>) -> Outcome {
    let (c, m) = st;
    match d.kind {
        DataKindInfo::Passive => Some((st, Err(ErrV::NotYetImplemented("passive data sections"@)))),
        DataKindInfo::Active { offset } => match const_offset_value(offset.ops@, offset.error is Some) {
            None => None,
            Some(Err(is_read)) => Some((st, Err(const_error(is_read, offset.error)))),
            Some(Ok(o)) => match data_blocks(batch, o as nat, d.data@) {
                Some(b) => Some(((c, m + b), Ok(()))),
                None => None,
            },
        },
    }
}

pub open spec fn data_fn(batch: Option<usize>) -> spec_fn(St, DataInfo) -> Outcome {
    |st: St, d: DataInfo| data_step(st, d, batch)
}

fn batch_call_exec(module_template: &mut Template, address: usize, bytes: &Vec<u8>)
    ensures
        final(module_template)@ == old(module_template)@.push(batch_call(address as nat, bytes@)),
{
    let mut args: Vec<Item> = Vec::new();
    args.push(num(format_df_number_usize(address).as_str()));
    let mut j: usize = 0;
    while j < bytes.len()
        invariant
            j <= bytes@.len(),
            items_view(args@) == seq![num_v(df_text(false, address as nat))] + bytes@.take(j as int).map_values(
                |b: u8| byte_num(b),
            ),
        decreases bytes.len() - j,
    {
        let ghost prev = args@;
        let item = num(format_df_number_u64(bytes[j] as u64).as_str());
        assert(item@ == byte_num(bytes@[j as int]));
        args.push(item);
        proof {
            assert(bytes@.take(j + 1) =~= bytes@.take(j as int).push(bytes@[j as int]));
            assert(items_view(args@) =~= items_view(prev).push(item@));
        }
        j = j + 1;
        assert(items_view(args@) =~= seq![num_v(df_text(false, address as nat))] + bytes@.take(j as int).map_values(
            |b: u8| byte_num(b),
        ));
    }
    assert(bytes@.take(bytes@.len() as int) =~= bytes@);
    module_template.call_function(DF_FUNC_BATCH_DATA_SECTION, Args::with(args));
}







// ---------------------------------------------------------------------------
// Code
// ---------------------------------------------------------------------------

/// An operator of a function body, compiled with options `o`.
#[verifier::opaque]
pub open spec fn op_step(o: OptionsV, st: St, e: OpEntry) -> Outcome {
    match op_outcome(o, st.0, e.op, e.text@, e.location as nat) {
        Some((c, r)) => Some(((c, st.1), r)),
        None => None,
    }
}

pub open spec fn op_fn(o: OptionsV) -> spec_fn(St, OpEntry) -> Outcome {
    |st: St, e: OpEntry| op_step(o, st, e)
}

/// The start of a function body: the function gets the next index and a
/// template of its own, which the operators go into, and is recorded in the
/// function store. `None` when the function count is at its limit.
pub open spec fn function_start(o: OptionsV, st: St) -> Option<St> {
    let (c, m) = st;
    if c.function_counter == usize::MAX {
        None
    } else {
        let name = scoped_name(o.module_name, "func"@, c.function_counter as nat);
        Some((
            CompilerV {
                function_counter: (c.function_counter + 1) as usize,
                templates: c.templates.push(seq![BlockV::Function { args: Seq::empty(), name }]),
                control_stack: c.control_stack.push(ControlStackEntry::FunctionStart(c.templates.len() as usize)),
                ..c
            },
            m.push(set_v("AppendValue"@, seq![var_v(DF_VAR_STORE_FUNCS@), str_v(name)])),
        ))
    }
}

/// A function body: its start, then its operators in turn.
pub open spec fn code_outcome(o: OptionsV, st: St, ops: Seq<OpEntry>, error: Option<BinaryReaderError>) -> Outcome {
    match function_start(o, st) {
        None => None,
        Some(st1) => then_read_error(run_items(st1, ops, op_fn(o)), error),
    }
}



/// The result of a step that completed.
fn ok_step() -> (r: Option<DFWasmResult<()>>)
    ensures
        r == Some(Ok::<(), DFWasmError>(())),
{
    Some(Ok(()))
}

fn import_one(compiler: &mut DFWasmCompiler, module_template: &mut Template, imp: ImportInfo) -> (r: Option<DFWasmResult<()>>)
    requires
        wf(old(compiler)@),
    ensures
        match import_step((old(compiler)@, old(module_template)@), imp) {
            None => r is None,
            Some(out) => r matches Some(res) && out == done(final(compiler)@, final(module_template)@, res),
        },
        wf(final(compiler)@),
        final(compiler).options == old(compiler).options,
        final(compiler).wasm == old(compiler).wasm,
{
    match imp.kind {
        ImportKind::Func { type_index } => {
            if type_index as usize >= compiler.function_signatures.len() || compiler.function_counter == usize::MAX {
                return None;
            }
            let sig = compiler.function_signatures[type_index as usize];
            compiler.function_to_type_signature.push(sig);
            compiler.function_counter = compiler.function_counter + 1;
            let mut text: Vec<char> = Vec::new();
            push_str(&mut text, imp.module.as_str());
            push_str(&mut text, "/");
            push_str(&mut text, imp.name.as_str());
            let text = string_of(&text);
            module_template.set_var("AppendValue", items2(var(DF_VAR_STORE_FUNCS), string(text.as_str())));
            ok_step()
        },
        ImportKind::Memory { initial } => {
            if compiler.memory_type.is_some() {
                return Some(Err(DFWasmError::MultipleMemories));
            }
            compiler.memory_type = Some(initial);
            ok_step()
        },
        _ => None,
    }
}

fn function_one(compiler: &mut DFWasmCompiler, module_template: &mut Template, type_index: u32) -> (r: Option<DFWasmResult<()>>)
    requires
        wf(old(compiler)@),
    ensures
        match function_step((old(compiler)@, old(module_template)@), type_index) {
            None => r is None,
            Some(out) => r matches Some(res) && out == done(final(compiler)@, final(module_template)@, res),
        },
        wf(final(compiler)@),
        final(compiler).options == old(compiler).options,
        final(compiler).wasm == old(compiler).wasm,
{
    if type_index as usize >= compiler.function_signatures.len() {
        return None;
    }
    let sig = compiler.function_signatures[type_index as usize];
    compiler.function_to_type_signature.push(sig);
    ok_step()
}

fn memory_one(compiler: &mut DFWasmCompiler, module_template: &mut Template, initial: u64) -> (r: Option<DFWasmResult<()>>)
    requires
        wf(old(compiler)@),
    ensures
        match memory_step((old(compiler)@, old(module_template)@), initial) {
            None => r is None,
            Some(out) => r matches Some(res) && out == done(final(compiler)@, final(module_template)@, res),
        },
        wf(final(compiler)@),
        final(compiler).options == old(compiler).options,
        final(compiler).wasm == old(compiler).wasm,
{
    if compiler.memory_type.is_some() {
        return Some(Err(DFWasmError::MultipleMemories));
    }
    compiler.memory_type = Some(initial);
    ok_step()
}

fn export_one(compiler: &mut DFWasmCompiler, module_template: &mut Template, x: ExportInfo) -> (r: Option<DFWasmResult<()>>)
    requires
        wf(old(compiler)@),
    ensures
        match export_step((old(compiler)@, old(module_template)@), x) {
            None => r is None,
            Some(out) => r matches Some(res) && out == done(final(compiler)@, final(module_template)@, res),
        },
        wf(final(compiler)@),
        final(compiler).options == old(compiler).options,
        final(compiler).wasm == old(compiler).wasm,
{
    if x.is_func {
        module_template.set_var(
            "SetDictValue",
            items3(var(DF_VAR_EXPORTS), string(x.name.as_str()), num(u32_text(x.index).as_str())),
        );
    }
    ok_step()
}

fn table_one(compiler: &mut DFWasmCompiler, module_template: &mut Template, t: TableInfo) -> (r: Option<DFWasmResult<()>>)
    requires
        wf(old(compiler)@),
    ensures
        match table_step((old(compiler)@, old(module_template)@), t) {
            None => r is None,
            Some(out) => r matches Some(res) && out == done(final(compiler)@, final(module_template)@, res),
        },
        wf(final(compiler)@),
        final(compiler).options == old(compiler).options,
        final(compiler).wasm == old(compiler).wasm,
{
    let ghost m0 = module_template@;
    let TableInfo { initial, init } = t;
    if initial > 10000 {
        return Some(Err(DFWasmError::MaximumTableSize));
    }
    let init_value = match init {
        None => num("-1"),
        Some(e) => {
            if !const_expr_supported(&e) {
                return None;
            }
            match compiler.eval_const_expr(e) {
                Ok(item) => item,
                Err(err) => {
                    return Some(Err(err));
                },
            }
        },
    };
    if compiler.table_counter == usize::MAX {
        return None;
    }
    let ghost item = init_value@;
    compiler.table_to_init_expr.push(crate::template::clone_item(&init_value));
    let table_idx = compiler.table_counter;
    compiler.table_counter = table_idx + 1;
    let table_name = generate_table_name(table_idx);
    module_template.set_var("AppendValue", items2(var(DF_VAR_STORE_TABLES), string(table_name.as_str())));
    module_template.repeat("Multiple", items1(num(u64_text(initial).as_str()))).open_bracket_repeat().set_var(
        "AppendValue",
        items2(var(table_name.as_str()), init_value),
    ).close_bracket_repeat();
    proof {
        assert(module_template@ =~= m0 + table_fill_v(table_name@, initial, item));
        assert(compiler@.table_to_init_expr =~= old(compiler)@.table_to_init_expr.push(item));
    }
    ok_step()
}

fn global_one(compiler: &mut DFWasmCompiler, module_template: &mut Template, g: ConstExprInfo) -> (r: Option<DFWasmResult<()>>)
    requires
        wf(old(compiler)@),
    ensures
        match global_step((old(compiler)@, old(module_template)@), g) {
            None => r is None,
            Some(out) => r matches Some(res) && out == done(final(compiler)@, final(module_template)@, res),
        },
        wf(final(compiler)@),
        final(compiler).options == old(compiler).options,
        final(compiler).wasm == old(compiler).wasm,
{
    if !const_expr_supported(&g) {
        return None;
    }
    let init = match compiler.eval_const_expr(g) {
        Ok(item) => item,
        Err(err) => {
            return Some(Err(err));
        },
    };
    module_template.set_var("AppendValue", items2(var(DF_VAR_STORE_GLOBALS), init));
    ok_step()
}

fn element_one(compiler: &mut DFWasmCompiler, module_template: &mut Template, e: ElementInfo) -> (r: Option<DFWasmResult<()>>)
    requires
        wf(old(compiler)@),
    ensures
        match element_step((old(compiler)@, old(module_template)@), e) {
            None => r is None,
            Some(out) => r matches Some(res) && out == done(final(compiler)@, final(module_template)@, res),
        },
        wf(final(compiler)@),
        final(compiler).options == old(compiler).options,
        final(compiler).wasm == old(compiler).wasm,
{
    let ghost m0 = module_template@;
    let ElementInfo { kind, items } = e;
    let (table_index, offset) = match kind {
        ElementKindInfo::Active { table_index, offset } => {
            let ti: usize = match table_index {
                Some(t) => t as usize,
                None => 0,
            };
            if !const_offset_supported(&offset) {
                return None;
            }
            match compiler.eval_const_expr_as_offset(offset) {
                Ok(o) => (ti, o),
                Err(err) => {
                    return Some(Err(err));
                },
            }
        },
        _ => {
            return Some(Err(DFWasmError::NotYetImplemented("passive/declared elements")));
        },
    };
    let table_name = generate_table_name(table_index);
    match items {
        ElementItemsInfo::Functions { indices, error } => {
            if offset >= usize::MAX - indices.len() {
                return None;
            }
            let mut k: usize = 0;
            while k < indices.len()
                invariant
                    k <= indices@.len(),
                    offset + indices@.len() + 1 <= usize::MAX,
                    module_template@ == m0 + element_sets(table_name@, offset as nat, indices@.take(k as int)),
                decreases indices.len() - k,
            {
                module_template.set_var(
                    "SetListValue",
                    items3(var(table_name.as_str()), num(usize_text(offset + k + 1).as_str()), num(u32_text(indices[k]).as_str())),
                );
                k = k + 1;
                assert(module_template@ =~= m0 + element_sets(table_name@, offset as nat, indices@.take(k as int)));
            }
            assert(indices@.take(indices@.len() as int) =~= indices@);
            Some(
                match error {
                    Some(x) => Err(DFWasmError::ReadError(x)),
                    None => Ok(()),
                },
            )
        },
        ElementItemsInfo::Expressions => Some(Err(DFWasmError::NotYetImplemented("expression elements for tables"))),
    }
}

/// Stores `data` from `offset` on in batches of `size` bytes; `false`, with
/// the template in no particular state, where an address runs past `usize::MAX`.
fn compile_batched(module_template: &mut Template, offset: usize, data: &Vec<u8>, size: usize) -> (r: bool)
    ensures
        r == batched(offset as nat, data@, size as nat) is Some,
        r ==> final(module_template)@ == old(module_template)@ + batched(offset as nat, data@, size as nat).unwrap(),
{
    let ghost m0 = module_template@;
    let ghost len = data@.len() as int;
    let ghost mut start: int = 0;
    let ghost mut emitted: Seq<BlockV> = Seq::empty();
    let mut address = offset;
    let mut buffer: Vec<u8> = Vec::new();
    let mut i: usize = 0;
    proof {
        assert(data@.subrange(0, len) =~= data@);
    }
    while i < data.len()
        invariant
            len == data@.len(),
            0 <= start <= i <= len,
            buffer@ == data@.subrange(start, i as int),
            size > 0 ==> buffer@.len() < size,
            size == 0 ==> start == 0,
            module_template@ == m0 + emitted,
            batched(offset as nat, data@, size as nat) == match batched(address as nat, data@.subrange(start, len), size as nat) {
                Some(rest) => Some(emitted + rest),
                None => None,
            },
        decreases len - i,
    {
        buffer.push(data[i]);
        i = i + 1;
        proof {
            assert(buffer@ =~= data@.subrange(start, i as int));
        }
        if buffer.len() == size {
            let ghost rest = data@.subrange(start, len);
            proof {
                assert(rest.take(size as int) =~= buffer@);
                assert(rest.skip(size as int) =~= data@.subrange(start + size, len));
            }
            if address > usize::MAX - size {
                return false;
            }
            batch_call_exec(module_template, address, &buffer);
            proof {
                let prev = emitted;
                emitted = emitted.push(batch_call(address as nat, buffer@));
                start = start + size;
                assert(prev + seq![batch_call(address as nat, buffer@)] =~= emitted);
                match batched((address + size) as nat, data@.subrange(start, len), size as nat) {
                    Some(tail) => {
                        assert(prev + (seq![batch_call(address as nat, buffer@)] + tail) =~= emitted + tail);
                    },
                    None => {},
                }
            }
            address = address + size;
            buffer = Vec::new();
            proof {
                assert(buffer@ =~= data@.subrange(start, i as int));
            }
        }
    }
    if buffer.len() > 0 {
        batch_call_exec(module_template, address, &buffer);
    }
    proof {
        assert(buffer@ =~= data@.subrange(start, len));
    }
    true
}

/// Stores `data` from `offset` on, one block per byte; `false`, with the
/// template in no particular state, where an address runs past `usize::MAX`.
fn compile_bytes(module_template: &mut Template, offset: usize, data: &Vec<u8>) -> (r: bool)
    ensures
        r == data_blocks(None, offset as nat, data@) is Some,
        r ==> final(module_template)@ == old(module_template)@ + byte_sets(offset as nat, data@),
{
    let ghost m0 = module_template@;
    let mut i: usize = 0;
    while i < data.len()
        invariant
            i <= data@.len(),
            i > 0 ==> offset + i - 1 <= usize::MAX,
            module_template@ == m0 + byte_sets(offset as nat, data@.take(i as int)),
        decreases data.len() - i,
    {
        if offset > usize::MAX - i {
            return false;
        }
        let address = format_df_number_usize(offset + i);
        let mut name: Vec<char> = Vec::new();
        push_str(&mut name, "$mem_");
        push_str(&mut name, address.as_str());
        let name = string_of(&name);
        module_template.set_var("=", items2(var(name.as_str()), num(format_df_number_u64(data[i] as u64).as_str())));
        i = i + 1;
        assert(module_template@ =~= m0 + byte_sets(offset as nat, data@.take(i as int)));
    }
    assert(data@.take(data@.len() as int) =~= data@);
    true
}

/// Compiles one data segment: the bytes written into linear memory at the
/// segment's offset, one by one or in batches; `None` where the compiler stops short.
fn compile_data_initialization(compiler: &mut DFWasmCompiler, module_template: &mut Template, d: DataInfo) -> (r: Option<DFWasmResult<()>>)
    requires
        wf(old(compiler)@),
    ensures
        match data_step((old(compiler)@, old(module_template)@), d, batch_size(old(compiler).options@)) {
            None => r is None,
            Some(out) => r matches Some(res) && out == done(final(compiler)@, final(module_template)@, res),
        },
        wf(final(compiler)@),
        final(compiler).options == old(compiler).options,
        final(compiler).wasm == old(compiler).wasm,
{
    let DataInfo { kind, data } = d;
    let offset_expr = match kind {
        DataKindInfo::Passive => {
            return Some(Err(DFWasmError::NotYetImplemented("passive data sections")));
        },
        DataKindInfo::Active { offset } => offset,
    };
    if !const_offset_supported(&offset_expr) {
        return None;
    }
    let offset = match compiler.eval_const_expr_as_offset(offset_expr) {
        Ok(o) => o,
        Err(err) => {
            return Some(Err(err));
        },
    };
    let stored = match effective_batch_size(&compiler.options) {
        Some(size) => compile_batched(module_template, offset, &data, size),
        None => compile_bytes(module_template, offset, &data),
    };
    if stored {
        ok_step()
    } else {
        None
    }
}

/// Compiles an import section; `None` where the compiler stops short.
pub fn compile_imports(
    compiler: &mut DFWasmCompiler,
    module_template: &mut Template,
    items: Vec<ImportInfo>,
    error: Option<BinaryReaderError>,
) -> (r: Option<DFWasmResult<()>>)
    requires
        wf(old(compiler)@),
    ensures
        match then_read_error(run_items((old(compiler)@, old(module_template)@), items@, import_fn()), error) {
            None => r is None,
            Some(out) => r matches Some(res) && out == done(final(compiler)@, final(module_template)@, res),
        },
        wf(final(compiler)@),
        final(compiler).options == old(compiler).options,
        final(compiler).wasm == old(compiler).wasm,
{
    let ghost st0: St = (compiler@, module_template@);
    let ghost f = import_fn();
    let ghost orig = items@;
    let mut items = items;
    let mut result: Option<DFWasmResult<()>> = Some(Ok(()));
    let mut i: usize = 0;
    while i < items.len()
        invariant
            i <= orig.len(),
            items@.len() == orig.len(),
            forall|j: int| i <= j < orig.len() ==> items@[j] == orig[j],
            wf(compiler@),
            compiler.options == old(compiler).options,
            compiler.wasm == old(compiler).wasm,
            f == import_fn(),
            st0 == (old(compiler)@, old(module_template)@),
            result matches Some(Ok(_)) ==> run_items(st0, orig.take(i as int), f) == Some(
                ((compiler@, module_template@), Ok::<(), ErrV>(())),
            ),
            !(result matches Some(Ok(_))) ==> i == orig.len() && match run_items(st0, orig, f) {
                None => result is None,
                Some(out) => result matches Some(res) && out == done(compiler@, module_template@, res),
            },
        decreases orig.len() - i,
    {
        proof {
            lemma_run_step(st0, orig, f, i as int);
            assert(f((compiler@, module_template@), orig[i as int]) == import_step((compiler@, module_template@), orig[i as int]));
        }
        let item = take_item(&mut items, i, ImportInfo { module: String::new(), name: String::new(), kind: ImportKind::Table });
        let res = import_one(compiler, module_template, item);
        if res.is_some() && res.as_ref().unwrap().is_ok() {
            i = i + 1;
        } else {
            proof {
                lemma_run_stops(st0, orig, f, i + 1);
            }
            result = res;
            i = items.len();
        }
    }
    if !(result.is_some() && result.as_ref().unwrap().is_ok()) {
        return result;
    }
    proof {
        assert(orig.take(orig.len() as int) =~= orig);
    }
    Some(
        match error {
            Some(e) => Err(DFWasmError::ReadError(e)),
            None => Ok(()),
        },
    )
}

/// Compiles a function section; `None` where the compiler stops short.
pub fn compile_functions(
    compiler: &mut DFWasmCompiler,
    module_template: &mut Template,
    items: Vec<u32>,
    error: Option<BinaryReaderError>,
) -> (r: Option<DFWasmResult<()>>)
    requires
        wf(old(compiler)@),
    ensures
        match then_read_error(run_items((old(compiler)@, old(module_template)@), items@, function_fn()), error) {
            None => r is None,
            Some(out) => r matches Some(res) && out == done(final(compiler)@, final(module_template)@, res),
        },
        wf(final(compiler)@),
        final(compiler).options == old(compiler).options,
        final(compiler).wasm == old(compiler).wasm,
{
    let ghost st0: St = (compiler@, module_template@);
    let ghost f = function_fn();
    let ghost orig = items@;
    let mut items = items;
    let mut result: Option<DFWasmResult<()>> = Some(Ok(()));
    let mut i: usize = 0;
    while i < items.len()
        invariant
            i <= orig.len(),
            items@.len() == orig.len(),
            forall|j: int| i <= j < orig.len() ==> items@[j] == orig[j],
            wf(compiler@),
            compiler.options == old(compiler).options,
            compiler.wasm == old(compiler).wasm,
            f == function_fn(),
            st0 == (old(compiler)@, old(module_template)@),
            result matches Some(Ok(_)) ==> run_items(st0, orig.take(i as int), f) == Some(
                ((compiler@, module_template@), Ok::<(), ErrV>(())),
            ),
            !(result matches Some(Ok(_))) ==> i == orig.len() && match run_items(st0, orig, f) {
                None => result is None,
                Some(out) => result matches Some(res) && out == done(compiler@, module_template@, res),
            },
        decreases orig.len() - i,
    {
        proof {
            lemma_run_step(st0, orig, f, i as int);
            assert(f((compiler@, module_template@), orig[i as int]) == function_step((compiler@, module_template@), orig[i as int]));
        }
        let item = take_item(&mut items, i, 0);
        let res = function_one(compiler, module_template, item);
        if res.is_some() && res.as_ref().unwrap().is_ok() {
            i = i + 1;
        } else {
            proof {
                lemma_run_stops(st0, orig, f, i + 1);
            }
            result = res;
            i = items.len();
        }
    }
    if !(result.is_some() && result.as_ref().unwrap().is_ok()) {
        return result;
    }
    proof {
        assert(orig.take(orig.len() as int) =~= orig);
    }
    Some(
        match error {
            Some(e) => Err(DFWasmError::ReadError(e)),
            None => Ok(()),
        },
    )
}

/// Compiles a table section; `None` where the compiler stops short.
pub fn compile_tables(
    compiler: &mut DFWasmCompiler,
    module_template: &mut Template,
    items: Vec<TableInfo>,
    error: Option<BinaryReaderError>,
) -> (r: Option<DFWasmResult<()>>)
    requires
        wf(old(compiler)@),
    ensures
        match then_read_error(run_items((old(compiler)@, old(module_template)@), items@, table_fn()), error) {
            None => r is None,
            Some(out) => r matches Some(res) && out == done(final(compiler)@, final(module_template)@, res),
        },
        wf(final(compiler)@),
        final(compiler).options == old(compiler).options,
        final(compiler).wasm == old(compiler).wasm,
{
    let ghost st0: St = (compiler@, module_template@);
    let ghost f = table_fn();
    let ghost orig = items@;
    let mut items = items;
    let mut result: Option<DFWasmResult<()>> = Some(Ok(()));
    let mut i: usize = 0;
    while i < items.len()
        invariant
            i <= orig.len(),
            items@.len() == orig.len(),
            forall|j: int| i <= j < orig.len() ==> items@[j] == orig[j],
            wf(compiler@),
            compiler.options == old(compiler).options,
            compiler.wasm == old(compiler).wasm,
            f == table_fn(),
            st0 == (old(compiler)@, old(module_template)@),
            result matches Some(Ok(_)) ==> run_items(st0, orig.take(i as int), f) == Some(
                ((compiler@, module_template@), Ok::<(), ErrV>(())),
            ),
            !(result matches Some(Ok(_))) ==> i == orig.len() && match run_items(st0, orig, f) {
                None => result is None,
                Some(out) => result matches Some(res) && out == done(compiler@, module_template@, res),
            },
        decreases orig.len() - i,
    {
        proof {
            lemma_run_step(st0, orig, f, i as int);
            assert(f((compiler@, module_template@), orig[i as int]) == table_step((compiler@, module_template@), orig[i as int]));
        }
        let item = take_item(&mut items, i, TableInfo { initial: 0, init: None });
        let res = table_one(compiler, module_template, item);
        if res.is_some() && res.as_ref().unwrap().is_ok() {
            i = i + 1;
        } else {
            proof {
                lemma_run_stops(st0, orig, f, i + 1);
            }
            result = res;
            i = items.len();
        }
    }
    if !(result.is_some() && result.as_ref().unwrap().is_ok()) {
        return result;
    }
    proof {
        assert(orig.take(orig.len() as int) =~= orig);
    }
    Some(
        match error {
            Some(e) => Err(DFWasmError::ReadError(e)),
            None => Ok(()),
        },
    )
}

/// Compiles a memory section; `None` where the compiler stops short.
pub fn compile_memories(
    compiler: &mut DFWasmCompiler,
    module_template: &mut Template,
    items: Vec<u64>,
    error: Option<BinaryReaderError>,
) -> (r: Option<DFWasmResult<()>>)
    requires
        wf(old(compiler)@),
    ensures
        match then_read_error(run_items((old(compiler)@, old(module_template)@), items@, memory_fn()), error) {
            None => r is None,
            Some(out) => r matches Some(res) && out == done(final(compiler)@, final(module_template)@, res),
        },
        wf(final(compiler)@),
        final(compiler).options == old(compiler).options,
        final(compiler).wasm == old(compiler).wasm,
{
    let ghost st0: St = (compiler@, module_template@);
    let ghost f = memory_fn();
    let ghost orig = items@;
    let mut items = items;
    let mut result: Option<DFWasmResult<()>> = Some(Ok(()));
    let mut i: usize = 0;
    while i < items.len()
        invariant
            i <= orig.len(),
            items@.len() == orig.len(),
            forall|j: int| i <= j < orig.len() ==> items@[j] == orig[j],
            wf(compiler@),
            compiler.options == old(compiler).options,
            compiler.wasm == old(compiler).wasm,
            f == memory_fn(),
            st0 == (old(compiler)@, old(module_template)@),
            result matches Some(Ok(_)) ==> run_items(st0, orig.take(i as int), f) == Some(
                ((compiler@, module_template@), Ok::<(), ErrV>(())),
            ),
            !(result matches Some(Ok(_))) ==> i == orig.len() && match run_items(st0, orig, f) {
                None => result is None,
                Some(out) => result matches Some(res) && out == done(compiler@, module_template@, res),
            },
        decreases orig.len() - i,
    {
        proof {
            lemma_run_step(st0, orig, f, i as int);
            assert(f((compiler@, module_template@), orig[i as int]) == memory_step((compiler@, module_template@), orig[i as int]));
        }
        let item = take_item(&mut items, i, 0);
        let res = memory_one(compiler, module_template, item);
        if res.is_some() && res.as_ref().unwrap().is_ok() {
            i = i + 1;
        } else {
            proof {
                lemma_run_stops(st0, orig, f, i + 1);
            }
            result = res;
            i = items.len();
        }
    }
    if !(result.is_some() && result.as_ref().unwrap().is_ok()) {
        return result;
    }
    proof {
        assert(orig.take(orig.len() as int) =~= orig);
    }
    Some(
        match error {
            Some(e) => Err(DFWasmError::ReadError(e)),
            None => Ok(()),
        },
    )
}

/// Compiles a global section; `None` where the compiler stops short.
pub fn compile_globals(
    compiler: &mut DFWasmCompiler,
    module_template: &mut Template,
    items: Vec<ConstExprInfo>,
    error: Option<BinaryReaderError>,
) -> (r: Option<DFWasmResult<()>>)
    requires
        wf(old(compiler)@),
    ensures
        match then_read_error(run_items((old(compiler)@, old(module_template)@), items@, global_fn()), error) {
            None => r is None,
            Some(out) => r matches Some(res) && out == done(final(compiler)@, final(module_template)@, res),
        },
        wf(final(compiler)@),
        final(compiler).options == old(compiler).options,
        final(compiler).wasm == old(compiler).wasm,
{
    let ghost st0: St = (compiler@, module_template@);
    let ghost f = global_fn();
    let ghost orig = items@;
    let mut items = items;
    let mut result: Option<DFWasmResult<()>> = Some(Ok(()));
    let mut i: usize = 0;
    while i < items.len()
        invariant
            i <= orig.len(),
            items@.len() == orig.len(),
            forall|j: int| i <= j < orig.len() ==> items@[j] == orig[j],
            wf(compiler@),
            compiler.options == old(compiler).options,
            compiler.wasm == old(compiler).wasm,
            f == global_fn(),
            st0 == (old(compiler)@, old(module_template)@),
            result matches Some(Ok(_)) ==> run_items(st0, orig.take(i as int), f) == Some(
                ((compiler@, module_template@), Ok::<(), ErrV>(())),
            ),
            !(result matches Some(Ok(_))) ==> i == orig.len() && match run_items(st0, orig, f) {
                None => result is None,
                Some(out) => result matches Some(res) && out == done(compiler@, module_template@, res),
            },
        decreases orig.len() - i,
    {
        proof {
            lemma_run_step(st0, orig, f, i as int);
            assert(f((compiler@, module_template@), orig[i as int]) == global_step((compiler@, module_template@), orig[i as int]));
        }
        let item = take_item(&mut items, i, ConstExprInfo { ops: Vec::new(), error: None });
        let res = global_one(compiler, module_template, item);
        if res.is_some() && res.as_ref().unwrap().is_ok() {
            i = i + 1;
        } else {
            proof {
                lemma_run_stops(st0, orig, f, i + 1);
            }
            result = res;
            i = items.len();
        }
    }
    if !(result.is_some() && result.as_ref().unwrap().is_ok()) {
        return result;
    }
    proof {
        assert(orig.take(orig.len() as int) =~= orig);
    }
    Some(
        match error {
            Some(e) => Err(DFWasmError::ReadError(e)),
            None => Ok(()),
        },
    )
}

/// Compiles an export section: creates the exports, then records each function export; `None` where the compiler stops short.
pub fn compile_exports(
    compiler: &mut DFWasmCompiler,
    module_template: &mut Template,
    items: Vec<ExportInfo>,
    error: Option<BinaryReaderError>,
) -> (r: Option<DFWasmResult<()>>)
    requires
        wf(old(compiler)@),
    ensures
        match then_read_error(run_items((old(compiler)@, old(module_template)@.push(create_exports_v())), items@, export_fn()), error) {
            None => r is None,
            Some(out) => r matches Some(res) && out == done(final(compiler)@, final(module_template)@, res),
        },
        wf(final(compiler)@),
        final(compiler).options == old(compiler).options,
        final(compiler).wasm == old(compiler).wasm,
{
    module_template.set_var("CreateDict", items1(var(DF_VAR_EXPORTS)));
    let ghost st0: St = (compiler@, module_template@);
    let ghost f = export_fn();
    let ghost orig = items@;
    let mut items = items;
    let mut result: Option<DFWasmResult<()>> = Some(Ok(()));
    let mut i: usize = 0;
    while i < items.len()
        invariant
            i <= orig.len(),
            items@.len() == orig.len(),
            forall|j: int| i <= j < orig.len() ==> items@[j] == orig[j],
            wf(compiler@),
            compiler.options == old(compiler).options,
            compiler.wasm == old(compiler).wasm,
            f == export_fn(),
            st0 == (old(compiler)@, old(module_template)@.push(create_exports_v())),
            result matches Some(Ok(_)) ==> run_items(st0, orig.take(i as int), f) == Some(
                ((compiler@, module_template@), Ok::<(), ErrV>(())),
            ),
            !(result matches Some(Ok(_))) ==> i == orig.len() && match run_items(st0, orig, f) {
                None => result is None,
                Some(out) => result matches Some(res) && out == done(compiler@, module_template@, res),
            },
        decreases orig.len() - i,
    {
        proof {
            lemma_run_step(st0, orig, f, i as int);
            assert(f((compiler@, module_template@), orig[i as int]) == export_step((compiler@, module_template@), orig[i as int]));
        }
        let item = take_item(&mut items, i, ExportInfo { name: String::new(), is_func: false, index: 0 });
        let res = export_one(compiler, module_template, item);
        if res.is_some() && res.as_ref().unwrap().is_ok() {
            i = i + 1;
        } else {
            proof {
                lemma_run_stops(st0, orig, f, i + 1);
            }
            result = res;
            i = items.len();
        }
    }
    if !(result.is_some() && result.as_ref().unwrap().is_ok()) {
        return result;
    }
    proof {
        assert(orig.take(orig.len() as int) =~= orig);
    }
    Some(
        match error {
            Some(e) => Err(DFWasmError::ReadError(e)),
            None => Ok(()),
        },
    )
}

/// Compiles an element section; `None` where the compiler stops short.
pub fn compile_elements(
    compiler: &mut DFWasmCompiler,
    module_template: &mut Template,
    items: Vec<ElementInfo>,
    error: Option<BinaryReaderError>,
) -> (r: Option<DFWasmResult<()>>)
    requires
        wf(old(compiler)@),
    ensures
        match then_read_error(run_items((old(compiler)@, old(module_template)@), items@, element_fn()), error) {
            None => r is None,
            Some(out) => r matches Some(res) && out == done(final(compiler)@, final(module_template)@, res),
        },
        wf(final(compiler)@),
        final(compiler).options == old(compiler).options,
        final(compiler).wasm == old(compiler).wasm,
{
    let ghost st0: St = (compiler@, module_template@);
    let ghost f = element_fn();
    let ghost orig = items@;
    let mut items = items;
    let mut result: Option<DFWasmResult<()>> = Some(Ok(()));
    let mut i: usize = 0;
    while i < items.len()
        invariant
            i <= orig.len(),
            items@.len() == orig.len(),
            forall|j: int| i <= j < orig.len() ==> items@[j] == orig[j],
            wf(compiler@),
            compiler.options == old(compiler).options,
            compiler.wasm == old(compiler).wasm,
            f == element_fn(),
            st0 == (old(compiler)@, old(module_template)@),
            result matches Some(Ok(_)) ==> run_items(st0, orig.take(i as int), f) == Some(
                ((compiler@, module_template@), Ok::<(), ErrV>(())),
            ),
            !(result matches Some(Ok(_))) ==> i == orig.len() && match run_items(st0, orig, f) {
                None => result is None,
                Some(out) => result matches Some(res) && out == done(compiler@, module_template@, res),
            },
        decreases orig.len() - i,
    {
        proof {
            lemma_run_step(st0, orig, f, i as int);
            assert(f((compiler@, module_template@), orig[i as int]) == element_step((compiler@, module_template@), orig[i as int]));
        }
        let item = take_item(&mut items, i, ElementInfo { kind: ElementKindInfo::Passive, items: ElementItemsInfo::Expressions });
        let res = element_one(compiler, module_template, item);
        if res.is_some() && res.as_ref().unwrap().is_ok() {
            i = i + 1;
        } else {
            proof {
                lemma_run_stops(st0, orig, f, i + 1);
            }
            result = res;
            i = items.len();
        }
    }
    if !(result.is_some() && result.as_ref().unwrap().is_ok()) {
        return result;
    }
    proof {
        assert(orig.take(orig.len() as int) =~= orig);
    }
    Some(
        match error {
            Some(e) => Err(DFWasmError::ReadError(e)),
            None => Ok(()),
        },
    )
}

/// Compiles a data section; `None` where the compiler stops short.
pub fn compile_data(
    compiler: &mut DFWasmCompiler,
    module_template: &mut Template,
    items: Vec<DataInfo>,
    error: Option<BinaryReaderError>,
) -> (r: Option<DFWasmResult<()>>)
    requires
        wf(old(compiler)@),
    ensures
        match then_read_error(run_items((old(compiler)@, old(module_template)@), items@, data_fn(batch_size(old(compiler).options@))), error) {
            None => r is None,
            Some(out) => r matches Some(res) && out == done(final(compiler)@, final(module_template)@, res),
        },
        wf(final(compiler)@),
        final(compiler).options == old(compiler).options,
        final(compiler).wasm == old(compiler).wasm,
{
    let ghost st0: St = (compiler@, module_template@);
    let ghost f = data_fn(batch_size(old(compiler).options@));
    let ghost orig = items@;
    let mut items = items;
    let mut result: Option<DFWasmResult<()>> = Some(Ok(()));
    let mut i: usize = 0;
    while i < items.len()
        invariant
            i <= orig.len(),
            items@.len() == orig.len(),
            forall|j: int| i <= j < orig.len() ==> items@[j] == orig[j],
            wf(compiler@),
            compiler.options == old(compiler).options,
            compiler.wasm == old(compiler).wasm,
            f == data_fn(batch_size(old(compiler).options@)),
            st0 == (old(compiler)@, old(module_template)@),
            result matches Some(Ok(_)) ==> run_items(st0, orig.take(i as int), f) == Some(
                ((compiler@, module_template@), Ok::<(), ErrV>(())),
            ),
            !(result matches Some(Ok(_))) ==> i == orig.len() && match run_items(st0, orig, f) {
                None => result is None,
                Some(out) => result matches Some(res) && out == done(compiler@, module_template@, res),
            },
        decreases orig.len() - i,
    {
        proof {
            lemma_run_step(st0, orig, f, i as int);
            assert(f((compiler@, module_template@), orig[i as int]) == data_step((compiler@, module_template@), orig[i as int], batch_size(old(compiler).options@)));
        }
        let item = take_item(&mut items, i, DataInfo { kind: DataKindInfo::Passive, data: Vec::new() });
        let res = compile_data_initialization(compiler, module_template, item);
        if res.is_some() && res.as_ref().unwrap().is_ok() {
            i = i + 1;
        } else {
            proof {
                lemma_run_stops(st0, orig, f, i + 1);
            }
            result = res;
            i = items.len();
        }
    }
    if !(result.is_some() && result.as_ref().unwrap().is_ok()) {
        return result;
    }
    proof {
        assert(orig.take(orig.len() as int) =~= orig);
    }
    Some(
        match error {
            Some(e) => Err(DFWasmError::ReadError(e)),
            None => Ok(()),
        },
    )
}

fn op_one(compiler: &mut DFWasmCompiler, module_template: &mut Template, e: OpEntry) -> (r: Option<DFWasmResult<()>>)
    requires
        wf(old(compiler)@),
    ensures
        match op_step(old(compiler).options@, (old(compiler)@, old(module_template)@), e) {
            None => r is None,
            Some(out) => r matches Some(res) && out == done(final(compiler)@, final(module_template)@, res),
        },
        wf(final(compiler)@),
        final(compiler).options == old(compiler).options,
        final(compiler).wasm == old(compiler).wasm,
{
    reveal(op_step);
    let OpEntry { op, text, location } = e;
    if !crate::operators::operator_ok(compiler, &op, location) {
        return None;
    }
    Some(compile_operator(compiler, op, text.as_str(), location))
}

/// Compiles the operators of a function body, with the options `o`.
fn compile_code_ops(
    compiler: &mut DFWasmCompiler,
    module_template: &mut Template,
    items: Vec<OpEntry>,
    error: Option<BinaryReaderError>,
    Ghost(o): Ghost<OptionsV>,
) -> (r: Option<DFWasmResult<()>>)
    requires
        wf(old(compiler)@),
        o == old(compiler).options@,
    ensures
        match then_read_error(run_items((old(compiler)@, old(module_template)@), items@, op_fn(o)), error) {
            None => r is None,
            Some(out) => r matches Some(res) && out == done(final(compiler)@, final(module_template)@, res),
        },
        wf(final(compiler)@),
        final(compiler).options == old(compiler).options,
        final(compiler).wasm == old(compiler).wasm,
{
    let ghost st0: St = (compiler@, module_template@);
    let ghost f = op_fn(o);
    let ghost orig = items@;
    let mut items = items;
    let mut result: Option<DFWasmResult<()>> = Some(Ok(()));
    let mut i: usize = 0;
    while i < items.len()
        invariant
            i <= orig.len(),
            items@.len() == orig.len(),
            forall|j: int| i <= j < orig.len() ==> items@[j] == orig[j],
            wf(compiler@),
            compiler.options == old(compiler).options,
            compiler.wasm == old(compiler).wasm,
            f == op_fn(o),
            o == old(compiler).options@,
            st0 == (old(compiler)@, old(module_template)@),
            result matches Some(Ok(_)) ==> run_items(st0, orig.take(i as int), f) == Some(
                ((compiler@, module_template@), Ok::<(), ErrV>(())),
            ),
            !(result matches Some(Ok(_))) ==> i == orig.len() && match run_items(st0, orig, f) {
                None => result is None,
                Some(out) => result matches Some(res) && out == done(compiler@, module_template@, res),
            },
        decreases orig.len() - i,
    {
        proof {
            lemma_run_step(st0, orig, f, i as int);
            assert(f((compiler@, module_template@), orig[i as int]) == op_step(o, (compiler@, module_template@), orig[i as int]));
        }
        let item = take_item(&mut items, i, OpEntry { op: WasmOp::Nop, text: String::new(), location: 0 });
        let res = op_one(compiler, module_template, item);
        if res.is_some() && res.as_ref().unwrap().is_ok() {
            i = i + 1;
        } else {
            proof {
                lemma_run_stops(st0, orig, f, i + 1);
            }
            result = res;
            i = items.len();
        }
    }
    if !(result.is_some() && result.as_ref().unwrap().is_ok()) {
        return result;
    }
    proof {
        assert(orig.take(orig.len() as int) =~= orig);
    }
    Some(
        match error {
            Some(e) => Err(DFWasmError::ReadError(e)),
            None => Ok(()),
        },
    )
}

/// Compiles a function body: its start, then its operators (see
/// [`code_outcome`]); `None` where the compiler stops short.
pub fn compile_code(
    compiler: &mut DFWasmCompiler,
    module_template: &mut Template,
    ops: Vec<OpEntry>,
    error: Option<BinaryReaderError>,
) -> (r: Option<DFWasmResult<()>>)
    requires
        wf(old(compiler)@),
    ensures
        match code_outcome(old(compiler).options@, (old(compiler)@, old(module_template)@), ops@, error) {
            None => r is None,
            Some(out) => r matches Some(res) && out == done(final(compiler)@, final(module_template)@, res),
        },
        wf(final(compiler)@),
        final(compiler).options == old(compiler).options,
        final(compiler).wasm == old(compiler).wasm,
{
    let ghost s0 = compiler@;
    if compiler.function_counter == usize::MAX {
        return None;
    }
    let func_id = compiler.function_counter;
    compiler.function_counter = func_id + 1;
    let func_name = generate_function_name(func_id, module_name_str(&compiler.options.module_name));
    module_template.set_var("AppendValue", items2(var(DF_VAR_STORE_FUNCS), string(func_name.as_str())));
    compiler.templates.push(Template::start_function(func_name.as_str()));
    let idx = compiler.templates.len() - 1;
    compiler.control_stack.push(ControlStackEntry::FunctionStart(idx));
    proof {
        let e = compiler@;
        assert(crate::splitter::templates_view(compiler.templates@) =~= s0.templates.push(
            seq![BlockV::Function { args: Seq::empty(), name: func_name@ }],
        ));
        assert forall|i: int| 0 <= i < e.templates.len() implies #[trigger] crate::template::template_name(e.templates[i]) is Some by {
            if i < s0.templates.len() {
                assert(crate::template::template_name(s0.templates[i]) is Some);
            }
        }
        assert forall|i: int| 0 <= i < e.control_stack.len() implies crate::compiler::entry_index(#[trigger] e.control_stack[i]) < e.templates.len() by {
            if i < s0.control_stack.len() {
                assert(crate::compiler::entry_index(s0.control_stack[i]) < s0.templates.len());
            }
        }
    }
    compile_code_ops(compiler, module_template, ops, error, Ghost(compiler.options@))
}


// ---------------------------------------------------------------------------
// Sections
// ---------------------------------------------------------------------------

/// The effect of a section with options `o`: version 1 of a core module is
/// accepted; each list of items is compiled in turn; components, tags,
/// unknown sections and other payloads are refused.
pub open spec fn section_outcome(o: OptionsV, st: St, sec: Section) -> Outcome {
    let (c, m) = st;
    match sec {
        Section::Version { num, is_component } => if num != 1 {
            Some((st, Err(ErrV::UnsupportedVersion(num))))
        } else if is_component {
            Some((st, Err(ErrV::UnsupportedComponents)))
        } else {
            Some((st, Ok(())))
        },
        Section::Types { items, error } => then_read_error(
            Some(((CompilerV { function_signatures: c.function_signatures + items@, ..c }, m), Ok(()))),
            error,
        ),
        Section::Imports { items, error } => then_read_error(run_items(st, items@, import_fn()), error),
        Section::Functions { items, error } => then_read_error(run_items(st, items@, function_fn()), error),
        Section::Tables { items, error } => then_read_error(run_items(st, items@, table_fn()), error),
        Section::Memories { items, error } => then_read_error(run_items(st, items@, memory_fn()), error),
        Section::Globals { items, error } => then_read_error(run_items(st, items@, global_fn()), error),
        Section::Exports { items, error } => then_read_error(
            run_items((c, m.push(create_exports_v())), items@, export_fn()),
            error,
        ),
        Section::Start { func } => if c.start_method is Some {
            Some((st, Err(ErrV::MultipleStartMethods)))
        } else {
            Some(((CompilerV { start_method: Some(func as usize), ..c }, m), Ok(())))
        },
        Section::Elements { items, error } => then_read_error(run_items(st, items@, element_fn()), error),
        Section::Data { items, error } => then_read_error(run_items(st, items@, data_fn(batch_size(o))), error),
        Section::Code { ops, error } => code_outcome(o, st, ops@, error),
        Section::DataCount | Section::CodeStart | Section::Custom | Section::End => Some((st, Ok(()))),
        Section::Component => Some((st, Err(ErrV::UnsupportedComponents))),
        Section::Tag => Some((st, Err(ErrV::UnsupportedTags))),
        Section::Unknown { id } => Some((st, Err(ErrV::UnknownSection(id)))),
        Section::Other => Some((st, Err(ErrV::UnknownPayload))),
    }
}

pub open spec fn section_fn(o: OptionsV) -> spec_fn(St, Section) -> Outcome {
    |st: St, sec: Section| section_outcome(o, st, sec)
}

/// Compiles a type section.
fn compile_types(
    compiler: &mut DFWasmCompiler,
    module_template: &mut Template,
    items: Vec<RecGroupInfo>,
    error: Option<BinaryReaderError>,
) -> (r: Option<DFWasmResult<()>>)
    requires
        wf(old(compiler)@),
    ensures
        match then_read_error(
            Some(
                (
                    (
                        CompilerV {
                            function_signatures: old(compiler)@.function_signatures + items@,
                            ..old(compiler)@
                        },
                        old(module_template)@,
                    ),
                    Ok(()),
                ),
            ),
            error,
        ) {
            None => r is None,
            Some(out) => r matches Some(res) && out == done(final(compiler)@, final(module_template)@, res),
        },
        wf(final(compiler)@),
        final(compiler).options == old(compiler).options,
        final(compiler).wasm == old(compiler).wasm,
{
    let mut i: usize = 0;
    while i < items.len()
        invariant
            i <= items@.len(),
            compiler@ == (CompilerV {
                function_signatures: old(compiler)@.function_signatures + items@.take(i as int),
                ..old(compiler)@
            }),
            module_template@ == old(module_template)@,
            wf(old(compiler)@),
            wf(compiler@),
            compiler.options == old(compiler).options,
            compiler.wasm == old(compiler).wasm,
        decreases items.len() - i,
    {
        compiler.function_signatures.push(items[i]);
        i = i + 1;
        assert(compiler@.function_signatures =~= old(compiler)@.function_signatures + items@.take(i as int));
    }
    assert(items@.take(items@.len() as int) =~= items@);
    Some(
        match error {
            Some(e) => Err(DFWasmError::ReadError(e)),
            None => Ok(()),
        },
    )
}

/// Compiles a section of a module (see [`section_outcome`]); `None` where the
/// compiler stops short.
pub fn compile_section(compiler: &mut DFWasmCompiler, module_template: &mut Template, section: Section) -> (r: Option<
    DFWasmResult<()>,
>)
    requires
        wf(old(compiler)@),
    ensures
        match section_outcome(old(compiler).options@, (old(compiler)@, old(module_template)@), section) {
            None => r is None,
            Some(out) => r matches Some(res) && out == done(final(compiler)@, final(module_template)@, res),
        },
        wf(final(compiler)@),
        final(compiler).options == old(compiler).options,
        final(compiler).wasm == old(compiler).wasm,
{
    match section {
        Section::Version { num, is_component } => {
            if num != 1 {
                return Some(Err(DFWasmError::UnsupportedVersion(num)));
            }
            if is_component {
                return Some(Err(DFWasmError::UnsupportedComponents));
            }
            ok_step()
        },
        Section::Types { items, error } => compile_types(compiler, module_template, items, error),
        Section::Imports { items, error } => compile_imports(compiler, module_template, items, error),
        Section::Functions { items, error } => compile_functions(compiler, module_template, items, error),
        Section::Tables { items, error } => compile_tables(compiler, module_template, items, error),
        Section::Memories { items, error } => compile_memories(compiler, module_template, items, error),
        Section::Globals { items, error } => compile_globals(compiler, module_template, items, error),
        Section::Exports { items, error } => compile_exports(compiler, module_template, items, error),
        Section::Start { func } => {
            if compiler.start_method.is_some() {
                return Some(Err(DFWasmError::MultipleStartMethods));
            }
            compiler.start_method = Some(func as usize);
            ok_step()
        },
        Section::Elements { items, error } => compile_elements(compiler, module_template, items, error),
        Section::Data { items, error } => compile_data(compiler, module_template, items, error),
        Section::Code { ops, error } => compile_code(compiler, module_template, ops, error),
        Section::DataCount | Section::CodeStart | Section::Custom | Section::End => ok_step(),
        Section::Component => Some(Err(DFWasmError::UnsupportedComponents)),
        Section::Tag => Some(Err(DFWasmError::UnsupportedTags)),
        Section::Unknown { id } => Some(Err(DFWasmError::UnknownSection(id))),
        Section::Other => Some(Err(DFWasmError::UnknownPayload)),
    }
}

/// The list, entry and value that a block writes, where it sets an entry of a
/// list to a number, both given in decimal digits.
pub open spec fn list_write(b: BlockV) -> Option<(Seq<char>, nat, nat)> {
    match b {
        BlockV::SetVariable { args, action } => if action == "SetListValue"@ && args.len() == 3 {
            match (args[0].1, args[1].1, args[2].1) {
                (
                    crate::template::ItemV::Variable { name, .. },
                    crate::template::ItemV::Number { name: at },
                    crate::template::ItemV::Number { name: value },
                ) => if at.len() > 0 && crate::names::all_digits(at) && value.len() > 0 && crate::names::all_digits(
                    value,
                ) {
                    Some((name, crate::names::digits_value(at), crate::names::digits_value(value)))
                } else {
                    None
                },
                _ => None,
            }
        } else {
            None
        },
        _ => None,
    }
}

/// An active element segment at offset `o` puts its `i`-th function index in
/// the table at index `o + i`. DiamondFire lists count their entries from 1,
/// so its code writes that function index to entry `o + i + 1` of the
/// table's list, the entry that `call_indirect` and `table.get` read for
/// index `o + i`; one block per function index, in order.
pub proof fn lemma_element_entries(name: Seq<char>, offset: nat, indices: Seq<u32>)
    ensures
        element_sets(name, offset, indices).len() == indices.len(),
        forall|i: int|
            0 <= i < indices.len() ==> list_write(#[trigger] element_sets(name, offset, indices)[i]) == Some(
                (name, (offset + i + 1) as nat, indices[i] as nat),
            ),
{
    assert forall|i: int| 0 <= i < indices.len() implies list_write(
        #[trigger] element_sets(name, offset, indices)[i],
    ) == Some((name, (offset + i + 1) as nat, indices[i] as nat)) by {
        crate::df_helper::lemma_dec_digits((offset + i + 1) as nat);
        crate::df_helper::lemma_dec_digits(indices[i] as nat);
    }
}

/// Data initialization stores byte `i` of a segment at address `o + i`: one
/// block per byte, in order, each assigning to the memory variable of that
/// address a number that reads back as the byte's value; and different
/// addresses have different memory variables.
pub proof fn lemma_data_bytes(o: nat, d: Seq<u8>, j: nat, k: nat)
    ensures
        byte_sets(o, d).len() == d.len(),
        forall|i: int|
            0 <= i < d.len() ==> (crate::operators::basic::assigned(#[trigger] byte_sets(o, d)[i]) matches Some(
                (v, crate::template::ItemV::Number { name: t }),
            ) && v == mem_var((o + i) as nat) && crate::df_helper::number_value(t) == Some(d[i] as int)),
        j != k ==> mem_var(j) != mem_var(k),
{
    assert forall|i: int| 0 <= i < d.len() implies (crate::operators::basic::assigned(
        #[trigger] byte_sets(o, d)[i],
    ) matches Some((v, crate::template::ItemV::Number { name: t })) && v == mem_var((o + i) as nat)
        && crate::df_helper::number_value(t) == Some(d[i] as int)) by {
        crate::df_helper::lemma_number_text_value(d[i] as int);
    }
    if j != k && mem_var(j) == mem_var(k) {
        reveal_strlit("$mem_");
        assert(mem_var(j).skip(5) =~= df_text(false, j));
        assert(mem_var(k).skip(5) =~= df_text(false, k));
        crate::df_helper::lemma_number_text_value(j as int);
        crate::df_helper::lemma_number_text_value(k as int);
    }
}

/// The end of the `j`-th batch of `size` bytes out of `len`.
pub open spec fn batch_end(j: nat, size: nat, len: nat) -> nat {
    if (j + 1) * size <= len {
        (j + 1) * size
    } else {
        len
    }
}

/// Batched data initialization stores the whole segment, each byte at its
/// address: with a batch size `size > 0`, the `j`-th call stores the bytes from
/// `j * size` up to the next `size` bytes (or to the end of the data) at
/// address `a + j * size`, and there are just enough calls for all bytes.
pub proof fn lemma_batches_cover(a: nat, bytes: Seq<u8>, size: nat)
    requires
        size > 0,
        batched(a, bytes, size) is Some,
    ensures
        ({
            let c = batched(a, bytes, size).unwrap();
            &&& c.len() * size >= bytes.len()
            &&& c.len() > 0 ==> (c.len() - 1) * size < bytes.len()
            &&& forall|j: int|
                0 <= j < c.len() ==> #[trigger] c[j] == batch_call(
                    (a + j * size) as nat,
                    bytes.subrange(j * size, batch_end(j as nat, size, bytes.len()) as int),
                )
        }),
    decreases bytes.len(),
{
    let c = batched(a, bytes, size).unwrap();
    if bytes.len() == 0 {
    } else if bytes.len() < size {
        assert((0nat + 1) * size == size) by (nonlinear_arith);
        assert(batch_end(0, size, bytes.len()) == bytes.len());
        assert(bytes.subrange(0, bytes.len() as int) =~= bytes);
        assert(c[0] == batch_call(a, bytes.subrange(0, batch_end(0, size, bytes.len()) as int)));
    } else {
        let rest_bytes = bytes.skip(size as int);
        lemma_batches_cover(a + size, rest_bytes, size);
        let rest = batched(a + size, rest_bytes, size).unwrap();
        assert(c == seq![batch_call(a, bytes.take(size as int))] + rest);
        assert(rest.len() * size >= rest_bytes.len());
        assert(c.len() * size == rest.len() * size + size) by (nonlinear_arith)
            requires
                c.len() == rest.len() + 1,
        ;
        if c.len() > 1 {
            assert((c.len() - 1) * size == (rest.len() - 1) * size + size) by (nonlinear_arith)
                requires
                    c.len() == rest.len() + 1,
                    rest.len() > 0,
            ;
        }
        assert forall|j: int| 0 <= j < c.len() implies #[trigger] c[j] == batch_call(
            (a + j * size) as nat,
            bytes.subrange(j * size, batch_end(j as nat, size, bytes.len()) as int),
        ) by {
            if j == 0 {
                assert((0nat + 1) * size == size) by (nonlinear_arith);
                assert(batch_end(0, size, bytes.len()) == size);
                assert(bytes.subrange(0, size as int) =~= bytes.take(size as int));
            } else {
                let i = j - 1;
                assert(c[j] == rest[i]);
                assert(j * size == i * size + size) by (nonlinear_arith)
                    requires
                        j == i + 1,
                ;
                assert((j + 1) * size == (i + 1) * size + size) by (nonlinear_arith)
                    requires
                        j == i + 1,
                ;
                assert(i * size >= 0) by (nonlinear_arith)
                    requires
                        i >= 0,
                        size > 0,
                ;
                assert(batch_end(j as nat, size, bytes.len()) == batch_end(i as nat, size, rest_bytes.len()) + size);
                assert(0 <= i < rest.len());
                assert(rest[i] == batch_call(
                    ((a + size) + i * size) as nat,
                    rest_bytes.subrange(i * size, batch_end(i as nat, size, rest_bytes.len()) as int),
                ));
                assert((i + 1) * size == i * size + size) by (nonlinear_arith);
                assert(i * size <= (rest.len() - 1) * size) by (nonlinear_arith)
                    requires
                        i <= rest.len() - 1,
                        size > 0,
                ;
                assert(i * size < rest_bytes.len());
                assert(i * size <= batch_end(i as nat, size, rest_bytes.len()) <= rest_bytes.len());
                assert(rest_bytes.subrange(i * size, batch_end(i as nat, size, rest_bytes.len()) as int) =~= bytes.subrange(
                    j * size,
                    batch_end(j as nat, size, bytes.len()) as int,
                ));
            }
        }
    }
}

} // verus!
