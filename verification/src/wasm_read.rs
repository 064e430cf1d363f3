//! Reading a WebAssembly module with the WebAssembly reader into the plain
//! values the compiler works on: each payload becomes a [`Section`], each
//! operator a [`WasmOp`] with its text and offset.
//!
//! The reader's types are opaque here; the functions marked
//! `external_body` below each make one call into it and promise nothing
//! about what it reads.
use vstd::prelude::*;
use crate::wasm::{
    ConstExprInfo, ConstOp, DataInfo, DataKindInfo, ElementInfo, ElementItemsInfo, ElementKindInfo, ExportInfo,
    ImportInfo, ImportKind, IntOp, MemOp, OpEntry, RecGroupInfo, Section, TableInfo, WasmOp,
};
use wasmparser::{
    BinaryReaderError, CompositeInnerType, ConstExpr, Data, DataKind, Element, ElementItems,
    ElementKind, Encoding, Export, ExternalKind, FunctionBody, Global, Import, MemoryType, Operator,
    OperatorsReader, Parser, Payload, RecGroup, SectionLimited, Table, TableInit, TypeRef,
};

verus! {

/// A value of the WebAssembly reader.
#[verifier::external_type_specification]
#[verifier::external_body]
pub struct ExPayload<'a>(Payload<'a>);

/// A value of the WebAssembly reader.
#[verifier::external_type_specification]
#[verifier::external_body]
pub struct ExRecGroup(RecGroup);

/// A value of the WebAssembly reader.
#[verifier::external_type_specification]
#[verifier::external_body]
pub struct ExImport<'a>(Import<'a>);

/// A value of the WebAssembly reader.
#[verifier::external_type_specification]
#[verifier::external_body]
pub struct ExTable<'a>(Table<'a>);

/// A value of the WebAssembly reader.
#[verifier::external_type_specification]
#[verifier::external_body]
pub struct ExMemoryType(MemoryType);

/// A value of the WebAssembly reader.
#[verifier::external_type_specification]
#[verifier::external_body]
pub struct ExGlobal<'a>(Global<'a>);

/// A value of the WebAssembly reader.
#[verifier::external_type_specification]
#[verifier::external_body]
pub struct ExExport<'a>(Export<'a>);

/// A value of the WebAssembly reader.
#[verifier::external_type_specification]
#[verifier::external_body]
pub struct ExElement<'a>(Element<'a>);

/// A value of the WebAssembly reader.
#[verifier::external_type_specification]
#[verifier::external_body]
pub struct ExData<'a>(Data<'a>);

/// A value of the WebAssembly reader.
#[verifier::external_type_specification]
#[verifier::external_body]
pub struct ExConstExpr<'a>(ConstExpr<'a>);

/// A value of the WebAssembly reader.
#[verifier::external_type_specification]
#[verifier::external_body]
pub struct ExFunctionBody<'a>(FunctionBody<'a>);

/// A value of the WebAssembly reader.
#[verifier::external_type_specification]
#[verifier::external_body]
pub struct ExOperatorsReader<'a>(OperatorsReader<'a>);

/// A value of the WebAssembly reader.
#[verifier::external_type_specification]
#[verifier::external_body]
pub struct ExOperator<'a>(Operator<'a>);

/// A value of the WebAssembly reader.
#[verifier::external_type_specification]
#[verifier::external_body]
#[verifier::reject_recursive_types(T)]
pub struct ExSectionLimited<'a, T>(SectionLimited<'a, T>);

/// Which of the payloads that `Parser::parse_all` yields for the module
/// `wasm` were read: one entry per payload, `false` for an error.
pub uninterp spec fn payloads_read(wasm: Seq<u8>) -> Seq<bool>;

/// Parses the module into its payloads with `Parser::parse_all`, up to and
/// including the first error. The payloads, and which of them are errors,
/// depend on the bytes alone (named by [`payloads_read`]); `parse_all` stops
/// after an error, so only the last can be one. What a payload holds is not
/// stated.
#[verifier::external_body]
fn read_payloads<'a>(wasm: &'a [u8]) -> (r: Vec<Result<Payload<'a>, BinaryReaderError>>)
    ensures
        r@.len() == payloads_read(wasm@).len(),
        forall|i: int| 0 <= i < r@.len() ==> (#[trigger] r@[i] is Ok) == payloads_read(wasm@)[i],
        forall|i: int| 0 <= i < r@.len() - 1 ==> #[trigger] r@[i] is Ok,
{
    Parser::new(0).parse_all(wasm).collect()
}

/// The id of the section a payload is, by `Payload::as_section`.
#[verifier::external_body]
fn section_id(p: &Payload) -> Option<u8>
{
    p.as_section().map(|(id, _)| id)
}

/// The version number of a header payload and whether it is a component's.
#[verifier::external_body]
fn version_of(p: &Payload) -> Option<(u16, bool)>
{
    match p {
        Payload::Version { num, encoding: Encoding::Component, .. } => Some((*num, true)),
        Payload::Version { num, .. } => Some((*num, false)),
        _ => None,
    }
}

/// The function of a start section payload.
#[verifier::external_body]
fn start_func(p: &Payload) -> Option<u32>
{
    match p {
        Payload::StartSection { func, .. } => Some(*func),
        _ => None,
    }
}

/// The items of a `Payload::TypeSection`.
#[verifier::external_body]
fn type_section<'a>(p: Payload<'a>) -> Option<SectionLimited<'a, RecGroup>>
{
    match p {
        Payload::TypeSection(s) => Some(s),
        _ => None,
    }
}

/// The items of a `Payload::ImportSection`.
#[verifier::external_body]
fn import_section<'a>(p: Payload<'a>) -> Option<SectionLimited<'a, Import<'a>>>
{
    match p {
        Payload::ImportSection(s) => Some(s),
        _ => None,
    }
}

/// The items of a `Payload::FunctionSection`.
#[verifier::external_body]
fn function_section<'a>(p: Payload<'a>) -> Option<SectionLimited<'a, u32>>
{
    match p {
        Payload::FunctionSection(s) => Some(s),
        _ => None,
    }
}

/// The items of a `Payload::TableSection`.
#[verifier::external_body]
fn table_section<'a>(p: Payload<'a>) -> Option<SectionLimited<'a, Table<'a>>>
{
    match p {
        Payload::TableSection(s) => Some(s),
        _ => None,
    }
}

/// The items of a `Payload::MemorySection`.
#[verifier::external_body]
fn memory_section<'a>(p: Payload<'a>) -> Option<SectionLimited<'a, MemoryType>>
{
    match p {
        Payload::MemorySection(s) => Some(s),
        _ => None,
    }
}

/// The items of a `Payload::GlobalSection`.
#[verifier::external_body]
fn global_section<'a>(p: Payload<'a>) -> Option<SectionLimited<'a, Global<'a>>>
{
    match p {
        Payload::GlobalSection(s) => Some(s),
        _ => None,
    }
}

/// The items of a `Payload::ExportSection`.
#[verifier::external_body]
fn export_section<'a>(p: Payload<'a>) -> Option<SectionLimited<'a, Export<'a>>>
{
    match p {
        Payload::ExportSection(s) => Some(s),
        _ => None,
    }
}

/// The items of a `Payload::ElementSection`.
#[verifier::external_body]
fn element_section<'a>(p: Payload<'a>) -> Option<SectionLimited<'a, Element<'a>>>
{
    match p {
        Payload::ElementSection(s) => Some(s),
        _ => None,
    }
}

/// The items of a `Payload::DataSection`.
#[verifier::external_body]
fn data_section<'a>(p: Payload<'a>) -> Option<SectionLimited<'a, Data<'a>>>
{
    match p {
        Payload::DataSection(s) => Some(s),
        _ => None,
    }
}

/// The function body of a `Payload::CodeSectionEntry`.
#[verifier::external_body]
fn code_entry<'a>(p: Payload<'a>) -> Option<FunctionBody<'a>>
{
    match p {
        Payload::CodeSectionEntry(b) => Some(b),
        _ => None,
    }
}


/// The items of a section as its reader yields them (`SectionLimited::into_iter`), up to and including the first error.
#[verifier::external_body]
fn types_items<'a>(s: SectionLimited<'a, RecGroup>) -> Vec<Result<RecGroup, BinaryReaderError>>
{
    s.into_iter().collect()
}

/// The items of a section as its reader yields them (`SectionLimited::into_iter`), up to and including the first error.
#[verifier::external_body]
fn imports_items<'a>(s: SectionLimited<'a, Import<'a>>) -> Vec<Result<Import<'a>, BinaryReaderError>>
{
    s.into_iter().collect()
}

/// The items of a section as its reader yields them (`SectionLimited::into_iter`), up to and including the first error.
#[verifier::external_body]
fn functions_items<'a>(s: SectionLimited<'a, u32>) -> Vec<Result<u32, BinaryReaderError>>
{
    s.into_iter().collect()
}

/// The items of a section as its reader yields them (`SectionLimited::into_iter`), up to and including the first error.
#[verifier::external_body]
fn tables_items<'a>(s: SectionLimited<'a, Table<'a>>) -> Vec<Result<Table<'a>, BinaryReaderError>>
{
    s.into_iter().collect()
}

/// The items of a section as its reader yields them (`SectionLimited::into_iter`), up to and including the first error.
#[verifier::external_body]
fn memories_items<'a>(s: SectionLimited<'a, MemoryType>) -> Vec<Result<MemoryType, BinaryReaderError>>
{
    s.into_iter().collect()
}

/// The items of a section as its reader yields them (`SectionLimited::into_iter`), up to and including the first error.
#[verifier::external_body]
fn globals_items<'a>(s: SectionLimited<'a, Global<'a>>) -> Vec<Result<Global<'a>, BinaryReaderError>>
{
    s.into_iter().collect()
}

/// The items of a section as its reader yields them (`SectionLimited::into_iter`), up to and including the first error.
#[verifier::external_body]
fn exports_items<'a>(s: SectionLimited<'a, Export<'a>>) -> Vec<Result<Export<'a>, BinaryReaderError>>
{
    s.into_iter().collect()
}

/// The items of a section as its reader yields them (`SectionLimited::into_iter`), up to and including the first error.
#[verifier::external_body]
fn elements_items<'a>(s: SectionLimited<'a, Element<'a>>) -> Vec<Result<Element<'a>, BinaryReaderError>>
{
    s.into_iter().collect()
}

/// The items of a section as its reader yields them (`SectionLimited::into_iter`), up to and including the first error.
#[verifier::external_body]
fn data_items<'a>(s: SectionLimited<'a, Data<'a>>) -> Vec<Result<Data<'a>, BinaryReaderError>>
{
    s.into_iter().collect()
}

/// The first type of a recursion group: a function's parameter and result counts, another type, or none.
#[verifier::external_body]
fn rec_group_info(g: &RecGroup) -> RecGroupInfo
{
    match g.types().next() {
        None => RecGroupInfo::Empty,
        Some(t) => match &t.composite_type.inner {
            CompositeInnerType::Func(f) => RecGroupInfo::Func { params: f.params().len(), results: f.results().len() },
            _ => RecGroupInfo::NotFunc,
        },
    }
}

/// An import as plain values.
#[verifier::external_body]
fn import_info(i: Import) -> ImportInfo
{
    let kind = match i.ty {
        TypeRef::Func(type_index) => ImportKind::Func { type_index },
        TypeRef::Table(_) => ImportKind::Table,
        TypeRef::Memory(m) => ImportKind::Memory { initial: m.initial },
        TypeRef::Global(_) => ImportKind::Global,
        TypeRef::Tag(_) => ImportKind::Tag,
    };
    ImportInfo { module: i.module.to_string(), name: i.name.to_string(), kind }
}

/// A table's initial size and its initializer expression (`None` for null references).
#[verifier::external_body]
fn table_parts<'a>(t: Table<'a>) -> (u64, Option<ConstExpr<'a>>)
{
    match t.init {
        TableInit::RefNull => (t.ty.initial, None),
        TableInit::Expr(e) => (t.ty.initial, Some(e)),
    }
}

/// A memory's initial size in pages.
#[verifier::external_body]
fn memory_initial(m: &MemoryType) -> u64
{
    m.initial
}

/// A global's initializer expression.
#[verifier::external_body]
fn global_init<'a>(g: Global<'a>) -> ConstExpr<'a>
{
    g.init_expr
}

/// An export as plain values.
#[verifier::external_body]
fn export_info(e: Export) -> ExportInfo
{
    ExportInfo { name: e.name.to_string(), is_func: matches!(e.kind, ExternalKind::Func), index: e.index }
}

/// The kind of an element segment, its offset expression not yet read.
pub enum ElementKindRaw<'a> {
    Passive,
    Active { table_index: Option<u32>, offset: ConstExpr<'a> },
    Declared,
}

/// The items of an element segment, not yet read.
pub enum ElementItemsRaw<'a> {
    Functions(SectionLimited<'a, u32>),
    Expressions,
}

/// The kind and the items of an element segment.
#[verifier::external_body]
fn element_parts<'a>(e: Element<'a>) -> (ElementKindRaw<'a>, ElementItemsRaw<'a>)
{
    let kind = match e.kind {
        ElementKind::Passive => ElementKindRaw::Passive,
        ElementKind::Active { table_index, offset_expr } => ElementKindRaw::Active { table_index, offset: offset_expr },
        ElementKind::Declared => ElementKindRaw::Declared,
    };
    let items = match e.items {
        ElementItems::Functions(f) => ElementItemsRaw::Functions(f),
        ElementItems::Expressions(..) => ElementItemsRaw::Expressions,
    };
    (kind, items)
}

/// The offset expression of a data segment (`None` when passive) and its bytes.
#[verifier::external_body]
fn data_parts<'a>(d: Data<'a>) -> (Option<ConstExpr<'a>>, Vec<u8>)
{
    match d.kind {
        DataKind::Passive => (None, d.data.to_vec()),
        DataKind::Active { offset_expr, .. } => (Some(offset_expr), d.data.to_vec()),
    }
}

/// Starts reading the operators of a constant expression.
#[verifier::external_body]
fn const_reader<'a>(e: &ConstExpr<'a>) -> OperatorsReader<'a>
{
    e.get_operators_reader()
}

/// Reads the next operator (`OperatorsReader::read`).
#[verifier::external_body]
fn read_operator<'a>(r: &mut OperatorsReader<'a>) -> Result<Operator<'a>, BinaryReaderError>
{
    r.read()
}

/// Whether all operators were read (`OperatorsReader::eof`).
#[verifier::external_body]
fn reader_at_end(r: &OperatorsReader) -> bool
{
    r.eof()
}

/// An operator of a constant expression as a plain value.
#[verifier::external_body]
fn const_op(op: &Operator) -> ConstOp
{
    match op {
        Operator::I32Const { value } => ConstOp::I32Const { value: *value },
        Operator::I64Const { value } => ConstOp::I64Const { value: *value },
        Operator::F32Const { .. } => ConstOp::F32Const,
        Operator::F64Const { .. } => ConstOp::F64Const,
        Operator::RefNull { .. } => ConstOp::RefNull,
        Operator::RefFunc { function_index } => ConstOp::RefFunc { function_index: *function_index },
        Operator::GlobalGet { global_index } => ConstOp::GlobalGet { global_index: *global_index },
        Operator::End => ConstOp::End,
        _ => ConstOp::Other,
    }
}

/// Starts reading the operators of a function body, or the error doing so.
#[verifier::external_body]
fn body_reader<'a>(b: &FunctionBody<'a>) -> Result<OperatorsReader<'a>, BinaryReaderError>
{
    b.get_operators_reader()
}

/// The operators of a function body with their offsets (`OperatorsReader::into_iter_with_offsets`), up to and including the first error.
#[verifier::external_body]
fn body_operators<'a>(r: OperatorsReader<'a>) -> Vec<Result<(Operator<'a>, usize), BinaryReaderError>>
{
    r.into_iter_with_offsets().collect()
}

/// The text of an operator, as its `Debug` formatting writes it.
#[verifier::external_body]
fn operator_text(op: &Operator) -> String
{
    format!("{op:?}")
}

/// A call or parametric operator as a plain value.
#[verifier::external_body]
fn basic_op(op: &Operator) -> Option<WasmOp>
{
    match op {
        Operator::Nop => Some(WasmOp::Nop),
        Operator::Call { function_index } => Some(WasmOp::Call { function_index: *function_index }),
        Operator::CallIndirect { type_index, table_index } => Some(WasmOp::CallIndirect { type_index: *type_index, table_index: *table_index }),
        Operator::Drop => Some(WasmOp::Drop),
        Operator::Select => Some(WasmOp::Select),
        Operator::TypedSelect { .. } => Some(WasmOp::Select),
        _ => None,
    }
}

/// A local or global variable operator as a plain value.
#[verifier::external_body]
fn variable_op(op: &Operator) -> Option<WasmOp>
{
    match op {
        Operator::LocalGet { local_index } => Some(WasmOp::LocalGet { local_index: *local_index }),
        Operator::LocalSet { local_index } => Some(WasmOp::LocalSet { local_index: *local_index }),
        Operator::LocalTee { local_index } => Some(WasmOp::LocalTee { local_index: *local_index }),
        Operator::GlobalGet { global_index } => Some(WasmOp::GlobalGet { global_index: *global_index }),
        Operator::GlobalSet { global_index } => Some(WasmOp::GlobalSet { global_index: *global_index }),
        _ => None,
    }
}

/// A control flow operator other than `br_table` as a plain value.
#[verifier::external_body]
fn control_op(op: &Operator) -> Option<WasmOp>
{
    match op {
        Operator::Block { .. } => Some(WasmOp::Block),
        Operator::Loop { .. } => Some(WasmOp::Loop),
        Operator::If { .. } => Some(WasmOp::If),
        Operator::Else => Some(WasmOp::Else),
        Operator::End => Some(WasmOp::End),
        Operator::Br { relative_depth } => Some(WasmOp::Br { relative_depth: *relative_depth }),
        Operator::BrIf { relative_depth } => Some(WasmOp::BrIf { relative_depth: *relative_depth }),
        Operator::Return => Some(WasmOp::Return),
        Operator::Unreachable => Some(WasmOp::Unreachable),
        _ => None,
    }
}

/// The targets of a `br_table` as its reader yields them, up to and including the first error, and its default target.
#[verifier::external_body]
fn br_table_parts(op: &Operator) -> Option<(Vec<Result<u32, BinaryReaderError>>, u32)>
{
    match op {
        Operator::BrTable { targets } => Some((targets.targets().collect(), targets.default())),
        _ => None,
    }
}

/// A reference operator as a plain value.
#[verifier::external_body]
fn reference_op(op: &Operator) -> Option<WasmOp>
{
    match op {
        Operator::RefIsNull => Some(WasmOp::RefIsNull),
        Operator::RefNull { .. } => Some(WasmOp::RefNull),
        Operator::RefFunc { function_index } => Some(WasmOp::RefFunc { function_index: *function_index }),
        Operator::ElemDrop { .. } => Some(WasmOp::ElemDrop),
        _ => None,
    }
}

/// A table operator as a plain value.
#[verifier::external_body]
fn table_op(op: &Operator) -> Option<WasmOp>
{
    match op {
        Operator::TableFill { table } => Some(WasmOp::TableFill { table: *table }),
        Operator::TableGet { table } => Some(WasmOp::TableGet { table: *table }),
        Operator::TableSet { table } => Some(WasmOp::TableSet { table: *table }),
        Operator::TableGrow { table } => Some(WasmOp::TableGrow { table: *table }),
        Operator::TableSize { table } => Some(WasmOp::TableSize { table: *table }),
        Operator::TableCopy { .. } => Some(WasmOp::TableCopy),
        Operator::TableInit { .. } => Some(WasmOp::TableInit),
        _ => None,
    }
}

/// A load (of the first group) with the offset of its memory argument.
#[verifier::external_body]
fn load_op_a(op: &Operator) -> Option<(MemOp, u64)>
{
    match op {
        Operator::I64Load32U { memarg } => Some((MemOp::I64Load32U, memarg.offset)),
        Operator::I32Load { memarg } => Some((MemOp::I32Load, memarg.offset)),
        Operator::F32Load { memarg } => Some((MemOp::F32Load, memarg.offset)),
        Operator::I64Load { memarg } => Some((MemOp::I64Load, memarg.offset)),
        Operator::F64Load { memarg } => Some((MemOp::F64Load, memarg.offset)),
        Operator::I32Load8U { memarg } => Some((MemOp::I32Load8U, memarg.offset)),
        Operator::I64Load8U { memarg } => Some((MemOp::I64Load8U, memarg.offset)),
        _ => None,
    }
}

/// A load (of the second group) with the offset of its memory argument.
#[verifier::external_body]
fn load_op_b(op: &Operator) -> Option<(MemOp, u64)>
{
    match op {
        Operator::I32Load16U { memarg } => Some((MemOp::I32Load16U, memarg.offset)),
        Operator::I64Load16U { memarg } => Some((MemOp::I64Load16U, memarg.offset)),
        Operator::I32Load8S { memarg } => Some((MemOp::I32Load8S, memarg.offset)),
        Operator::I32Load16S { memarg } => Some((MemOp::I32Load16S, memarg.offset)),
        Operator::I64Load8S { memarg } => Some((MemOp::I64Load8S, memarg.offset)),
        Operator::I64Load16S { memarg } => Some((MemOp::I64Load16S, memarg.offset)),
        Operator::I64Load32S { memarg } => Some((MemOp::I64Load32S, memarg.offset)),
        _ => None,
    }
}

/// A store with the offset of its memory argument.
#[verifier::external_body]
fn store_op(op: &Operator) -> Option<(MemOp, u64)>
{
    match op {
        Operator::I32Store { memarg } => Some((MemOp::I32Store, memarg.offset)),
        Operator::F32Store { memarg } => Some((MemOp::F32Store, memarg.offset)),
        Operator::I64Store { memarg } => Some((MemOp::I64Store, memarg.offset)),
        Operator::F64Store { memarg } => Some((MemOp::F64Store, memarg.offset)),
        Operator::I32Store8 { memarg } => Some((MemOp::I32Store8, memarg.offset)),
        Operator::I64Store8 { memarg } => Some((MemOp::I64Store8, memarg.offset)),
        Operator::I32Store16 { memarg } => Some((MemOp::I32Store16, memarg.offset)),
        Operator::I64Store16 { memarg } => Some((MemOp::I64Store16, memarg.offset)),
        Operator::I64Store32 { memarg } => Some((MemOp::I64Store32, memarg.offset)),
        _ => None,
    }
}

/// `memory.size`, `memory.grow` or an integer constant as a plain value.
#[verifier::external_body]
fn memory_or_const_op(op: &Operator) -> Option<WasmOp>
{
    match op {
        Operator::MemorySize { .. } => Some(WasmOp::MemorySize),
        Operator::MemoryGrow { .. } => Some(WasmOp::MemoryGrow),
        Operator::I32Const { value } => Some(WasmOp::I32Const { value: *value }),
        Operator::I64Const { value } => Some(WasmOp::I64Const { value: *value }),
        _ => None,
    }
}

/// An integer operator (of group a) as a plain value.
#[verifier::external_body]
fn int_op_a(op: &Operator) -> Option<IntOp>
{
    match op {
        Operator::I64Eqz => Some(IntOp::I64Eqz),
        Operator::I32Eqz => Some(IntOp::I32Eqz),
        Operator::I64Eq => Some(IntOp::I64Eq),
        Operator::I32Eq => Some(IntOp::I32Eq),
        Operator::I64Ne => Some(IntOp::I64Ne),
        Operator::I32Ne => Some(IntOp::I32Ne),
        Operator::I64LtS => Some(IntOp::I64LtS),
        Operator::I32LtS => Some(IntOp::I32LtS),
        Operator::I64GtS => Some(IntOp::I64GtS),
        Operator::I32GtS => Some(IntOp::I32GtS),
        Operator::I64LeS => Some(IntOp::I64LeS),
        Operator::I32LeS => Some(IntOp::I32LeS),
        _ => None,
    }
}

/// An integer operator (of group b) as a plain value.
#[verifier::external_body]
fn int_op_b(op: &Operator) -> Option<IntOp>
{
    match op {
        Operator::I64GeS => Some(IntOp::I64GeS),
        Operator::I32GeS => Some(IntOp::I32GeS),
        Operator::I64GtU => Some(IntOp::I64GtU),
        Operator::I32GtU => Some(IntOp::I32GtU),
        Operator::I64LtU => Some(IntOp::I64LtU),
        Operator::I32LtU => Some(IntOp::I32LtU),
        Operator::I64LeU => Some(IntOp::I64LeU),
        Operator::I32LeU => Some(IntOp::I32LeU),
        Operator::I64GeU => Some(IntOp::I64GeU),
        Operator::I32GeU => Some(IntOp::I32GeU),
        Operator::I32Clz => Some(IntOp::I32Clz),
        Operator::I32Ctz => Some(IntOp::I32Ctz),
        _ => None,
    }
}

/// An integer operator (of group c) as a plain value.
#[verifier::external_body]
fn int_op_c(op: &Operator) -> Option<IntOp>
{
    match op {
        Operator::I32Popcnt => Some(IntOp::I32Popcnt),
        Operator::I32RemU => Some(IntOp::I32RemU),
        Operator::I32Rotl => Some(IntOp::I32Rotl),
        Operator::I32Rotr => Some(IntOp::I32Rotr),
        Operator::I64Clz => Some(IntOp::I64Clz),
        Operator::I64Ctz => Some(IntOp::I64Ctz),
        Operator::I64Popcnt => Some(IntOp::I64Popcnt),
        Operator::I64Add => Some(IntOp::I64Add),
        Operator::I32Add => Some(IntOp::I32Add),
        Operator::I64Sub => Some(IntOp::I64Sub),
        Operator::I32Sub => Some(IntOp::I32Sub),
        Operator::I64Mul => Some(IntOp::I64Mul),
        _ => None,
    }
}

/// An integer operator (of group d) as a plain value.
#[verifier::external_body]
fn int_op_d(op: &Operator) -> Option<IntOp>
{
    match op {
        Operator::I32Mul => Some(IntOp::I32Mul),
        Operator::I64DivS => Some(IntOp::I64DivS),
        Operator::I32DivS => Some(IntOp::I32DivS),
        Operator::I64DivU => Some(IntOp::I64DivU),
        Operator::I32DivU => Some(IntOp::I32DivU),
        Operator::I64RemS => Some(IntOp::I64RemS),
        Operator::I32RemS => Some(IntOp::I32RemS),
        Operator::I64RemU => Some(IntOp::I64RemU),
        Operator::I64And => Some(IntOp::I64And),
        Operator::I32And => Some(IntOp::I32And),
        Operator::I64Or => Some(IntOp::I64Or),
        Operator::I32Or => Some(IntOp::I32Or),
        _ => None,
    }
}

/// An integer operator (of group e) as a plain value.
#[verifier::external_body]
fn int_op_e(op: &Operator) -> Option<IntOp>
{
    match op {
        Operator::I64Xor => Some(IntOp::I64Xor),
        Operator::I32Xor => Some(IntOp::I32Xor),
        Operator::I64Shl => Some(IntOp::I64Shl),
        Operator::I32Shl => Some(IntOp::I32Shl),
        Operator::I64ShrS => Some(IntOp::I64ShrS),
        Operator::I32ShrS => Some(IntOp::I32ShrS),
        Operator::I64ShrU => Some(IntOp::I64ShrU),
        Operator::I32ShrU => Some(IntOp::I32ShrU),
        Operator::I64Rotl => Some(IntOp::I64Rotl),
        Operator::I64Rotr => Some(IntOp::I64Rotr),
        Operator::I32WrapI64 => Some(IntOp::I32WrapI64),
        Operator::I64ExtendI32S => Some(IntOp::I64ExtendI32S),
        _ => None,
    }
}

/// An integer operator (of group f) as a plain value.
#[verifier::external_body]
fn int_op_f(op: &Operator) -> Option<IntOp>
{
    match op {
        Operator::I64ExtendI32U => Some(IntOp::I64ExtendI32U),
        Operator::I32Extend8S => Some(IntOp::I32Extend8S),
        Operator::I32Extend16S => Some(IntOp::I32Extend16S),
        Operator::I64Extend8S => Some(IntOp::I64Extend8S),
        Operator::I64Extend16S => Some(IntOp::I64Extend16S),
        Operator::I64Extend32S => Some(IntOp::I64Extend32S),
        _ => None,
    }
}

/// Whether an operator is a floating-point operator (of group a).
#[verifier::external_body]
fn is_float_a(op: &Operator) -> bool
{
    matches!(
        op,
        Operator::F32Const { .. } | Operator::F64Const { .. } | Operator::F32Eq | Operator::F32Ne
            | Operator::F32Lt | Operator::F32Gt | Operator::F32Le | Operator::F32Ge
            | Operator::F64Eq | Operator::F64Ne | Operator::F64Lt | Operator::F64Gt
            | Operator::F64Le | Operator::F64Ge | Operator::F32Abs | Operator::F32Neg
            | Operator::F32Ceil | Operator::F32Floor | Operator::F32Trunc | Operator::F32Nearest
            | Operator::F32Sqrt | Operator::F32Add,
    )
}

/// Whether an operator is a floating-point operator (of group b).
#[verifier::external_body]
fn is_float_b(op: &Operator) -> bool
{
    matches!(
        op,
        Operator::F32Sub | Operator::F32Mul | Operator::F32Div | Operator::F32Min
            | Operator::F32Max | Operator::F32Copysign | Operator::F64Abs | Operator::F64Neg
            | Operator::F64Ceil | Operator::F64Floor | Operator::F64Trunc | Operator::F64Nearest
            | Operator::F64Sqrt | Operator::F64Add | Operator::F64Sub | Operator::F64Mul
            | Operator::F64Div | Operator::F64Min | Operator::F64Max | Operator::F64Copysign
            | Operator::I32TruncF32S | Operator::I32TruncF32U,
    )
}

/// Whether an operator is a floating-point operator (of group c).
#[verifier::external_body]
fn is_float_c(op: &Operator) -> bool
{
    matches!(
        op,
        Operator::I32TruncF64S | Operator::I32TruncF64U | Operator::I64TruncF32S | Operator::I64TruncF32U
            | Operator::I64TruncF64S | Operator::I64TruncF64U | Operator::F32ConvertI32S | Operator::F32ConvertI32U
            | Operator::F32ConvertI64S | Operator::F32ConvertI64U | Operator::F32DemoteF64 | Operator::F64ConvertI32S
            | Operator::F64ConvertI32U | Operator::F64ConvertI64S | Operator::F64ConvertI64U | Operator::F64PromoteF32
            | Operator::I32ReinterpretF32 | Operator::I64ReinterpretF64 | Operator::F32ReinterpretI32 | Operator::F64ReinterpretI64,
    )
}

/// A constant expression as reading leaves it: its first operator, and the
/// one after it unless the first is the last; or the error that stopped
/// reading at one of them.
pub open spec fn const_expr_read(e: ConstExprInfo) -> bool {
    &&& e.ops@.len() <= 2
    &&& e.ops@.len() > 0 || e.error is Some
    &&& e.ops@.len() == 2 ==> e.error is None
}

/// A table as reading leaves it: its initializer, if any, read as a
/// constant expression.
pub open spec fn table_read(t: TableInfo) -> bool {
    match t.init {
        Some(e) => const_expr_read(e),
        None => true,
    }
}

/// An element segment as reading leaves it: the offset of an active one read
/// as a constant expression.
pub open spec fn element_read(e: ElementInfo) -> bool {
    match e.kind {
        ElementKindInfo::Active { offset, .. } => const_expr_read(offset),
        _ => true,
    }
}

/// A data segment as reading leaves it: the offset of an active one read as
/// a constant expression.
pub open spec fn data_read(d: DataInfo) -> bool {
    match d.kind {
        DataKindInfo::Active { offset } => const_expr_read(offset),
        DataKindInfo::Passive => true,
    }
}

/// A section as reading leaves it: every constant expression in it read as
/// [`const_expr_read`] says, an unknown section only for an id that no core
/// module section has, and never [`Section::Other`].
pub open spec fn section_read(s: Section) -> bool {
    match s {
        Section::Tables { items, .. } => forall|i: int| 0 <= i < items@.len() ==> table_read(#[trigger] items@[i]),
        Section::Globals { items, .. } => forall|i: int|
            0 <= i < items@.len() ==> const_expr_read(#[trigger] items@[i]),
        Section::Elements { items, .. } => forall|i: int|
            0 <= i < items@.len() ==> element_read(#[trigger] items@[i]),
        Section::Data { items, .. } => forall|i: int| 0 <= i < items@.len() ==> data_read(#[trigger] items@[i]),
        Section::Unknown { id } => id > 13,
        Section::Other => false,
        _ => true,
    }
}

/// Whether `sections` and `error` are what reading the module `wasm` gives:
/// a section for each payload read, in order, and the error of the payload
/// that stopped reading, if any; each section as [`section_read`] says.
pub open spec fn read_from(wasm: Seq<u8>, sections: Seq<Section>, error: Option<BinaryReaderError>) -> bool {
    let read = payloads_read(wasm);
    &&& sections.len() + (if error is Some { 1int } else { 0 }) == read.len()
    &&& forall|i: int| 0 <= i < sections.len() ==> read[i]
    &&& error is Some ==> !read[read.len() - 1]
    &&& forall|i: int| 0 <= i < sections.len() ==> section_read(#[trigger] sections[i])
}

/// The elements of `v` in reverse order.
fn reversed<T>(v: Vec<T>) -> (r: Vec<T>)
    ensures
        r@ == v@.reverse(),
{
    let ghost orig = v@;
    let mut v = v;
    let mut r: Vec<T> = Vec::new();
    while v.len() > 0
        invariant
            v@.len() <= orig.len(),
            v@ == orig.take(v@.len() as int),
            r@ == orig.skip(v@.len() as int).reverse(),
        decreases v.len(),
    {
        let ghost k = v@.len() as int;
        let ghost vold = v@;
        let ghost rold = r@;
        let x = v.pop().unwrap();
        r.push(x);
        proof {
            assert(vold =~= orig.take(k));
            assert(v@ =~= orig.take(k - 1));
            let a = orig.skip(k - 1);
            let b = orig.skip(k);
            assert(a.len() == b.len() + 1);
            assert(a.reverse().len() == a.len());
            assert forall|i: int| 0 <= i < a.len() implies #[trigger] a.reverse()[i] == b.reverse().push(orig[k - 1])[i] by {
                if i < b.len() {
                    assert(b.reverse()[i] == b[b.len() - 1 - i]);
                }
            }
            assert(a.reverse() =~= b.reverse().push(orig[k - 1]));
        }
    }
    assert(orig.skip(0) =~= orig);
    r
}

/// The operators of a constant expression: the first, and the one after it
/// unless the first is the last; reading stops at an error.
fn const_expr_info(e: &ConstExpr) -> (r: ConstExprInfo)
    ensures
        const_expr_read(r),
{
    let mut reader = const_reader(e);
    let mut ops: Vec<ConstOp> = Vec::new();
    match read_operator(&mut reader) {
        Err(err) => {
            return ConstExprInfo { ops, error: Some(err) };
        },
        Ok(op) => ops.push(const_op(&op)),
    }
    if reader_at_end(&reader) {
        return ConstExprInfo { ops, error: None };
    }
    match read_operator(&mut reader) {
        Err(err) => ConstExprInfo { ops, error: Some(err) },
        Ok(op) => {
            ops.push(const_op(&op));
            ConstExprInfo { ops, error: None }
        },
    }
}

/// An operator of a function body as a plain value: the families the
/// compiler knows, floating-point operators as one, and any other as `Other`.
pub(crate) fn wasm_op(op: &Operator) -> WasmOp {
    match basic_op(op) {
        Some(w) => {
            return w;
        },
        None => {},
    }
    match variable_op(op) {
        Some(w) => {
            return w;
        },
        None => {},
    }
    match reference_op(op) {
        Some(w) => {
            return w;
        },
        None => {},
    }
    match control_op(op) {
        Some(w) => {
            return w;
        },
        None => {},
    }
    match br_table_parts(op) {
        Some((read, default)) => {
            let mut pending = reversed(read);
            let mut targets: Vec<u32> = Vec::new();
            while pending.len() > 0
                decreases pending.len(),
            {
                match pending.pop().unwrap() {
                    Ok(t) => targets.push(t),
                    Err(e) => {
                        return WasmOp::BrTable { targets, error: Some(e), default };
                    },
                }
            }
            return WasmOp::BrTable { targets, error: None, default };
        },
        None => {},
    }
    match table_op(op) {
        Some(w) => {
            return w;
        },
        None => {},
    }
    let mem = match load_op_a(op) {
        Some(m) => Some(m),
        None => match load_op_b(op) {
            Some(m) => Some(m),
            None => store_op(op),
        },
    };
    match mem {
        Some((m, offset)) => {
            return WasmOp::Memory { op: m, offset };
        },
        None => {},
    }
    match memory_or_const_op(op) {
        Some(w) => {
            return w;
        },
        None => {},
    }
    let int_op = match int_op_a(op) {
        Some(i) => Some(i),
        None => match int_op_b(op) {
            Some(i) => Some(i),
            None => match int_op_c(op) {
                Some(i) => Some(i),
                None => match int_op_d(op) {
                    Some(i) => Some(i),
                    None => match int_op_e(op) {
                        Some(i) => Some(i),
                        None => int_op_f(op),
                    },
                },
            },
        },
    };
    match int_op {
        Some(i) => {
            return WasmOp::Int { op: i };
        },
        None => {},
    }
    if is_float_a(op) || is_float_b(op) || is_float_c(op) {
        WasmOp::Float
    } else {
        WasmOp::Other
    }
}

/// The operators of a function body, with their texts and offsets; reading
/// stops at an error.
fn read_code(b: FunctionBody) -> (r: Section)
    ensures
        r is Code,
{
    let reader = match body_reader(&b) {
        Err(e) => {
            return Section::Code { ops: Vec::new(), error: Some(e) };
        },
        Ok(r) => r,
    };
    let mut pending = reversed(body_operators(reader));
    let mut ops: Vec<OpEntry> = Vec::new();
    while pending.len() > 0
        decreases pending.len(),
    {
        match pending.pop().unwrap() {
            Ok((op, location)) => ops.push(OpEntry { op: wasm_op(&op), text: operator_text(&op), location }),
            Err(e) => {
                return Section::Code { ops, error: Some(e) };
            },
        }
    }
    Section::Code { ops, error: None }
}

/// The items of a section; reading stops at an error.
fn read_types<'a>(s: SectionLimited<'a, RecGroup>) -> (Vec<RecGroupInfo>, Option<BinaryReaderError>) {
    let mut pending = reversed(types_items(s));
    let mut items: Vec<RecGroupInfo> = Vec::new();
    while pending.len() > 0
        decreases pending.len(),
    {
        match pending.pop().unwrap() {
            Ok(x) => items.push(rec_group_info(&x)),
            Err(e) => {
                return (items, Some(e));
            },
        }
    }
    (items, None)
}

/// The items of a section; reading stops at an error.
fn read_imports<'a>(s: SectionLimited<'a, Import<'a>>) -> (Vec<ImportInfo>, Option<BinaryReaderError>) {
    let mut pending = reversed(imports_items(s));
    let mut items: Vec<ImportInfo> = Vec::new();
    while pending.len() > 0
        decreases pending.len(),
    {
        match pending.pop().unwrap() {
            Ok(x) => items.push(import_info(x)),
            Err(e) => {
                return (items, Some(e));
            },
        }
    }
    (items, None)
}

/// The items of a section; reading stops at an error.
fn read_functions<'a>(s: SectionLimited<'a, u32>) -> (Vec<u32>, Option<BinaryReaderError>) {
    let mut pending = reversed(functions_items(s));
    let mut items: Vec<u32> = Vec::new();
    while pending.len() > 0
        decreases pending.len(),
    {
        match pending.pop().unwrap() {
            Ok(x) => items.push(x),
            Err(e) => {
                return (items, Some(e));
            },
        }
    }
    (items, None)
}

/// The items of a section; reading stops at an error.
fn read_tables<'a>(s: SectionLimited<'a, Table<'a>>) -> (r: (Vec<TableInfo>, Option<BinaryReaderError>))
    ensures
        forall|i: int| 0 <= i < r.0@.len() ==> table_read(#[trigger] r.0@[i]),
{
    let mut pending = reversed(tables_items(s));
    let mut items: Vec<TableInfo> = Vec::new();
    while pending.len() > 0
        invariant
            forall|i: int| 0 <= i < items@.len() ==> table_read(#[trigger] items@[i]),
        decreases pending.len(),
    {
        match pending.pop().unwrap() {
            Ok(x) => items.push(table_info(x)),
            Err(e) => {
                return (items, Some(e));
            },
        }
    }
    (items, None)
}

/// The items of a section; reading stops at an error.
fn read_memories<'a>(s: SectionLimited<'a, MemoryType>) -> (Vec<u64>, Option<BinaryReaderError>) {
    let mut pending = reversed(memories_items(s));
    let mut items: Vec<u64> = Vec::new();
    while pending.len() > 0
        decreases pending.len(),
    {
        match pending.pop().unwrap() {
            Ok(x) => items.push(memory_initial(&x)),
            Err(e) => {
                return (items, Some(e));
            },
        }
    }
    (items, None)
}

/// The items of a section; reading stops at an error.
fn read_globals<'a>(s: SectionLimited<'a, Global<'a>>) -> (r: (Vec<ConstExprInfo>, Option<BinaryReaderError>))
    ensures
        forall|i: int| 0 <= i < r.0@.len() ==> const_expr_read(#[trigger] r.0@[i]),
{
    let mut pending = reversed(globals_items(s));
    let mut items: Vec<ConstExprInfo> = Vec::new();
    while pending.len() > 0
        invariant
            forall|i: int| 0 <= i < items@.len() ==> const_expr_read(#[trigger] items@[i]),
        decreases pending.len(),
    {
        match pending.pop().unwrap() {
            Ok(x) => items.push(const_expr_info(&global_init(x))),
            Err(e) => {
                return (items, Some(e));
            },
        }
    }
    (items, None)
}

/// The items of a section; reading stops at an error.
fn read_exports<'a>(s: SectionLimited<'a, Export<'a>>) -> (Vec<ExportInfo>, Option<BinaryReaderError>) {
    let mut pending = reversed(exports_items(s));
    let mut items: Vec<ExportInfo> = Vec::new();
    while pending.len() > 0
        decreases pending.len(),
    {
        match pending.pop().unwrap() {
            Ok(x) => items.push(export_info(x)),
            Err(e) => {
                return (items, Some(e));
            },
        }
    }
    (items, None)
}

/// The items of a section; reading stops at an error.
fn read_elements<'a>(s: SectionLimited<'a, Element<'a>>) -> (r: (Vec<ElementInfo>, Option<BinaryReaderError>))
    ensures
        forall|i: int| 0 <= i < r.0@.len() ==> element_read(#[trigger] r.0@[i]),
{
    let mut pending = reversed(elements_items(s));
    let mut items: Vec<ElementInfo> = Vec::new();
    while pending.len() > 0
        invariant
            forall|i: int| 0 <= i < items@.len() ==> element_read(#[trigger] items@[i]),
        decreases pending.len(),
    {
        match pending.pop().unwrap() {
            Ok(x) => items.push(element_info(x)),
            Err(e) => {
                return (items, Some(e));
            },
        }
    }
    (items, None)
}

/// The items of a section; reading stops at an error.
fn read_data<'a>(s: SectionLimited<'a, Data<'a>>) -> (r: (Vec<DataInfo>, Option<BinaryReaderError>))
    ensures
        forall|i: int| 0 <= i < r.0@.len() ==> data_read(#[trigger] r.0@[i]),
{
    let mut pending = reversed(data_items(s));
    let mut items: Vec<DataInfo> = Vec::new();
    while pending.len() > 0
        invariant
            forall|i: int| 0 <= i < items@.len() ==> data_read(#[trigger] items@[i]),
        decreases pending.len(),
    {
        match pending.pop().unwrap() {
            Ok(x) => items.push(data_info(x)),
            Err(e) => {
                return (items, Some(e));
            },
        }
    }
    (items, None)
}

/// A table as plain values.
fn table_info(t: Table) -> (r: TableInfo)
    ensures
        table_read(r),
{
    let (initial, init) = table_parts(t);
    TableInfo {
        initial,
        init: match init {
            Some(e) => Some(const_expr_info(&e)),
            None => None,
        },
    }
}

/// An element segment as plain values.
fn element_info(e: Element) -> (r: ElementInfo)
    ensures
        element_read(r),
{
    let (kind, items) = element_parts(e);
    let kind = match kind {
        ElementKindRaw::Passive => ElementKindInfo::Passive,
        ElementKindRaw::Active { table_index, offset } => ElementKindInfo::Active {
            table_index,
            offset: const_expr_info(&offset),
        },
        ElementKindRaw::Declared => ElementKindInfo::Declared,
    };
    let items = match items {
        ElementItemsRaw::Functions(s) => {
            let (indices, error) = read_functions(s);
            ElementItemsInfo::Functions { indices, error }
        },
        ElementItemsRaw::Expressions => ElementItemsInfo::Expressions,
    };
    ElementInfo { kind, items }
}

/// A data segment as plain values.
fn data_info(d: Data) -> (r: DataInfo)
    ensures
        data_read(r),
{
    let (offset, data) = data_parts(d);
    DataInfo {
        kind: match offset {
            Some(e) => DataKindInfo::Active { offset: const_expr_info(&e) },
            None => DataKindInfo::Passive,
        },
        data,
    }
}

/// A payload of a module as a section. Sections are told apart by their
/// ids, which name core module sections (a component is refused at its header).
pub(crate) fn read_section(p: Payload) -> (r: Section)
    ensures
        section_read(r),
{
    match version_of(&p) {
        Some((num, is_component)) => {
            return Section::Version { num, is_component };
        },
        None => {},
    }
    let id = match section_id(&p) {
        Some(id) => id,
        None => {
            return match code_entry(p) {
                Some(b) => read_code(b),
                None => Section::End,
            };
        },
    };
    if id == 0 {
        Section::Custom
    } else if id == 1 {
        match type_section(p) {
            Some(s) => {
                let (items, error) = read_types(s);
                Section::Types { items, error }
            },
            None => Section::Component,
        }
    } else if id == 2 {
        match import_section(p) {
            Some(s) => {
                let (items, error) = read_imports(s);
                Section::Imports { items, error }
            },
            None => Section::Component,
        }
    } else if id == 3 {
        match function_section(p) {
            Some(s) => {
                let (items, error) = read_functions(s);
                Section::Functions { items, error }
            },
            None => Section::Component,
        }
    } else if id == 4 {
        match table_section(p) {
            Some(s) => {
                let (items, error) = read_tables(s);
                Section::Tables { items, error }
            },
            None => Section::Component,
        }
    } else if id == 5 {
        match memory_section(p) {
            Some(s) => {
                let (items, error) = read_memories(s);
                Section::Memories { items, error }
            },
            None => Section::Component,
        }
    } else if id == 6 {
        match global_section(p) {
            Some(s) => {
                let (items, error) = read_globals(s);
                Section::Globals { items, error }
            },
            None => Section::Component,
        }
    } else if id == 7 {
        match export_section(p) {
            Some(s) => {
                let (items, error) = read_exports(s);
                Section::Exports { items, error }
            },
            None => Section::Component,
        }
    } else if id == 8 {
        match start_func(&p) {
            Some(func) => Section::Start { func },
            None => Section::Component,
        }
    } else if id == 9 {
        match element_section(p) {
            Some(s) => {
                let (items, error) = read_elements(s);
                Section::Elements { items, error }
            },
            None => Section::Component,
        }
    } else if id == 10 {
        Section::CodeStart
    } else if id == 11 {
        match data_section(p) {
            Some(s) => {
                let (items, error) = read_data(s);
                Section::Data { items, error }
            },
            None => Section::Component,
        }
    } else if id == 12 {
        Section::DataCount
    } else if id == 13 {
        Section::Tag
    } else {
        Section::Unknown { id }
    }
}

/// The sections of a module as the reader parses them, and the error that
/// stopped parsing, if any.
pub(crate) fn read_module(wasm: &[u8]) -> (r: (Vec<Section>, Option<BinaryReaderError>))
    ensures
        read_from(wasm@, r.0@, r.1),
{
    let payloads = read_payloads(wasm);
    let ghost all = payloads@;
    let ghost read = payloads_read(wasm@);
    let mut pending = reversed(payloads);
    let mut sections: Vec<Section> = Vec::new();
    while pending.len() > 0
        invariant
            all.len() == read.len(),
            read == payloads_read(wasm@),
            forall|i: int| 0 <= i < all.len() ==> (#[trigger] all[i] is Ok) == read[i],
            forall|i: int| 0 <= i < all.len() - 1 ==> #[trigger] all[i] is Ok,
            pending@.len() + sections@.len() == all.len(),
            forall|j: int| 0 <= j < pending@.len() ==> #[trigger] pending@[j] == all[all.len() - 1 - j],
            forall|i: int| 0 <= i < sections@.len() ==> read[i],
            forall|i: int| 0 <= i < sections@.len() ==> section_read(#[trigger] sections@[i]),
        decreases pending.len(),
    {
        let ghost k = sections@.len() as int;
        let ghost last = pending@.len() - 1;
        assert(pending@[last] == all[k]);
        match pending.pop().unwrap() {
            Ok(p) => {
                assert(read[k]);
                sections.push(read_section(p));
            },
            Err(e) => {
                assert(!read[k]);
                assert(k == all.len() - 1);
                return (sections, Some(e));
            },
        }
    }
    (sections, None)
}

} // verus!
