//! A WebAssembly module as the compiler reads it: its sections and the
//! operators of its function bodies, as plain values.
use vstd::prelude::*;
use wasmparser::BinaryReaderError;

verus! {

/// A read error of the WebAssembly reader.
#[verifier::external_type_specification]
#[verifier::external_body]
pub struct ExBinaryReaderError(BinaryReaderError);

/// A memory load or store, by its WebAssembly name.
#[derive(Debug, Clone, Copy, PartialEq, Eq, Structural)]
pub enum MemOp {
    I64Load32U,
    I32Load,
    F32Load,
    I64Load,
    F64Load,
    I32Load8U,
    I64Load8U,
    I32Load16U,
    I64Load16U,
    I32Load8S,
    I32Load16S,
    I64Load8S,
    I64Load16S,
    I64Load32S,
    I32Store,
    F32Store,
    I64Store,
    F64Store,
    I32Store8,
    I64Store8,
    I32Store16,
    I64Store16,
    I64Store32,
}

/// An integer operator without immediates, by its WebAssembly name.
#[derive(Debug, Clone, Copy, PartialEq, Eq, Structural)]
pub enum IntOp {
    I64Eqz,
    I32Eqz,
    I64Eq,
    I32Eq,
    I64Ne,
    I32Ne,
    I64LtS,
    I32LtS,
    I64GtS,
    I32GtS,
    I64LeS,
    I32LeS,
    I64GeS,
    I32GeS,
    I64GtU,
    I32GtU,
    I64LtU,
    I32LtU,
    I64LeU,
    I32LeU,
    I64GeU,
    I32GeU,
    I32Clz,
    I32Ctz,
    I32Popcnt,
    I32RemU,
    I32Rotl,
    I32Rotr,
    I64Clz,
    I64Ctz,
    I64Popcnt,
    I64Add,
    I32Add,
    I64Sub,
    I32Sub,
    I64Mul,
    I32Mul,
    I64DivS,
    I32DivS,
    I64DivU,
    I32DivU,
    I64RemS,
    I32RemS,
    I64RemU,
    I64And,
    I32And,
    I64Or,
    I32Or,
    I64Xor,
    I32Xor,
    I64Shl,
    I32Shl,
    I64ShrS,
    I32ShrS,
    I64ShrU,
    I32ShrU,
    I64Rotl,
    I64Rotr,
    I32WrapI64,
    I64ExtendI32S,
    I64ExtendI32U,
    I32Extend8S,
    I32Extend16S,
    I64Extend8S,
    I64Extend16S,
    I64Extend32S,
}

/// An operator of a function body.
#[derive(Debug)]
pub enum WasmOp {
    Nop,
    Call { function_index: u32 },
    CallIndirect { type_index: u32, table_index: u32 },
    Drop,
    Select,
    LocalGet { local_index: u32 },
    LocalSet { local_index: u32 },
    LocalTee { local_index: u32 },
    GlobalGet { global_index: u32 },
    GlobalSet { global_index: u32 },
    Block,
    Loop,
    If,
    Else,
    End,
    Br { relative_depth: u32 },
    BrIf { relative_depth: u32 },
    Return,
    Unreachable,
    RefIsNull,
    RefNull,
    RefFunc { function_index: u32 },
    TableFill { table: u32 },
    TableGet { table: u32 },
    TableSet { table: u32 },
    TableGrow { table: u32 },
    TableSize { table: u32 },
    TableCopy,
    TableInit,
    ElemDrop,
    /// `br_table`: the targets read before `error`, if reading one failed, and the default target.
    BrTable { targets: Vec<u32>, error: Option<BinaryReaderError>, default: u32 },
    /// A load or a store with the offset of its memory argument.
    Memory { op: MemOp, offset: u64 },
    MemorySize,
    MemoryGrow,
    I32Const { value: i32 },
    I64Const { value: i64 },
    Int { op: IntOp },
    /// Any floating-point operator.
    Float,
    /// Any other operator.
    Other,
}

/// An operator of a constant expression.
#[derive(Debug, Clone, Copy, PartialEq, Eq, Structural)]
pub enum ConstOp {
    I32Const { value: i32 },
    I64Const { value: i64 },
    F32Const,
    F64Const,
    RefNull,
    RefFunc { function_index: u32 },
    GlobalGet { global_index: u32 },
    End,
    Other,
}

/// A constant expression: the operators read, and the error that stopped reading, if any.
#[derive(Debug)]
pub struct ConstExprInfo {
    pub ops: Vec<ConstOp>,
    pub error: Option<BinaryReaderError>,
}

/// The first type of a recursion group: a function with its parameter and
/// result counts, another composite type, or none.
#[derive(Debug, Clone, Copy, PartialEq, Eq, Structural)]
pub enum RecGroupInfo {
    Empty,
    Func { params: usize, results: usize },
    NotFunc,
}

/// What an import brings in.
#[derive(Debug, Clone, Copy, PartialEq, Eq, Structural)]
pub enum ImportKind {
    Func { type_index: u32 },
    Table,
    /// A memory, with its initial size in pages.
    Memory { initial: u64 },
    Global,
    Tag,
}

/// An import.
#[derive(Debug)]
pub struct ImportInfo {
    pub module: String,
    pub name: String,
    pub kind: ImportKind,
}

/// A table: its initial size, and its initializer (`None` for null references).
#[derive(Debug)]
pub struct TableInfo {
    pub initial: u64,
    pub init: Option<ConstExprInfo>,
}

/// An export: its name, whether it is a function, and its index.
#[derive(Debug)]
pub struct ExportInfo {
    pub name: String,
    pub is_func: bool,
    pub index: u32,
}

/// The kind of an element segment.
#[derive(Debug)]
pub enum ElementKindInfo {
    Passive,
    Active { table_index: Option<u32>, offset: ConstExprInfo },
    Declared,
}

/// The items of an element segment.
#[derive(Debug)]
pub enum ElementItemsInfo {
    /// Function indices read, and the error that stopped reading, if any.
    Functions { indices: Vec<u32>, error: Option<BinaryReaderError> },
    Expressions,
}

/// An element segment.
#[derive(Debug)]
pub struct ElementInfo {
    pub kind: ElementKindInfo,
    pub items: ElementItemsInfo,
}

/// The kind of a data segment.
#[derive(Debug)]
pub enum DataKindInfo {
    Passive,
    Active { offset: ConstExprInfo },
}

/// A data segment.
#[derive(Debug)]
pub struct DataInfo {
    pub kind: DataKindInfo,
    pub data: Vec<u8>,
}

/// An operator of a function body with its text and its offset in the module.
#[derive(Debug)]
pub struct OpEntry {
    pub op: WasmOp,
    pub text: String,
    pub location: usize,
}

/// A section (or another part) of a module. Each list of items holds the
/// items read before the error that stopped reading, if any.
#[derive(Debug)]
pub enum Section {
    Version { num: u16, is_component: bool },
    Types { items: Vec<RecGroupInfo>, error: Option<BinaryReaderError> },
    Imports { items: Vec<ImportInfo>, error: Option<BinaryReaderError> },
    Functions { items: Vec<u32>, error: Option<BinaryReaderError> },
    Tables { items: Vec<TableInfo>, error: Option<BinaryReaderError> },
    /// Memories, each by its initial size in pages.
    Memories { items: Vec<u64>, error: Option<BinaryReaderError> },
    /// Globals, each by its initializer.
    Globals { items: Vec<ConstExprInfo>, error: Option<BinaryReaderError> },
    Exports { items: Vec<ExportInfo>, error: Option<BinaryReaderError> },
    Start { func: u32 },
    Elements { items: Vec<ElementInfo>, error: Option<BinaryReaderError> },
    DataCount,
    Data { items: Vec<DataInfo>, error: Option<BinaryReaderError> },
    CodeStart,
    /// A function body: its operators, and the error that stopped reading, if any.
    Code { ops: Vec<OpEntry>, error: Option<BinaryReaderError> },
    Component,
    Tag,
    Custom,
    Unknown { id: u8 },
    End,
    Other,
}

} // verus!
