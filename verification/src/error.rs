//! The errors of the compiler.
use vstd::prelude::*;
use wasmparser::BinaryReaderError;

verus! {

/// Why a module could not be compiled.
#[derive(Debug)]
pub enum DFWasmError {
    ReadError(BinaryReaderError),
    UnsupportedVersion(u16),
    UnsupportedComponents,
    UnsupportedTags,
    UnsupportedConstExpr,
    UnsupportedOperator { op: String, location: usize },
    MaximumTableSize,
    MultipleMemories,
    MultipleStartMethods,
    UnknownSection(u8),
    UnknownPayload,
    NotYetImplemented(&'static str),
}

/// The value of an error, with texts as character sequences.
pub enum ErrV {
    ReadError(BinaryReaderError),
    UnsupportedVersion(u16),
    UnsupportedComponents,
    UnsupportedTags,
    UnsupportedConstExpr,
    UnsupportedOperator { op: Seq<char>, location: usize },
    MaximumTableSize,
    MultipleMemories,
    MultipleStartMethods,
    UnknownSection(u8),
    UnknownPayload,
    NotYetImplemented(Seq<char>),
}

impl View for DFWasmError {
    type V = ErrV;

    open spec fn view(&self) -> ErrV {
        match *self {
            DFWasmError::ReadError(e) => ErrV::ReadError(e),
            DFWasmError::UnsupportedVersion(n) => ErrV::UnsupportedVersion(n),
            DFWasmError::UnsupportedComponents => ErrV::UnsupportedComponents,
            DFWasmError::UnsupportedTags => ErrV::UnsupportedTags,
            DFWasmError::UnsupportedConstExpr => ErrV::UnsupportedConstExpr,
            DFWasmError::UnsupportedOperator { op, location } => ErrV::UnsupportedOperator {
                op: op@,
                location,
            },
            DFWasmError::MaximumTableSize => ErrV::MaximumTableSize,
            DFWasmError::MultipleMemories => ErrV::MultipleMemories,
            DFWasmError::MultipleStartMethods => ErrV::MultipleStartMethods,
            DFWasmError::UnknownSection(id) => ErrV::UnknownSection(id),
            DFWasmError::UnknownPayload => ErrV::UnknownPayload,
            DFWasmError::NotYetImplemented(s) => ErrV::NotYetImplemented(s@),
        }
    }
}

/// The result of a compilation step.
pub type DFWasmResult<T> = Result<T, DFWasmError>;

/// The value of the result of a step that returns nothing.
pub open spec fn unit_res(r: DFWasmResult<()>) -> Result<(), ErrV> {
    match r {
        Ok(()) => Ok(()),
        Err(e) => Err(e@),
    }
}

} // verus!
