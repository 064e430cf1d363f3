//! A compiler from WebAssembly modules to DiamondFire code templates.
use vstd::prelude::*;

pub mod text;
pub mod df_helper;
pub mod template;
pub mod test_gen;
pub mod json_block;
pub mod names;
pub mod splitter;
pub mod wasm;
pub mod wasm_read;
pub mod error;
pub mod codec;
pub mod compiler;
pub mod operators;
pub mod runner;
pub mod sender;
pub mod sections;

verus! {
} // verus!
