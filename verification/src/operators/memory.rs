//! Memory operators: loads and stores go through runtime functions.
use vstd::prelude::*;
use crate::compiler::{DFWasmCompiler, emit, lemma_emit_wf, wf};
use crate::df_helper::{
    TemplateExt, df_text, format_df_number_u64, format_df_number_usize, num, num_v, pop_v, popped_into, push_v,
    pushed_item, var, var_v,
};
use crate::error::DFWasmResult;
use crate::template::{Args, BlockV, Item, ItemV, Template, items_view, slotted};
use crate::text::{dec, u32_text, usize_text};
use crate::df_helper::{DF_FUNC_MEM_LOAD, DF_FUNC_MEM_STORE, DF_FUNC_SIGN_EXTEND, DF_VAR_MEM_SIZE};
use crate::operators::numeric::sign_extend_v;
use crate::wasm::{MemOp, WasmOp};

verus! {

/// A set-variable block.
pub open spec fn set_v(action: Seq<char>, items: Seq<ItemV>) -> BlockV {
    BlockV::SetVariable { args: slotted(items), action }
}

/// A call of a function.
pub open spec fn call_v(func: Seq<char>, items: Seq<ItemV>) -> BlockV {
    BlockV::CallFunction { args: slotted(items), func }
}

/// A load of `size` bytes at `offset`, sign-extended to `sign_extend_to` bytes when given.
pub open spec fn load_v(offset: u64, size: nat, sign_extend_to: Option<nat>) -> Seq<BlockV> {
    seq![call_v(DF_FUNC_MEM_LOAD@, seq![num_v(dec(size)), num_v(df_text(false, offset as nat))])] + match sign_extend_to {
        Some(t) => seq![sign_extend_v(size * 8, t * 8)],
        None => seq![],
    }
}

/// A store of `size` bytes at `offset`, of the value masked to `lower_bits` bits when given.
pub open spec fn store_v(offset: u64, size: nat, lower_bits: Option<nat>) -> Seq<BlockV> {
    match lower_bits {
        Some(b) => seq![
            call_v(
                DF_FUNC_MEM_STORE@,
                seq![num_v(dec(size)), num_v(df_text(false, offset as nat)), num_v(df_text(false, (vstd::arithmetic::power2::pow2(b) - 1) as nat))],
            ),
        ],
        None => seq![call_v(DF_FUNC_MEM_STORE@, seq![num_v(dec(size)), num_v(df_text(false, offset as nat))])],
    }
}

/// The byte count, and the width to sign-extend to, of each load; the byte
/// count and the stored bit count of each store.
pub open spec fn mem_op_shape(op: MemOp) -> (bool, nat, Option<nat>) {
    match op {
        MemOp::I64Load32U | MemOp::I32Load | MemOp::F32Load => (true, 4, None),
        MemOp::I64Load | MemOp::F64Load => (true, 8, None),
        MemOp::I32Load8U | MemOp::I64Load8U => (true, 1, None),
        MemOp::I32Load16U | MemOp::I64Load16U => (true, 2, None),
        MemOp::I32Load8S => (true, 1, Some(4)),
        MemOp::I32Load16S => (true, 2, Some(4)),
        MemOp::I64Load8S => (true, 1, Some(8)),
        MemOp::I64Load16S => (true, 2, Some(8)),
        MemOp::I64Load32S => (true, 4, Some(8)),
        MemOp::I32Store | MemOp::F32Store => (false, 4, None),
        MemOp::I64Store | MemOp::F64Store => (false, 8, None),
        MemOp::I32Store8 | MemOp::I64Store8 => (false, 1, Some(8)),
        MemOp::I32Store16 | MemOp::I64Store16 => (false, 2, Some(16)),
        MemOp::I64Store32 => (false, 4, Some(32)),
    }
}

/// The code of a memory operator.
pub open spec fn memory_blocks(op: WasmOp) -> Option<Seq<BlockV>> {
    match op {
        WasmOp::Memory { op, offset } => {
            let (is_load, size, extra) = mem_op_shape(op);
            if is_load {
                Some(load_v(offset, size, extra))
            } else {
                Some(store_v(offset, size, extra))
            }
        },
        WasmOp::MemorySize => Some(seq![push_v(var_v(DF_VAR_MEM_SIZE@))]),
        WasmOp::MemoryGrow => Some(seq![
            pop_v(var_v("$delta"@)),
            push_v(var_v(DF_VAR_MEM_SIZE@)),
            set_v("+="@, seq![var_v(DF_VAR_MEM_SIZE@), var_v("$delta"@)]),
        ]),
        _ => None,
    }
}

fn compile_load(template: &mut Template, offset: u64, size: usize, sign_extend_to: Option<usize>)
    requires
        size <= 8,
        sign_extend_to matches Some(t) ==> t <= 8,
    ensures
        final(template)@ == old(template)@ + load_v(offset, size as nat, match sign_extend_to {
            Some(t) => Some(t as nat),
            None => None,
        }),
{
    let ghost t0 = template@;
    let mut v = Vec::new();
    v.push(num(usize_text(size).as_str()));
    v.push(num(format_df_number_u64(offset).as_str()));
    assert(items_view(v@) =~= seq![num_v(dec(size as nat)), num_v(df_text(false, offset as nat))]);
    template.call_function(DF_FUNC_MEM_LOAD, Args::with(v));
    match sign_extend_to {
        Some(t) => {
            let mut w = Vec::new();
            w.push(num(format_df_number_usize(size * 8).as_str()));
            w.push(num(format_df_number_usize(t * 8).as_str()));
            assert(items_view(w@) =~= seq![num_v(df_text(false, size as nat * 8)), num_v(df_text(false, t as nat * 8))]);
            template.call_function(DF_FUNC_SIGN_EXTEND, Args::with(w));
        },
        None => {},
    }
    assert(template@ =~= t0 + load_v(offset, size as nat, match sign_extend_to {
        Some(t) => Some(t as nat),
        None => None,
    }));
}

fn compile_store(template: &mut Template, offset: u64, size: usize, lower_bits: Option<usize>)
    requires
        lower_bits matches Some(b) ==> b <= 32,
    ensures
        final(template)@ == old(template)@ + store_v(offset, size as nat, match lower_bits {
            Some(b) => Some(b as nat),
            None => None,
        }),
{
    let ghost t0 = template@;
    let mut v = Vec::new();
    v.push(num(usize_text(size).as_str()));
    v.push(num(format_df_number_u64(offset).as_str()));
    match lower_bits {
        Some(b) => {
            let mask: usize = low_bits_mask(b);
            v.push(num(format_df_number_usize(mask).as_str()));
            assert(items_view(v@) =~= seq![num_v(dec(size as nat)), num_v(df_text(false, offset as nat)), num_v(df_text(false, (vstd::arithmetic::power2::pow2(b as nat) - 1) as nat))]);
        },
        None => {
            assert(items_view(v@) =~= seq![num_v(dec(size as nat)), num_v(df_text(false, offset as nat))]);
        },
    }
    template.call_function(DF_FUNC_MEM_STORE, Args::with(v));
    assert(template@ =~= t0 + store_v(offset, size as nat, match lower_bits {
        Some(b) => Some(b as nat),
        None => None,
    }));
}

/// `2^b - 1`: the largest value of `b` bits.
fn low_bits_mask(b: usize) -> (r: usize)
    requires
        b <= 32,
    ensures
        r == vstd::arithmetic::power2::pow2(b as nat) - 1,
{
    let mut m: u64 = 1;
    let mut i: usize = 0;
    proof {
        vstd::arithmetic::power2::lemma2_to64();
    }
    while i < b
        invariant
            i <= b,
            b <= 32,
            m == vstd::arithmetic::power2::pow2(i as nat),
        decreases b - i,
    {
        proof {
            vstd::arithmetic::power2::lemma_pow2_unfold((i + 1) as nat);
            vstd::arithmetic::power2::lemma_pow2_strictly_increases(i as nat, 33);
            vstd::arithmetic::power2::lemma2_to64();
        }
        m = m * 2;
        i = i + 1;
    }
    proof {
        vstd::arithmetic::power2::lemma_pow2_pos(b as nat);
        vstd::arithmetic::power2::lemma2_to64();
        if b < 32 {
            vstd::arithmetic::power2::lemma_pow2_strictly_increases(b as nat, 32);
        }
    }
    (m - 1) as usize
}

/// Compiles a memory operator into the current template.
pub fn compile_memory_operator(compiler: &mut DFWasmCompiler, operator: WasmOp, _location: usize) -> (r: DFWasmResult<()>)
    requires
        wf(old(compiler)@),
        old(compiler).control_stack@.len() > 0,
        memory_blocks(operator) is Some,
    ensures
        final(compiler)@ == emit(old(compiler)@, memory_blocks(operator).unwrap()),
        r is Ok,
        wf(final(compiler)@),
        final(compiler).options == old(compiler).options,
        final(compiler).wasm == old(compiler).wasm,
{
    let ghost s0 = compiler@;
    let template = compiler.get_current_template();
    let ghost t0 = template@;
    match operator {
        WasmOp::Memory { op, offset } => {
            match op {
                MemOp::I64Load32U | MemOp::I32Load | MemOp::F32Load => compile_load(template, offset, 4, None),
                MemOp::I64Load | MemOp::F64Load => compile_load(template, offset, 8, None),
                MemOp::I32Load8U | MemOp::I64Load8U => compile_load(template, offset, 1, None),
                MemOp::I32Load16U | MemOp::I64Load16U => compile_load(template, offset, 2, None),
                MemOp::I32Load8S => compile_load(template, offset, 1, Some(4)),
                MemOp::I32Load16S => compile_load(template, offset, 2, Some(4)),
                MemOp::I64Load8S => compile_load(template, offset, 1, Some(8)),
                MemOp::I64Load16S => compile_load(template, offset, 2, Some(8)),
                MemOp::I64Load32S => compile_load(template, offset, 4, Some(8)),
                MemOp::I32Store | MemOp::F32Store => compile_store(template, offset, 4, None),
                MemOp::I64Store | MemOp::F64Store => compile_store(template, offset, 8, None),
                MemOp::I32Store8 | MemOp::I64Store8 => compile_store(template, offset, 1, Some(8)),
                MemOp::I32Store16 | MemOp::I64Store16 => compile_store(template, offset, 2, Some(16)),
                MemOp::I64Store32 => compile_store(template, offset, 4, Some(32)),
            }
        },
        WasmOp::MemorySize => {
            template.push_op_stack(var(DF_VAR_MEM_SIZE));
        },
        WasmOp::MemoryGrow => {
            let mut v = Vec::new();
            v.push(var(DF_VAR_MEM_SIZE));
            v.push(var("$delta"));
            assert(items_view(v@) =~= seq![var_v(DF_VAR_MEM_SIZE@), var_v("$delta"@)]);
            template.pop_op_stack(var("$delta")).push_op_stack(var(DF_VAR_MEM_SIZE)).set_var("+=", Args::with(v));
        },
        _ => {},
    }
    proof {
        let b = memory_blocks(operator).unwrap();
        assert(template@ =~= t0 + b);
        lemma_emit_wf(s0, b);
    }
    Ok(())
}

/// The number of bytes a WebAssembly store writes, and the width in bits of
/// the value it takes them from.
pub open spec fn store_width(op: MemOp) -> Option<(nat, nat)> {
    match op {
        MemOp::I32Store8 => Some((1, 32)),
        MemOp::I32Store16 => Some((2, 32)),
        MemOp::I32Store | MemOp::F32Store => Some((4, 32)),
        MemOp::I64Store8 => Some((1, 64)),
        MemOp::I64Store16 => Some((2, 64)),
        MemOp::I64Store32 => Some((4, 64)),
        MemOp::I64Store | MemOp::F64Store => Some((8, 64)),
        _ => None,
    }
}

/// A store of `n` bytes writes the low `8n` bits of its value: its code is
/// one call of the store function with the byte count and the offset, and,
/// where the value is wider than `8n` bits, the mask `2^(8n) - 1` of those
/// bits.
pub proof fn lemma_store_keeps_low_bytes(op: MemOp, offset: u64)
    requires
        store_width(op) is Some,
    ensures
        ({
            let (n, w) = store_width(op).unwrap();
            let head = seq![num_v(dec(n)), num_v(df_text(false, offset as nat))];
            memory_blocks(WasmOp::Memory { op, offset }) == Some(
                seq![
                    call_v(
                        DF_FUNC_MEM_STORE@,
                        if 8 * n < w {
                            head.push(num_v(df_text(false, (vstd::arithmetic::power2::pow2(8 * n) - 1) as nat)))
                        } else {
                            head
                        },
                    ),
                ],
            )
        }),
{
    let (n, w) = store_width(op).unwrap();
    let head = seq![num_v(dec(n)), num_v(df_text(false, offset as nat))];
    assert(head.push(num_v(df_text(false, (vstd::arithmetic::power2::pow2(8 * n) - 1) as nat))) =~= seq![
        num_v(dec(n)),
        num_v(df_text(false, offset as nat)),
        num_v(df_text(false, (vstd::arithmetic::power2::pow2(8 * n) - 1) as nat)),
    ]);
}

/// The number of bytes a WebAssembly load reads, whether it sign-extends
/// them, and the width in bits of the value it gives.
pub open spec fn load_width(op: MemOp) -> Option<(nat, bool, nat)> {
    match op {
        MemOp::I32Load | MemOp::F32Load => Some((4, false, 32)),
        MemOp::I32Load8U => Some((1, false, 32)),
        MemOp::I32Load8S => Some((1, true, 32)),
        MemOp::I32Load16U => Some((2, false, 32)),
        MemOp::I32Load16S => Some((2, true, 32)),
        MemOp::I64Load | MemOp::F64Load => Some((8, false, 64)),
        MemOp::I64Load8U => Some((1, false, 64)),
        MemOp::I64Load8S => Some((1, true, 64)),
        MemOp::I64Load16U => Some((2, false, 64)),
        MemOp::I64Load16S => Some((2, true, 64)),
        MemOp::I64Load32U => Some((4, false, 64)),
        MemOp::I64Load32S => Some((4, true, 64)),
        _ => None,
    }
}

/// A load of `n` bytes reads those bytes at its offset, and a signed load
/// then sign-extends them from `8n` bits to the width of its value: its code
/// is a call of the load function with the byte count and the offset,
/// followed, for a signed load, by a sign extension from `8n` bits to the
/// value's width.
pub proof fn lemma_load_reads_bytes(op: MemOp, offset: u64)
    requires
        load_width(op) is Some,
    ensures
        ({
            let (n, signed, w) = load_width(op).unwrap();
            memory_blocks(WasmOp::Memory { op, offset }) == Some(
                seq![call_v(DF_FUNC_MEM_LOAD@, seq![num_v(dec(n)), num_v(df_text(false, offset as nat))])] + if signed {
                    seq![sign_extend_v(8 * n, w)]
                } else {
                    Seq::empty()
                },
            )
        }),
{
    let (n, signed, w) = load_width(op).unwrap();
    let call = seq![call_v(DF_FUNC_MEM_LOAD@, seq![num_v(dec(n)), num_v(df_text(false, offset as nat))])];
    assert(call + Seq::<BlockV>::empty() =~= call);
}

/// `memory.size` pushes the memory's size, and `memory.grow` answers with the
/// size it found: it pops the page count to grow by into a variable other
/// than the size, pushes the size as it was, and only then adds the popped
/// count to the size.
pub proof fn lemma_memory_size_and_grow()
    ensures
        memory_blocks(WasmOp::MemorySize) == Some(seq![push_v(var_v(DF_VAR_MEM_SIZE@))]),
        ({
            let g = memory_blocks(WasmOp::MemoryGrow).unwrap();
            &&& memory_blocks(WasmOp::MemoryGrow) is Some
            &&& g.len() == 3
            &&& popped_into(g[0]) matches Some(d) && d != DF_VAR_MEM_SIZE@ && pushed_item(g[1]) == Some(
                var_v(DF_VAR_MEM_SIZE@),
            ) && g[2] == set_v("+="@, seq![var_v(DF_VAR_MEM_SIZE@), var_v(d)])
        }),
{
    reveal_strlit("$delta");
    reveal_strlit("wasm.$memSize");
    assert("$delta"@ != DF_VAR_MEM_SIZE@) by {
        assert("$delta"@[0] != DF_VAR_MEM_SIZE@[0]);
    }
}

} // verus!
