//! Numeric operators. DiamondFire numbers are fixed-point with three decimal
//! places, so an integer `v` is held as `v / 1000`; 32-bit results are masked
//! back to 32 bits with a bitwise `&`.
use vstd::prelude::*;
use crate::compiler::{DFWasmCompiler, emit, lemma_emit_wf, wf};
use crate::df_helper::{
    DF_FUNC_I64_MUL, DF_FUNC_SIGN_EXTEND, TemplateExt, compare_push_v, df_signed, df_text,
    format_df_number_i32, format_df_number_i64, format_df_number_u32, format_df_number_u64,
    format_df_number_usize, math_of_vars, num, num_v, pop_v, popped_into, pops, push_v, pushed_item, var, var_v,
    lemma_pops_append, lemma_pops_one,
};
use crate::error::{DFWasmError, DFWasmResult, ErrV, unit_res};
use crate::template::{Args, BlockV, ItemV, Template, bitwise_v, close_v, open_v, slotted};
use crate::text::owned;
use crate::wasm::{IntOp, WasmOp};

verus! {

/// Calls the sign-extension function with the given bit counts (as DiamondFire numbers).
pub open spec fn sign_extend_v(from: nat, to: nat) -> BlockV {
    BlockV::CallFunction {
        args: slotted(seq![num_v(df_text(false, from)), num_v(df_text(false, to))]),
        func: DF_FUNC_SIGN_EXTEND@,
    }
}

/// Pops `$b` and `$a` and pushes the number `expr`, masked to `mask` when given.
pub open spec fn binary_v(expr: Seq<char>, mask: Option<u32>) -> Seq<BlockV> {
    seq![pop_v(var_v("$b"@)), pop_v(var_v("$a"@))] + match mask {
        Some(m) => seq![
            bitwise_v("&"@, var_v("$res"@), num_v(expr), num_v(df_text(false, m as nat))),
            push_v(var_v("$res"@)),
        ],
        None => seq![push_v(num_v(expr))],
    }
}

/// Pops `$b` and `$a` and pushes `$a <op> $b`, masked to `mask` when given.
pub open spec fn bitwise_op_v(op: Seq<char>, mask: Option<u32>) -> Seq<BlockV> {
    seq![
        pop_v(var_v("$b"@)),
        pop_v(var_v("$a"@)),
        bitwise_v(op, var_v("$res"@), var_v("$a"@), var_v("$b"@)),
    ] + match mask {
        Some(m) => seq![bitwise_v("&"@, var_v("$res"@), var_v("$res"@), num_v(df_text(false, m as nat)))],
        None => seq![],
    } + seq![push_v(var_v("$res"@))]
}

/// Pops `$b` and `$a`, each sign-extended from 32 bits first when
/// `sign_extend`, each with its top bit flipped when `xor` (so that signed
/// comparison orders them as unsigned), and pushes the comparison.
pub open spec fn comparison_v(action: Seq<char>, sign_extend: bool, xor: bool) -> Seq<BlockV> {
    let se: Seq<BlockV> = if sign_extend { seq![sign_extend_v(32, 64)] } else { seq![] };
    let flip: Seq<BlockV> = if xor {
        seq![
            bitwise_v("^"@, var_v("$a"@), var_v("$a"@), num_v(df_signed(i64::MIN as int))),
            bitwise_v("^"@, var_v("$b"@), var_v("$b"@), num_v(df_signed(i64::MIN as int))),
        ]
    } else {
        seq![]
    };
    se + seq![pop_v(var_v("$b"@))] + se + seq![pop_v(var_v("$a"@))] + flip + compare_push_v(
        action,
        var_v("$a"@),
        var_v("$b"@),
    )
}

/// The text `%math(0.0<bits> - %var($b))`.
pub open spec fn rotate_amount(bits: nat) -> Seq<char> {
    "%math(0.0"@ + crate::text::dec(bits) + " - %var($b))"@
}

/// Rotates `$a` by `$b` within `bits` bits.
pub open spec fn rotate_v(bits: nat, is_right_shift: bool) -> Seq<BlockV> {
    let mask: nat = if bits == 32 { 31 } else { 63 };
    let shifts = if is_right_shift {
        seq![
            bitwise_v(">>>"@, var_v("$lhs"@), var_v("$a"@), var_v("$b"@)),
            bitwise_v("<<"@, var_v("$rhs"@), var_v("$a"@), num_v(rotate_amount(bits))),
        ]
    } else {
        seq![
            bitwise_v("<<"@, var_v("$lhs"@), var_v("$a"@), var_v("$b"@)),
            bitwise_v(">>>"@, var_v("$rhs"@), var_v("$a"@), num_v(rotate_amount(bits))),
        ]
    };
    seq![
        pop_v(var_v("$b"@)),
        pop_v(var_v("$a"@)),
        bitwise_v("&"@, var_v("$b"@), var_v("$b"@), num_v(df_text(false, mask))),
    ] + shifts + seq![bitwise_v("|"@, var_v("$result"@), var_v("$lhs"@), var_v("$rhs"@))] + (if bits == 32 {
        seq![bitwise_v("&"@, var_v("$result"@), var_v("$result"@), num_v(df_text(false, 0xFFFF_FFFF)))]
    } else {
        seq![]
    }) + seq![push_v(var_v("$result"@))]
}

/// Pops `$b` and `$a`, masks the shift to five bits, and pushes `$a <op> $b`.
pub open spec fn shift32_v(op: Seq<char>, mask_result: bool) -> Seq<BlockV> {
    seq![
        pop_v(var_v("$b"@)),
        pop_v(var_v("$a"@)),
        bitwise_v("&"@, var_v("$b"@), var_v("$b"@), num_v(df_text(false, 31))),
        bitwise_v(op, var_v("$result"@), var_v("$a"@), var_v("$b"@)),
    ] + (if mask_result {
        seq![bitwise_v("&"@, var_v("$result"@), var_v("$result"@), num_v(df_text(false, 0xFFFF_FFFF)))]
    } else {
        seq![]
    }) + seq![push_v(var_v("$result"@))]
}

/// The code of an integer operator; `None` for `clz`, `ctz`, `popcnt` and
/// `i64.rem_u`, which the compiler does not handle.
pub open spec fn int_op_blocks(op: IntOp) -> Option<Seq<BlockV>> {
    let u32max: u32 = 0xFFFF_FFFF;
    match op {
        IntOp::I64Eqz | IntOp::I32Eqz => Some(
            seq![pop_v(var_v("$value"@))] + compare_push_v("="@, var_v("$value"@), num_v("0"@)),
        ),
        IntOp::I64Eq | IntOp::I32Eq => Some(comparison_v("="@, false, false)),
        IntOp::I64Ne | IntOp::I32Ne => Some(comparison_v("!="@, false, false)),
        IntOp::I64LtS => Some(comparison_v("<"@, false, false)),
        IntOp::I32LtS => Some(comparison_v("<"@, true, false)),
        IntOp::I64GtS => Some(comparison_v(">"@, false, false)),
        IntOp::I32GtS => Some(comparison_v(">"@, true, false)),
        IntOp::I64LeS => Some(comparison_v("<="@, false, false)),
        IntOp::I32LeS => Some(comparison_v("<="@, true, false)),
        IntOp::I64GeS => Some(comparison_v(">="@, false, false)),
        IntOp::I32GeS => Some(comparison_v(">="@, true, false)),
        IntOp::I64GtU | IntOp::I32GtU => Some(comparison_v(">"@, false, true)),
        IntOp::I64LtU | IntOp::I32LtU => Some(comparison_v("<"@, false, true)),
        IntOp::I64LeU | IntOp::I32LeU => Some(comparison_v("<="@, false, true)),
        IntOp::I64GeU | IntOp::I32GeU => Some(comparison_v(">="@, false, true)),
        IntOp::I64Clz | IntOp::I32Clz | IntOp::I64Ctz | IntOp::I32Ctz | IntOp::I64Popcnt
        | IntOp::I32Popcnt | IntOp::I64RemU => None,
        IntOp::I64Add => Some(binary_v("%math(%var($a)+%var($b))"@, None)),
        IntOp::I32Add => Some(binary_v("%math(%var($a)+%var($b))"@, Some(u32max))),
        IntOp::I64Sub => Some(binary_v("%math(%var($a)-%var($b))"@, None)),
        IntOp::I32Sub => Some(binary_v("%math(%var($a)-%var($b))"@, Some(u32max))),
        IntOp::I64Mul => Some(seq![BlockV::CallFunction { args: Seq::empty(), func: DF_FUNC_I64_MUL@ }]),
        IntOp::I32Mul => Some(binary_v("%math(1000*%var($a)*%var($b))"@, Some(u32max))),
        IntOp::I64DivS | IntOp::I32DivU => Some(binary_v("%math(%var($a) / %var($b) / 1000)"@, None)),
        IntOp::I32DivS => Some(seq![
            sign_extend_v(32, 64),
            pop_v(var_v("$b"@)),
            sign_extend_v(32, 64),
            pop_v(var_v("$a"@)),
            bitwise_v(
                "&"@,
                var_v("$res"@),
                num_v("%math(%var($a) / %var($b) / 1000)"@),
                num_v(df_text(false, 0xFFFF_FFFF)),
            ),
            push_v(var_v("$res"@)),
        ]),
        IntOp::I64DivU => Some(seq![
            pop_v(var_v("$b"@)),
            pop_v(var_v("$a"@)),
            push_v(num_v("%math(%var($a) / %var($b) / 1000)"@)),
        ]),
        IntOp::I64RemS | IntOp::I32RemU => Some(binary_v("%math(%var($a) % %var($b))"@, None)),
        IntOp::I32RemS => Some(seq![
            sign_extend_v(32, 32),
            pop_v(var_v("$b"@)),
            sign_extend_v(32, 32),
            pop_v(var_v("$a"@)),
            push_v(num_v("%math(%var($a) % %var($b))"@)),
        ]),
        IntOp::I64And | IntOp::I32And => Some(bitwise_op_v("&"@, None)),
        IntOp::I64Or | IntOp::I32Or => Some(bitwise_op_v("|"@, None)),
        IntOp::I64Xor => Some(bitwise_op_v("^"@, None)),
        IntOp::I32Xor => Some(bitwise_op_v("^"@, Some(u32max))),
        IntOp::I64Shl => Some(bitwise_op_v("<<"@, None)),
        IntOp::I32Shl => Some(shift32_v("<<"@, true)),
        IntOp::I64ShrS => Some(bitwise_op_v(">>"@, None)),
        IntOp::I32ShrS => Some(shift32_v(">>"@, false)),
        IntOp::I64ShrU => Some(bitwise_op_v(">>>"@, None)),
        IntOp::I32ShrU => Some(shift32_v(">>>"@, false)),
        IntOp::I64Rotl => Some(rotate_v(64, false)),
        IntOp::I64Rotr => Some(rotate_v(64, true)),
        IntOp::I32Rotl => Some(rotate_v(32, false)),
        IntOp::I32Rotr => Some(rotate_v(32, true)),
        IntOp::I32WrapI64 => Some(seq![
            pop_v(var_v("$value"@)),
            bitwise_v("&"@, var_v("$value"@), var_v("$value"@), num_v(df_text(false, 0xFFFF_FFFF))),
            push_v(var_v("$value"@)),
        ]),
        IntOp::I64ExtendI32S => Some(seq![sign_extend_v(32, 64)]),
        IntOp::I64ExtendI32U => Some(seq![]),
        IntOp::I32Extend8S => Some(seq![sign_extend_v(8, 32)]),
        IntOp::I32Extend16S => Some(seq![sign_extend_v(16, 32)]),
        IntOp::I64Extend8S => Some(seq![sign_extend_v(8, 64)]),
        IntOp::I64Extend16S => Some(seq![sign_extend_v(16, 64)]),
        IntOp::I64Extend32S => Some(seq![sign_extend_v(32, 64)]),
    }
}

/// What an integer operator the compiler has no code for is reported as:
/// `clz`, `ctz` and `popcnt` as bit counting operators, `i64.rem_u` as a
/// 64-bit unsigned remainder.
pub open spec fn pending_op_text(op: IntOp) -> Seq<char> {
    match op {
        IntOp::I64RemU => "64-bit unsigned remainders"@,
        _ => "bit counting operators"@,
    }
}

/// The name of an integer operator the compiler has no code for (see
/// [`pending_op_text`]).
fn pending_op_name(op: IntOp) -> (r: &'static str)
    ensures
        r@ == pending_op_text(op),
{
    match op {
        IntOp::I64RemU => "64-bit unsigned remainders",
        _ => "bit counting operators",
    }
}

/// The code of a numeric operator, or the error for floating-point operators
/// and for the integer operators the compiler has no code for;
/// `None` where the compiler stops short.
pub open spec fn numeric_blocks(op: WasmOp) -> Option<Result<Seq<BlockV>, ErrV>> {
    match op {
        WasmOp::I32Const { value } => Some(Ok(seq![push_v(num_v(df_text(false, (value as u32) as nat)))])),
        WasmOp::I64Const { value } => Some(Ok(seq![push_v(num_v(df_signed(value as int)))])),
        WasmOp::Int { op } => match int_op_blocks(op) {
            Some(b) => Some(Ok(b)),
            None => Some(Err(ErrV::NotYetImplemented(pending_op_text(op)))),
        },
        WasmOp::Float => Some(Err(ErrV::NotYetImplemented("floats are not supported yet"@))),
        _ => None,
    }
}

/// Whether an operator is numeric.
pub open spec fn is_numeric(op: WasmOp) -> bool {
    op is I32Const || op is I64Const || op is Int || op is Float
}

fn sign_extend_call(template: &mut Template, from: usize, to: usize)
    ensures
        final(template)@ == old(template)@.push(sign_extend_v(from as nat, to as nat)),
{
    let a = format_df_number_usize(from);
    let b = format_df_number_usize(to);
    let mut v = Vec::new();
    v.push(num(a.as_str()));
    v.push(num(b.as_str()));
    assert(crate::template::items_view(v@) =~= seq![num_v(df_text(false, from as nat)), num_v(df_text(false, to as nat))]);
    template.call_function(DF_FUNC_SIGN_EXTEND, Args::with(v));
}

fn compile_rotate_operator(template: &mut Template, bits: usize, is_right_shift: bool)
    requires
        bits == 32 || bits == 64,
    ensures
        final(template)@ == old(template)@ + rotate_v(bits as nat, is_right_shift),
{
    let ghost t0 = template@;
    let shift_mask: usize = if bits == 32 { 0x1F } else { 0x3F };
    template.pop_op_stack(var("$b")).pop_op_stack(var("$a")).set_var_bitwise(
        "&",
        var("$b"),
        var("$b"),
        num(format_df_number_usize(shift_mask).as_str()),
    );
    let mut amount: Vec<char> = Vec::new();
    crate::text::push_str(&mut amount, "%math(0.0");
    let d = crate::text::dec_chars(bits as u64);
    crate::text::push_chars(&mut amount, &d);
    crate::text::push_str(&mut amount, " - %var($b))");
    let amount = crate::text::string_of(&amount);
    assert(amount@ == rotate_amount(bits as nat));
    if is_right_shift {
        template.set_var_bitwise(">>>", var("$lhs"), var("$a"), var("$b")).set_var_bitwise(
            "<<",
            var("$rhs"),
            var("$a"),
            num(amount.as_str()),
        );
    } else {
        template.set_var_bitwise("<<", var("$lhs"), var("$a"), var("$b")).set_var_bitwise(
            ">>>",
            var("$rhs"),
            var("$a"),
            num(amount.as_str()),
        );
    }
    template.set_var_bitwise("|", var("$result"), var("$lhs"), var("$rhs"));
    if bits == 32 {
        template.set_var_bitwise(
            "&",
            var("$result"),
            var("$result"),
            num(format_df_number_usize(0xFFFF_FFFF).as_str()),
        );
    }
    template.push_op_stack(var("$result"));
    assert(template@ =~= t0 + rotate_v(bits as nat, is_right_shift));
}

fn compile_comparison_operator(template: &mut Template, action: &str, sign_extend: bool, xor: bool)
    ensures
        final(template)@ == old(template)@ + comparison_v(action@, sign_extend, xor),
{
    let ghost t0 = template@;
    if sign_extend {
        sign_extend_call(template, 32, 64);
    }
    template.pop_op_stack(var("$b"));
    if sign_extend {
        sign_extend_call(template, 32, 64);
    }
    template.pop_op_stack(var("$a"));
    if xor {
        template.set_var_bitwise("^", var("$a"), var("$a"), num(format_df_number_i64(i64::MIN).as_str()));
        template.set_var_bitwise("^", var("$b"), var("$b"), num(format_df_number_i64(i64::MIN).as_str()));
    }
    template.compare_and_push(action, var("$a"), var("$b"));
    assert(template@ =~= t0 + comparison_v(action@, sign_extend, xor));
}

fn compile_binary_operator(template: &mut Template, expr: &str, mask: Option<u32>)
    ensures
        final(template)@ == old(template)@ + binary_v(expr@, mask),
{
    let ghost t0 = template@;
    template.pop_op_stack(var("$b")).pop_op_stack(var("$a"));
    let value = num(expr);
    match mask {
        Some(m) => {
            template.set_var_bitwise("&", var("$res"), value, num(format_df_number_u32(m).as_str()));
            template.push_op_stack(var("$res"));
        },
        None => {
            template.push_op_stack(value);
        },
    }
    assert(template@ =~= t0 + binary_v(expr@, mask));
}

fn compile_bitwise_operator(template: &mut Template, operator: &str, mask: Option<u32>)
    ensures
        final(template)@ == old(template)@ + bitwise_op_v(operator@, mask),
{
    let ghost t0 = template@;
    template.pop_op_stack(var("$b")).pop_op_stack(var("$a")).set_var_bitwise(operator, var("$res"), var("$a"), var("$b"));
    match mask {
        Some(m) => {
            template.set_var_bitwise("&", var("$res"), var("$res"), num(format_df_number_u32(m).as_str()));
        },
        None => {},
    }
    template.push_op_stack(var("$res"));
    assert(template@ =~= t0 + bitwise_op_v(operator@, mask));
}

fn compile_shift32(template: &mut Template, operator: &str, mask_result: bool)
    ensures
        final(template)@ == old(template)@ + shift32_v(operator@, mask_result),
{
    let ghost t0 = template@;
    template.pop_op_stack(var("$b")).pop_op_stack(var("$a")).set_var_bitwise(
        "&",
        var("$b"),
        var("$b"),
        num(format_df_number_usize(0x1F).as_str()),
    ).set_var_bitwise(operator, var("$result"), var("$a"), var("$b"));
    if mask_result {
        template.set_var_bitwise("&", var("$result"), var("$result"), num(format_df_number_u32(0xFFFF_FFFF).as_str()));
    }
    template.push_op_stack(var("$result"));
    assert(template@ =~= t0 + shift32_v(operator@, mask_result));
}

/// Appends the code of an integer operator.
fn compile_int_operator(template: &mut Template, op: IntOp)
    requires
        int_op_blocks(op) is Some,
    ensures
        final(template)@ == old(template)@ + int_op_blocks(op).unwrap(),
{
    let ghost t0 = template@;
    let u32max: u32 = 0xFFFF_FFFF;
    match op {
        IntOp::I64Eqz | IntOp::I32Eqz => {
            template.pop_op_stack(var("$value")).compare_and_push("=", var("$value"), num("0"));
            assert(template@ =~= t0 + int_op_blocks(op).unwrap());
        },
        IntOp::I64Eq | IntOp::I32Eq => compile_comparison_operator(template, "=", false, false),
        IntOp::I64Ne | IntOp::I32Ne => compile_comparison_operator(template, "!=", false, false),
        IntOp::I64LtS => compile_comparison_operator(template, "<", false, false),
        IntOp::I32LtS => compile_comparison_operator(template, "<", true, false),
        IntOp::I64GtS => compile_comparison_operator(template, ">", false, false),
        IntOp::I32GtS => compile_comparison_operator(template, ">", true, false),
        IntOp::I64LeS => compile_comparison_operator(template, "<=", false, false),
        IntOp::I32LeS => compile_comparison_operator(template, "<=", true, false),
        IntOp::I64GeS => compile_comparison_operator(template, ">=", false, false),
        IntOp::I32GeS => compile_comparison_operator(template, ">=", true, false),
        IntOp::I64GtU | IntOp::I32GtU => compile_comparison_operator(template, ">", false, true),
        IntOp::I64LtU | IntOp::I32LtU => compile_comparison_operator(template, "<", false, true),
        IntOp::I64LeU | IntOp::I32LeU => compile_comparison_operator(template, "<=", false, true),
        IntOp::I64GeU | IntOp::I32GeU => compile_comparison_operator(template, ">=", false, true),
        IntOp::I64Clz | IntOp::I32Clz | IntOp::I64Ctz | IntOp::I32Ctz | IntOp::I64Popcnt
        | IntOp::I32Popcnt | IntOp::I64RemU => {},
        IntOp::I64Add => compile_binary_operator(template, "%math(%var($a)+%var($b))", None),
        IntOp::I32Add => compile_binary_operator(template, "%math(%var($a)+%var($b))", Some(u32max)),
        IntOp::I64Sub => compile_binary_operator(template, "%math(%var($a)-%var($b))", None),
        IntOp::I32Sub => compile_binary_operator(template, "%math(%var($a)-%var($b))", Some(u32max)),
        IntOp::I64Mul => {
            template.call_function(DF_FUNC_I64_MUL, Args::default());
            assert(template@ =~= t0 + int_op_blocks(op).unwrap());
        },
        IntOp::I32Mul => compile_binary_operator(template, "%math(1000*%var($a)*%var($b))", Some(u32max)),
        IntOp::I64DivS | IntOp::I32DivU => compile_binary_operator(
            template,
            "%math(%var($a) / %var($b) / 1000)",
            None,
        ),
        IntOp::I32DivS => {
            sign_extend_call(template, 32, 64);
            template.pop_op_stack(var("$b"));
            sign_extend_call(template, 32, 64);
            template.pop_op_stack(var("$a")).set_var_bitwise(
                "&",
                var("$res"),
                num("%math(%var($a) / %var($b) / 1000)"),
                num(format_df_number_u32(0xFFFF_FFFF).as_str()),
            ).push_op_stack(var("$res"));
            assert(template@ =~= t0 + int_op_blocks(op).unwrap());
        },
        IntOp::I64DivU => {
            template.pop_op_stack(var("$b")).pop_op_stack(var("$a")).push_op_stack(
                num("%math(%var($a) / %var($b) / 1000)"),
            );
            assert(template@ =~= t0 + int_op_blocks(op).unwrap());
        },
        IntOp::I64RemS | IntOp::I32RemU => compile_binary_operator(template, "%math(%var($a) % %var($b))", None),
        IntOp::I32RemS => {
            sign_extend_call(template, 32, 32);
            template.pop_op_stack(var("$b"));
            sign_extend_call(template, 32, 32);
            template.pop_op_stack(var("$a")).push_op_stack(num("%math(%var($a) % %var($b))"));
            assert(template@ =~= t0 + int_op_blocks(op).unwrap());
        },
        IntOp::I64And | IntOp::I32And => compile_bitwise_operator(template, "&", None),
        IntOp::I64Or | IntOp::I32Or => compile_bitwise_operator(template, "|", None),
        IntOp::I64Xor => compile_bitwise_operator(template, "^", None),
        IntOp::I32Xor => compile_bitwise_operator(template, "^", Some(u32max)),
        IntOp::I64Shl => compile_bitwise_operator(template, "<<", None),
        IntOp::I32Shl => compile_shift32(template, "<<", true),
        IntOp::I64ShrS => compile_bitwise_operator(template, ">>", None),
        IntOp::I32ShrS => compile_shift32(template, ">>", false),
        IntOp::I64ShrU => compile_bitwise_operator(template, ">>>", None),
        IntOp::I32ShrU => compile_shift32(template, ">>>", false),
        IntOp::I64Rotl => compile_rotate_operator(template, 64, false),
        IntOp::I64Rotr => compile_rotate_operator(template, 64, true),
        IntOp::I32Rotl => compile_rotate_operator(template, 32, false),
        IntOp::I32Rotr => compile_rotate_operator(template, 32, true),
        IntOp::I32WrapI64 => {
            template.pop_op_stack(var("$value")).set_var_bitwise(
                "&",
                var("$value"),
                var("$value"),
                num(format_df_number_u32(u32max).as_str()),
            ).push_op_stack(var("$value"));
            assert(template@ =~= t0 + int_op_blocks(op).unwrap());
        },
        IntOp::I64ExtendI32S => sign_extend_u64(template, 32, 64),
        IntOp::I64ExtendI32U => {
            assert(template@ =~= t0 + int_op_blocks(op).unwrap());
        },
        IntOp::I32Extend8S => sign_extend_u64(template, 8, 32),
        IntOp::I32Extend16S => sign_extend_u64(template, 16, 32),
        IntOp::I64Extend8S => sign_extend_u64(template, 8, 64),
        IntOp::I64Extend16S => sign_extend_u64(template, 16, 64),
        IntOp::I64Extend32S => sign_extend_u64(template, 32, 64),
    }
}

fn sign_extend_u64(template: &mut Template, from: u64, to: u64)
    ensures
        final(template)@ == old(template)@ + seq![sign_extend_v(from as nat, to as nat)],
{
    let ghost t0 = template@;
    let a = format_df_number_u64(from);
    let b = format_df_number_u64(to);
    let mut v = Vec::new();
    v.push(num(a.as_str()));
    v.push(num(b.as_str()));
    assert(crate::template::items_view(v@) =~= seq![num_v(df_text(false, from as nat)), num_v(df_text(false, to as nat))]);
    template.call_function(DF_FUNC_SIGN_EXTEND, Args::with(v));
    assert(template@ =~= t0 + seq![sign_extend_v(from as nat, to as nat)]);
}

/// Compiles a numeric operator into the current template. Floating-point
/// operators, `clz`, `ctz`, `popcnt` and `i64.rem_u` are refused with
/// `NotYetImplemented`.
pub fn compile_numeric_operator(compiler: &mut DFWasmCompiler, operator: WasmOp, _location: usize) -> (r: DFWasmResult<()>)
    requires
        wf(old(compiler)@),
        old(compiler).control_stack@.len() > 0,
        numeric_blocks(operator) is Some,
    ensures
        match numeric_blocks(operator).unwrap() {
            Ok(b) => final(compiler)@ == emit(old(compiler)@, b) && r is Ok,
            Err(e) => final(compiler)@ == old(compiler)@ && unit_res(r) == Err::<(), ErrV>(e),
        },
        wf(final(compiler)@),
        final(compiler).options == old(compiler).options,
        final(compiler).wasm == old(compiler).wasm,
{
    let ghost s0 = compiler@;
    let template = compiler.get_current_template();
    let ghost t0 = template@;
    match operator {
        WasmOp::I32Const { value } => {
            let formatted = format_df_number_i32(value);
            template.push_op_stack(num(formatted.as_str()));
        },
        WasmOp::I64Const { value } => {
            let formatted = format_df_number_i64(value);
            template.push_op_stack(num(formatted.as_str()));
        },
        WasmOp::Int { op } => {
            if !super::int_op_ok(op) {
                proof {
                    assert(compiler@.templates =~= s0.templates);
                }
                return Err(DFWasmError::NotYetImplemented(pending_op_name(op)));
            }
            compile_int_operator(template, op);
        },
        WasmOp::Float => {
            proof {
                assert(compiler@.templates =~= s0.templates);
            }
            return Err(DFWasmError::NotYetImplemented("floats are not supported yet"));
        },
        _ => {},
    }
    proof {
        let b = numeric_blocks(operator).unwrap()->Ok_0;
        assert(template@ =~= t0 + b);
        lemma_emit_wf(s0, b);
    }
    Ok(())
}

/// The DiamondFire expression for an arithmetic operator applied to the
/// variables `x` (the left operand) and `y`: a sum, difference or remainder
/// of their values; a product scaled by 1000 and a quotient scaled by 1/1000,
/// as DiamondFire numbers hold thousandths.
pub open spec fn arith_text(op: IntOp, x: Seq<char>, y: Seq<char>) -> Option<Seq<char>> {
    match op {
        IntOp::I32Add | IntOp::I64Add => Some(math_of_vars(x, "+"@, y)),
        IntOp::I32Sub | IntOp::I64Sub => Some(math_of_vars(x, "-"@, y)),
        IntOp::I32Mul => Some("%math(1000*%var("@ + x + ")*%var("@ + y + "))"@),
        IntOp::I64DivS | IntOp::I32DivU => Some("%math(%var("@ + x + ") / %var("@ + y + ") / 1000)"@),
        IntOp::I64RemS | IntOp::I32RemU => Some(math_of_vars(x, " % "@, y)),
        _ => None,
    }
}

/// Whether an arithmetic operator keeps its result to 32 bits.
pub open spec fn arith_masked(op: IntOp) -> bool {
    op == IntOp::I32Add || op == IntOp::I32Sub || op == IntOp::I32Mul
}

/// Arithmetic takes the operand pushed first as its left operand. The code of
/// an addition, subtraction, multiplication, division or remainder pops the
/// top of the operand stack into one variable and the value below it into
/// another, and pushes the operator applied to the second and the first: for
/// the 32-bit sum, difference and product kept to the low 32 bits in a
/// variable that is then pushed.
pub proof fn lemma_left_operand_is_pushed_first(op: IntOp)
    requires
        arith_text(op, Seq::empty(), Seq::empty()) is Some,
    ensures
        ({
            let b = int_op_blocks(op).unwrap();
            let x = popped_into(b[1]).unwrap();
            let y = popped_into(b[0]).unwrap();
            let e = arith_text(op, x, y).unwrap();
            &&& int_op_blocks(op) is Some
            &&& popped_into(b[0]) is Some && popped_into(b[1]) is Some && x != y
            &&& arith_masked(op) ==> b.len() == 4 && (pushed_item(b[3]) matches Some(res) && b[2] == bitwise_v(
                "&"@,
                res,
                num_v(e),
                num_v(df_text(false, 0xFFFF_FFFF)),
            ))
            &&& !arith_masked(op) ==> b.len() == 3 && pushed_item(b[2]) == Some(num_v(e))
        }),
{
    reveal_strlit("$a");
    reveal_strlit("$b");
    reveal_strlit("+");
    reveal_strlit("-");
    reveal_strlit(" % ");
    reveal_strlit("%math(%var(");
    reveal_strlit("%math(1000*%var(");
    reveal_strlit(")*%var(");
    reveal_strlit(") / %var(");
    reveal_strlit(") / 1000)");
    reveal_strlit("%var(");
    reveal_strlit(")");
    reveal_strlit("))");
    reveal_strlit("%math(%var($a)+%var($b))");
    reveal_strlit("%math(%var($a)-%var($b))");
    reveal_strlit("%math(%var($a) % %var($b))");
    reveal_strlit("%math(1000*%var($a)*%var($b))");
    reveal_strlit("%math(%var($a) / %var($b) / 1000)");
    assert("$a"@ != "$b"@) by {
        assert("$a"@[1] != "$b"@[1]);
    }
    let (a, bb) = ("$a"@, "$b"@);
    assert(math_of_vars(a, "+"@, bb) =~= "%math(%var($a)+%var($b))"@);
    assert(math_of_vars(a, "-"@, bb) =~= "%math(%var($a)-%var($b))"@);
    assert(math_of_vars(a, " % "@, bb) =~= "%math(%var($a) % %var($b))"@);
    assert("%math(1000*%var("@ + a + ")*%var("@ + bb + "))"@ =~= "%math(1000*%var($a)*%var($b))"@);
    assert("%math(%var("@ + a + ") / %var("@ + bb + ") / 1000)"@ =~= "%math(%var($a) / %var($b) / 1000)"@);
}

/// The relation that a WebAssembly comparison tests its first operand against
/// its second with: `eq`, `ne`, `lt`, `gt`, `le`, `ge`, signed or unsigned.
pub open spec fn comparison_relation(op: IntOp) -> Option<Seq<char>> {
    match op {
        IntOp::I64Eq | IntOp::I32Eq => Some("="@),
        IntOp::I64Ne | IntOp::I32Ne => Some("!="@),
        IntOp::I64LtS | IntOp::I32LtS | IntOp::I64LtU | IntOp::I32LtU => Some("<"@),
        IntOp::I64GtS | IntOp::I32GtS | IntOp::I64GtU | IntOp::I32GtU => Some(">"@),
        IntOp::I64LeS | IntOp::I32LeS | IntOp::I64LeU | IntOp::I32LeU => Some("<="@),
        IntOp::I64GeS | IntOp::I32GeS | IntOp::I64GeU | IntOp::I32GeU => Some(">="@),
        _ => None,
    }
}

/// The code that pushes 1 where `x` stands in `rel` to `y`, and 0 otherwise.
pub open spec fn push_truth(rel: Seq<char>, x: Seq<char>, y: Seq<char>) -> Seq<BlockV> {
    seq![
        BlockV::IfVariable { args: slotted(seq![var_v(x), var_v(y)]), action: rel, is_negated: false },
        open_v(),
        push_v(num_v(df_text(false, 1))),
        close_v(),
        BlockV::Else,
        open_v(),
        push_v(num_v(df_text(false, 0))),
        close_v(),
    ]
}

proof fn lemma_no_pops(b: Seq<BlockV>)
    requires
        forall|i: int| 0 <= i < b.len() ==> popped_into(#[trigger] b[i]) is None,
    ensures
        pops(b) == Seq::<Seq<char>>::empty(),
    decreases b.len(),
{
    if b.len() > 0 {
        lemma_no_pops(b.drop_last());
    }
}

proof fn lemma_comparison_v_shape(action: Seq<char>, sign_extend: bool, xor: bool)
    ensures
        pops(comparison_v(action, sign_extend, xor)) == seq!["$b"@, "$a"@],
        comparison_v(action, sign_extend, xor).len() >= 8,
        comparison_v(action, sign_extend, xor).subrange(
            comparison_v(action, sign_extend, xor).len() - 8,
            comparison_v(action, sign_extend, xor).len() as int,
        ) == push_truth(action, "$a"@, "$b"@),
{
    let se: Seq<BlockV> = if sign_extend { seq![sign_extend_v(32, 64)] } else { seq![] };
    let flip: Seq<BlockV> = if xor {
        seq![
            bitwise_v("^"@, var_v("$a"@), var_v("$a"@), num_v(df_signed(i64::MIN as int))),
            bitwise_v("^"@, var_v("$b"@), var_v("$b"@), num_v(df_signed(i64::MIN as int))),
        ]
    } else {
        seq![]
    };
    let tail = compare_push_v(action, var_v("$a"@), var_v("$b"@));
    assert(tail =~= push_truth(action, "$a"@, "$b"@));
    lemma_no_pops(se);
    lemma_no_pops(flip);
    lemma_no_pops(tail);
    lemma_pops_one(pop_v(var_v("$b"@)));
    lemma_pops_one(pop_v(var_v("$a"@)));
    let c = se + seq![pop_v(var_v("$b"@))] + se + seq![pop_v(var_v("$a"@))] + flip + tail;
    assert(c == comparison_v(action, sign_extend, xor));
    lemma_pops_append(se, seq![pop_v(var_v("$b"@))]);
    lemma_pops_append(se + seq![pop_v(var_v("$b"@))], se);
    lemma_pops_append(se + seq![pop_v(var_v("$b"@))] + se, seq![pop_v(var_v("$a"@))]);
    lemma_pops_append(se + seq![pop_v(var_v("$b"@))] + se + seq![pop_v(var_v("$a"@))], flip);
    lemma_pops_append(se + seq![pop_v(var_v("$b"@))] + se + seq![pop_v(var_v("$a"@))] + flip, tail);
    assert(pops(c) =~= seq!["$b"@, "$a"@]);
    assert(c.subrange(c.len() - 8, c.len() as int) =~= tail);
}

/// A comparison pushes 1 where the operand pushed first stands in the
/// comparison's relation to the operand pushed second, and 0 otherwise: its
/// code pops the second operand, then the first, into two different
/// variables, and ends by testing the first against the second with the
/// relation, pushing 1 where the test holds and 0 where it does not.
pub proof fn lemma_comparison_result(op: IntOp)
    requires
        comparison_relation(op) is Some,
    ensures
        ({
            let b = int_op_blocks(op).unwrap();
            let p = pops(b);
            &&& int_op_blocks(op) is Some
            &&& p.len() == 2 && p[0] != p[1]
            &&& b.len() >= 8
            &&& b.subrange(b.len() - 8, b.len() as int) == push_truth(comparison_relation(op).unwrap(), p[1], p[0])
        }),
{
    reveal_strlit("$a");
    reveal_strlit("$b");
    assert("$a"@ != "$b"@) by {
        assert("$a"@[1] != "$b"@[1]);
    }
    let b = int_op_blocks(op).unwrap();
    match op {
        IntOp::I64Eq | IntOp::I32Eq => lemma_comparison_v_shape("="@, false, false),
        IntOp::I64Ne | IntOp::I32Ne => lemma_comparison_v_shape("!="@, false, false),
        IntOp::I64LtS => lemma_comparison_v_shape("<"@, false, false),
        IntOp::I32LtS => lemma_comparison_v_shape("<"@, true, false),
        IntOp::I64GtS => lemma_comparison_v_shape(">"@, false, false),
        IntOp::I32GtS => lemma_comparison_v_shape(">"@, true, false),
        IntOp::I64LeS => lemma_comparison_v_shape("<="@, false, false),
        IntOp::I32LeS => lemma_comparison_v_shape("<="@, true, false),
        IntOp::I64GeS => lemma_comparison_v_shape(">="@, false, false),
        IntOp::I32GeS => lemma_comparison_v_shape(">="@, true, false),
        IntOp::I64GtU | IntOp::I32GtU => lemma_comparison_v_shape(">"@, false, true),
        IntOp::I64LtU | IntOp::I32LtU => lemma_comparison_v_shape("<"@, false, true),
        IntOp::I64LeU | IntOp::I32LeU => lemma_comparison_v_shape("<="@, false, true),
        IntOp::I64GeU | IntOp::I32GeU => lemma_comparison_v_shape(">="@, false, true),
        _ => {},
    }
}

/// The DiamondFire bitwise operation of a WebAssembly bitwise operator or
/// shift: `and`, `or`, `xor`, `shl`, and the signed and unsigned `shr`.
pub open spec fn bit_symbol(op: IntOp) -> Option<Seq<char>> {
    match op {
        IntOp::I64And | IntOp::I32And => Some("&"@),
        IntOp::I64Or | IntOp::I32Or => Some("|"@),
        IntOp::I64Xor | IntOp::I32Xor => Some("^"@),
        IntOp::I64Shl | IntOp::I32Shl => Some("<<"@),
        IntOp::I64ShrS | IntOp::I32ShrS => Some(">>"@),
        IntOp::I64ShrU | IntOp::I32ShrU => Some(">>>"@),
        _ => None,
    }
}

/// Whether an operator is a 32-bit shift, whose count WebAssembly takes
/// modulo 32.
pub open spec fn is_shift32(op: IntOp) -> bool {
    op == IntOp::I32Shl || op == IntOp::I32ShrS || op == IntOp::I32ShrU
}

/// Bitwise operators and shifts take the operand pushed first as their left
/// operand (the value shifted): their code pops the top of the operand stack
/// into one variable and the value below it into another, applies the
/// operation to the second and the first into a result variable, and ends by
/// pushing that variable. A 32-bit shift first keeps its count to its low five
/// bits.
pub proof fn lemma_bitwise_operands(op: IntOp)
    requires
        bit_symbol(op) is Some,
    ensures
        ({
            let b = int_op_blocks(op).unwrap();
            let x = popped_into(b[1]).unwrap();
            let y = popped_into(b[0]).unwrap();
            &&& int_op_blocks(op) is Some
            &&& b.len() >= 4
            &&& popped_into(b[0]) is Some && popped_into(b[1]) is Some && x != y
            &&& pushed_item(b.last()) matches Some(ItemV::Variable { name: r, .. }) && exists|k: int|
                2 <= k < b.len() - 1 && #[trigger] b[k] == bitwise_v(
                    bit_symbol(op).unwrap(),
                    var_v(r),
                    var_v(x),
                    var_v(y),
                )
            &&& is_shift32(op) ==> b[2] == bitwise_v("&"@, var_v(y), var_v(y), num_v(df_text(false, 31)))
        }),
{
    reveal_strlit("$a");
    reveal_strlit("$b");
    assert("$a"@ != "$b"@) by {
        assert("$a"@[1] != "$b"@[1]);
    }
    let b = int_op_blocks(op).unwrap();
    if is_shift32(op) {
        assert(b[3] == bitwise_v(bit_symbol(op).unwrap(), var_v("$result"@), var_v("$a"@), var_v("$b"@)));
    } else {
        assert(b[2] == bitwise_v(bit_symbol(op).unwrap(), var_v("$res"@), var_v("$a"@), var_v("$b"@)));
    }
}

/// `eqz` pushes 1 where its operand is zero and 0 otherwise: its code pops the
/// operand into a variable, tests that variable to equal 0, and pushes 1 where
/// the test holds and 0 in the else branch.
pub proof fn lemma_eqz_tests_zero(op: IntOp)
    requires
        op == IntOp::I32Eqz || op == IntOp::I64Eqz,
    ensures
        ({
            let b = int_op_blocks(op).unwrap();
            let v = popped_into(b[0]).unwrap();
            &&& int_op_blocks(op) is Some
            &&& b.len() == 9
            &&& popped_into(b[0]) is Some
            &&& b[1] == BlockV::IfVariable {
                args: slotted(seq![var_v(v), num_v("0"@)]),
                action: "="@,
                is_negated: false,
            }
            &&& b[2] == open_v() && b[4] == close_v()
            &&& pushed_item(b[3]) == Some(num_v(df_text(false, 1)))
            &&& b[5] == BlockV::Else
            &&& b[6] == open_v() && b[8] == close_v()
            &&& pushed_item(b[7]) == Some(num_v(df_text(false, 0)))
        }),
{
}

/// The width of a WebAssembly rotation and whether it turns right.
pub open spec fn rotate_width(op: IntOp) -> Option<(nat, bool)> {
    match op {
        IntOp::I32Rotl => Some((32, false)),
        IntOp::I32Rotr => Some((32, true)),
        IntOp::I64Rotl => Some((64, false)),
        IntOp::I64Rotr => Some((64, true)),
        _ => None,
    }
}

/// A rotation of `n` bits turns its first operand by its second: its code pops
/// the count, then the value, into two different variables, keeps the count
/// below `n`, shifts the value by the count in the rotation's direction (left
/// for `rotl`, right without sign for `rotr`) and by `n` minus the count the
/// other way, joins the two with `|`, keeps a 32-bit result to 32 bits, and
/// pushes it.
pub proof fn lemma_rotate_shifts(op: IntOp)
    requires
        rotate_width(op) is Some,
    ensures
        ({
            let n = rotate_width(op).unwrap().0;
            let right = rotate_width(op).unwrap().1;
            let toward: Seq<char> = if right { ">>>"@ } else { "<<"@ };
            let back: Seq<char> = if right { "<<"@ } else { ">>>"@ };
            let b = int_op_blocks(op).unwrap();
            let x = popped_into(b[1]).unwrap();
            let y = popped_into(b[0]).unwrap();
            &&& int_op_blocks(op) is Some
            &&& b.len() == if n == 32 { 8int } else { 7int }
            &&& popped_into(b[0]) is Some && popped_into(b[1]) is Some && x != y
            &&& b[2] == bitwise_v("&"@, var_v(y), var_v(y), num_v(df_text(false, (n - 1) as nat)))
            &&& pushed_item(b.last()) matches Some(ItemV::Variable { name: res, .. }) && exists|
                l: Seq<char>,
                r: Seq<char>,
            |
                #![trigger var_v(l), var_v(r)]
                l != r && b[3] == bitwise_v(toward, var_v(l), var_v(x), var_v(y)) && b[4] == bitwise_v(
                    back,
                    var_v(r),
                    var_v(x),
                    num_v("%math(0.0"@ + crate::text::dec(n) + " - %var("@ + y + "))"@),
                ) && b[5] == bitwise_v("|"@, var_v(res), var_v(l), var_v(r)) && (n == 32 ==> b[6]
                    == bitwise_v("&"@, var_v(res), var_v(res), num_v(df_text(false, 0xFFFF_FFFF))))
        }),
{
    reveal_strlit("$a");
    reveal_strlit("$b");
    reveal_strlit("$lhs");
    reveal_strlit("$rhs");
    reveal_strlit(" - %var($b))");
    reveal_strlit(" - %var(");
    reveal_strlit("))");
    assert("$a"@ != "$b"@) by {
        assert("$a"@[1] != "$b"@[1]);
    }
    assert("$lhs"@ != "$rhs"@) by {
        assert("$lhs"@[1] != "$rhs"@[1]);
    }
    let n = rotate_width(op).unwrap().0;
    assert(" - %var("@ + "$b"@ + "))"@ =~= " - %var($b))"@);
    assert(("%math(0.0"@ + crate::text::dec(n) + " - %var("@ + "$b"@ + "))"@) =~= rotate_amount(n));
    let (l, r) = ("$lhs"@, "$rhs"@);
    assert(var_v(l) == var_v("$lhs"@) && var_v(r) == var_v("$rhs"@));
}

/// The width that a sign extension reads its value at, and the width of its
/// result.
pub open spec fn extend_widths(op: IntOp) -> Option<(nat, nat)> {
    match op {
        IntOp::I64ExtendI32S | IntOp::I64Extend32S => Some((32, 64)),
        IntOp::I32Extend8S => Some((8, 32)),
        IntOp::I32Extend16S => Some((16, 32)),
        IntOp::I64Extend8S => Some((8, 64)),
        IntOp::I64Extend16S => Some((16, 64)),
        _ => None,
    }
}

/// Width conversions: a sign extension from `m` to `n` bits calls the
/// sign-extension function with `m` and `n`; `i64.extend_i32_u` leaves the
/// operand as it is; `i32.wrap_i64` pops the operand into a variable, keeps
/// its low 32 bits and pushes it back.
pub proof fn lemma_width_conversions(op: IntOp)
    ensures
        extend_widths(op) matches Some((m, n)) ==> int_op_blocks(op) == Some(
            seq![
                BlockV::CallFunction {
                    args: slotted(seq![num_v(df_text(false, m)), num_v(df_text(false, n))]),
                    func: DF_FUNC_SIGN_EXTEND@,
                },
            ],
        ),
        op == IntOp::I64ExtendI32U ==> int_op_blocks(op) == Some(Seq::<BlockV>::empty()),
        op == IntOp::I32WrapI64 ==> ({
            let b = int_op_blocks(op).unwrap();
            let v = popped_into(b[0]).unwrap();
            &&& int_op_blocks(op) is Some
            &&& b.len() == 3
            &&& popped_into(b[0]) is Some
            &&& b[1] == bitwise_v("&"@, var_v(v), var_v(v), num_v(df_text(false, 0xFFFF_FFFF)))
            &&& pushed_item(b[2]) == Some(var_v(v))
        }),
{
}

} // verus!
