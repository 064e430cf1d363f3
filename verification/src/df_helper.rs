//! DiamondFire names and number text.
//!
//! DiamondFire numbers are fixed-point values with three decimal places, so an
//! integer `v` is written as `v / 1000` in decimal: 1 is `0.001`, 1000 is `1`
//! and 820 is `0.82`.
use vstd::prelude::*;
use crate::template::{Args, BlockV, Item, ItemV, Template, VariableScope, close_v, open_v, slotted};
use crate::names::{all_digits, digits_value};
use crate::text::{dec, dec_chars, digit_char, pad_chars_left, pad_left, push_chars, push_str, string_of};

verus! {

/// `s` without its trailing `0` characters.
pub open spec fn trim_zeros(s: Seq<char>) -> Seq<char>
    decreases s.len(),
{
    if s.len() > 0 && s.last() == '0' {
        trim_zeros(s.drop_last())
    } else {
        s
    }
}

/// The fractional digits of a thousandth count `f`: three digits, zero padded,
/// with the trailing zeros removed.
pub open spec fn frac_digits(f: nat) -> Seq<char> {
    trim_zeros(pad_left(dec(f), '0', 3))
}

/// The DiamondFire text of a fixed-point value with magnitude `mag` thousandths.
pub open spec fn df_text(negative: bool, mag: nat) -> Seq<char> {
    let sign: Seq<char> = if negative { seq!['-'] } else { seq![] };
    let frac = frac_digits(mag % 1000);
    if frac.len() == 0 {
        sign + dec(mag / 1000)
    } else {
        sign + dec(mag / 1000) + seq!['.'] + frac
    }
}

/// The DiamondFire text of a signed value.
pub open spec fn df_signed(v: int) -> Seq<char> {
    if v < 0 {
        df_text(true, (-v) as nat)
    } else {
        df_text(false, v as nat)
    }
}

fn trim_trailing_zeros(s: &mut Vec<char>)
    ensures
        final(s)@ == trim_zeros(old(s)@),
{
    while s.len() > 0 && s[s.len() - 1] == '0'
        invariant
            trim_zeros(s@) == trim_zeros(old(s)@),
        decreases s.len(),
    {
        s.pop();
    }
}

/// Text for a sign and a magnitude.
fn df_text_of(negative: bool, mag: u64) -> (r: String)
    ensures
        r@ == df_text(negative, mag as nat),
{
    let int_part = mag / 1000;
    let frac_part = mag % 1000;
    let mut out: Vec<char> = Vec::new();
    if negative {
        out.push('-');
    }
    let d = dec_chars(frac_part);
    let mut frac = pad_chars_left(&d, '0', 3);
    trim_trailing_zeros(&mut frac);
    let ip = dec_chars(int_part);
    push_chars(&mut out, &ip);
    if frac.len() > 0 {
        out.push('.');
        push_chars(&mut out, &frac);
    }
    proof {
        let sign: Seq<char> = if negative { seq!['-'] } else { seq![] };
        if frac@.len() == 0 {
            assert(out@ =~= sign + dec(mag as nat / 1000));
        } else {
            assert(out@ =~= sign + dec(mag as nat / 1000) + seq!['.'] + frac@);
        }
    }
    string_of(&out)
}

/// Formats an `i64` as a DiamondFire number: the value divided by 1000, with a
/// decimal point only where the thousandths are not zero, and trailing zeros
/// of the fraction removed.
pub fn format_df_number_i64(value: i64) -> (r: String)
    ensures
        r@ == df_signed(value as int),
{
    let mag: u64 = if value < 0 {
        if value == i64::MIN {
            9223372036854775808u64
        } else {
            (-value) as u64
        }
    } else {
        value as u64
    };
    df_text_of(value < 0, mag)
}

/// Formats an `i32` as a DiamondFire number. The 32 bits are read as an
/// unsigned value (they fill the low half of a zeroed 64-bit word), so a
/// negative `i32` is written as its two's-complement pattern.
pub fn format_df_number_i32(value: i32) -> (r: String)
    ensures
        r@ == df_text(false, (value as u32) as nat),
{
    df_text_of(false, (value as u32) as u64)
}

/// Formats a `u64` as a DiamondFire number.
pub fn format_df_number_u64(value: u64) -> (r: String)
    ensures
        r@ == df_text(false, value as nat),
{
    df_text_of(false, value)
}

/// Formats a `u32` as a DiamondFire number.
pub fn format_df_number_u32(value: u32) -> (r: String)
    ensures
        r@ == df_text(false, value as nat),
{
    df_text_of(false, value as u64)
}

/// Formats a `usize` as a DiamondFire number.
pub fn format_df_number_usize(value: usize) -> (r: String)
    ensures
        r@ == df_text(false, value as nat),
{
    df_text_of(false, value as u64)
}

// ---------------------------------------------------------------------------
// Reading number text back
// ---------------------------------------------------------------------------

/// The thousandths that `k` fraction digits are worth per unit of their value.
pub open spec fn fraction_scale(k: int) -> int {
    if k == 1 {
        100
    } else if k == 2 {
        10
    } else {
        1
    }
}

/// The thousandths that `s` denotes where it is digits, a point and exactly `k`
/// digits.
pub open spec fn pointed_value(s: Seq<char>, k: int) -> Option<int> {
    let p = s.len() - k - 1;
    if p > 0 && s[p] == '.' && all_digits(s.take(p)) && all_digits(s.skip(p + 1)) {
        Some(digits_value(s.take(p)) * 1000 + digits_value(s.skip(p + 1)) * fraction_scale(k))
    } else {
        None
    }
}

/// The thousandths that an unsigned number text denotes: digits, optionally
/// followed by a point and one to three digits.
pub open spec fn unsigned_number_value(s: Seq<char>) -> Option<int> {
    if s.len() > 0 && all_digits(s) {
        Some(digits_value(s) as int * 1000)
    } else if pointed_value(s, 1) is Some {
        pointed_value(s, 1)
    } else if pointed_value(s, 2) is Some {
        pointed_value(s, 2)
    } else {
        pointed_value(s, 3)
    }
}

/// The value, in thousandths, that a DiamondFire number text denotes, where it
/// is one: an optional minus sign before an unsigned number text.
pub open spec fn number_value(s: Seq<char>) -> Option<int> {
    if s.len() > 0 && s[0] == '-' {
        match unsigned_number_value(s.drop_first()) {
            Some(m) => Some(-m),
            None => None,
        }
    } else {
        unsigned_number_value(s)
    }
}

proof fn lemma_digits_value_one(a: char)
    requires
        '0' <= a <= '9',
    ensures
        digits_value(seq![a]) == a as int - 48,
{
    assert(seq![a].drop_last() == Seq::<char>::empty());
    assert(digits_value(Seq::<char>::empty()) == 0);
}

proof fn lemma_digits_value_two(a: char, b: char)
    requires
        '0' <= a <= '9',
        '0' <= b <= '9',
    ensures
        digits_value(seq![a, b]) == (a as int - 48) * 10 + (b as int - 48),
{
    assert(seq![a, b].drop_last() == seq![a]);
    lemma_digits_value_one(a);
}

proof fn lemma_digits_value_three(a: char, b: char, c: char)
    requires
        '0' <= a <= '9',
        '0' <= b <= '9',
        '0' <= c <= '9',
    ensures
        digits_value(seq![a, b, c]) == ((a as int - 48) * 10 + (b as int - 48)) * 10 + (c as int - 48),
{
    assert(seq![a, b, c].drop_last() == seq![a, b]);
    lemma_digits_value_two(a, b);
}

pub proof fn lemma_dec_digits(n: nat)
    ensures
        dec(n).len() > 0,
        all_digits(dec(n)),
        digits_value(dec(n)) == n,
    decreases n,
{
    let d = dec(n);
    if n < 10 {
        assert(d == seq![digit_char(n)]);
        lemma_digits_value_one(digit_char(n));
    } else {
        lemma_dec_digits(n / 10);
        assert(d == dec(n / 10).push(digit_char(n % 10)));
        assert(d.drop_last() == dec(n / 10));
        assert(d.last() == digit_char(n % 10));
        assert forall|i: int| 0 <= i < d.len() implies '0' <= #[trigger] d[i] <= '9' by {
            if i < d.len() - 1 {
                assert(d[i] == dec(n / 10)[i]);
            }
        }
    }
}

proof fn lemma_dec_short(f: nat)
    ensures
        f < 10 ==> dec(f).len() == 1,
        f < 100 ==> dec(f).len() <= 2,
        f < 1000 ==> dec(f).len() <= 3,
    decreases f,
{
    if f >= 10 {
        lemma_dec_short(f / 10);
        assert(dec(f).len() == dec(f / 10).len() + 1);
    }
}

/// The fraction digits of `f` thousandths are empty when `f` is zero, and
/// otherwise one to three digits worth `f` at their scale.
proof fn lemma_frac_digits(f: nat)
    requires
        f < 1000,
    ensures
        f == 0 ==> frac_digits(f).len() == 0,
        f != 0 ==> {
            let t = frac_digits(f);
            &&& 1 <= t.len() <= 3
            &&& all_digits(t)
            &&& digits_value(t) * fraction_scale(t.len() as int) == f
        },
{
    lemma_dec_short(f);
    lemma_dec_digits(f);
    let d = dec(f);
    let p = pad_left(d, '0', 3);
    assert(p.len() == 3);
    assert forall|i: int| 0 <= i < p.len() implies '0' <= #[trigger] p[i] <= '9' by {
        if i >= 3 - d.len() {
            assert(p[i] == d[i - (3 - d.len())]);
        }
    }
    let (a, b, c) = (p[0], p[1], p[2]);
    assert(p == seq![a, b, c]);
    lemma_digits_value_three(a, b, c);
    assert(digits_value(p) == f) by {
        if d.len() == 1 {
            assert(d == seq![d[0]]);
            lemma_digits_value_one(d[0]);
            assert(p[0] == '0' && p[1] == '0' && p[2] == d[0]);
        } else if d.len() == 2 {
            assert(d == seq![d[0], d[1]]);
            lemma_digits_value_two(d[0], d[1]);
            assert(p[0] == '0' && p[1] == d[0] && p[2] == d[1]);
        } else {
            assert(p == d);
        }
    }
    reveal_with_fuel(trim_zeros, 4);
    assert(p.drop_last() == seq![a, b]);
    assert(seq![a, b].drop_last() == seq![a]);
    assert(seq![a].drop_last() == Seq::<char>::empty());
    let t = frac_digits(f);
    assert(t == trim_zeros(p));
    if c != '0' {
        assert(t == p);
    } else if b != '0' {
        assert(t == seq![a, b]);
        lemma_digits_value_two(a, b);
    } else if a != '0' {
        assert(t == seq![a]);
        lemma_digits_value_one(a);
    } else {
        assert(t.len() == 0);
    }
    if t.len() > 0 {
        assert forall|i: int| 0 <= i < t.len() implies '0' <= #[trigger] t[i] <= '9' by {
            assert(t[i] == p[i]);
        }
    }
}

/// The text of an unsigned value of `mag` thousandths reads back as `mag`.
proof fn lemma_unsigned_text_value(mag: nat)
    ensures
        unsigned_number_value(df_text(false, mag)) == Some(mag as int),
        df_text(false, mag).len() > 0,
        df_text(false, mag)[0] != '-',
{
    let ip = dec(mag / 1000);
    let f = mag % 1000;
    lemma_dec_digits(mag / 1000);
    lemma_frac_digits(f);
    let t = frac_digits(f);
    let s = df_text(false, mag);
    assert('0' <= ip[0] <= '9');
    if t.len() == 0 {
        assert(s == ip);
    } else {
        let k = t.len() as int;
        assert(s == ip + seq!['.'] + t);
        let p = s.len() - k - 1;
        assert(p == ip.len());
        assert(s.take(p) == ip);
        assert(s.skip(p + 1) == t);
        assert(s[p] == '.');
        assert(!all_digits(s));
        assert(pointed_value(s, k) == Some(mag as int));
        if k >= 2 {
            assert(s[s.len() - 2] == t[k - 2]);
            assert(pointed_value(s, 1) is None);
        }
        if k == 3 {
            assert(s[s.len() - 3] == t[0]);
            assert(pointed_value(s, 2) is None);
        }
    }
}

/// DiamondFire numbers are fixed-point values with a scale of 1/1000: the text
/// that this library writes for a value `v` reads back, as a decimal number, as
/// `v` thousandths.
pub proof fn lemma_number_text_value(v: int)
    ensures
        number_value(df_signed(v)) == Some(v),
{
    if v < 0 {
        let m = (-v) as nat;
        lemma_unsigned_text_value(m);
        let s = df_signed(v);
        assert(s == seq!['-'] + df_text(false, m));
        assert(s.drop_first() == df_text(false, m));
    } else {
        lemma_unsigned_text_value(v as nat);
    }
}

proof fn lemma_trim_zeros_last(s: Seq<char>)
    ensures
        trim_zeros(s).len() <= s.len(),
        trim_zeros(s) == s.take(trim_zeros(s).len() as int),
        trim_zeros(s).len() > 0 ==> trim_zeros(s).last() != '0',
    decreases s.len(),
{
    if s.len() > 0 && s.last() == '0' {
        lemma_trim_zeros_last(s.drop_last());
        let t = trim_zeros(s.drop_last());
        assert(t == s.drop_last().take(t.len() as int));
        assert(s.drop_last().take(t.len() as int) =~= s.take(t.len() as int));
    } else {
        assert(s.take(s.len() as int) =~= s);
    }
}

proof fn lemma_dec_first(n: nat)
    ensures
        dec(n).len() > 0,
        n > 0 ==> dec(n)[0] != '0',
    decreases n,
{
    if n >= 10 {
        lemma_dec_first(n / 10);
        assert(dec(n)[0] == dec(n / 10)[0]);
    }
}

/// The shape of DiamondFire number text: the whole thousands in decimal
/// digits without leading zeros, then, unless the thousandths are zero, a
/// point and one to three digits with no trailing zero; a minus sign first
/// for a negative value. (1 is `0.001`, 1000 is `1`, 820 is `0.82`.)
pub proof fn lemma_number_text_shape(v: int)
    ensures
        ({
            let m: nat = if v < 0 { (-v) as nat } else { v as nat };
            let ip = dec(m / 1000);
            let fp = frac_digits(m % 1000);
            &&& df_signed(v) == (if v < 0 { seq!['-'] } else { Seq::empty() }) + ip + (if fp.len() == 0 {
                Seq::empty()
            } else {
                seq!['.'] + fp
            })
            &&& ip.len() > 0 && all_digits(ip)
            &&& ip.len() > 1 ==> ip[0] != '0'
            &&& (fp.len() == 0 <==> m % 1000 == 0)
            &&& fp.len() <= 3 && all_digits(fp)
            &&& fp.len() > 0 ==> fp.last() != '0'
        }),
{
    let m: nat = if v < 0 { (-v) as nat } else { v as nat };
    let ip = dec(m / 1000);
    let fp = frac_digits(m % 1000);
    lemma_dec_digits(m / 1000);
    lemma_dec_first(m / 1000);
    lemma_dec_short(0);
    if m / 1000 < 10 {
        lemma_dec_short(m / 1000);
    }
    lemma_frac_digits(m % 1000);
    lemma_trim_zeros_last(pad_left(dec(m % 1000), '0', 3));
    let sign: Seq<char> = if v < 0 { seq!['-'] } else { Seq::empty() };
    if fp.len() == 0 {
        assert(df_signed(v) =~= sign + ip + Seq::<char>::empty());
    } else {
        assert(df_signed(v) =~= sign + ip + (seq!['.'] + fp));
    }
}

// ---------------------------------------------------------------------------
// Names
// ---------------------------------------------------------------------------

/// `wasm.<module>.<kind>_<index>`, where the module is `module` without a name.
pub open spec fn scoped_name(module_name: Option<Seq<char>>, kind: Seq<char>, index: nat) -> Seq<char> {
    let m = match module_name {
        Some(n) => n,
        None => "module"@,
    };
    "wasm."@ + m + "."@ + kind + "_"@ + dec(index)
}

fn scoped(index: usize, module_name: Option<&str>, kind: &str) -> (r: String)
    ensures
        r@ == scoped_name(
            match module_name {
                Some(n) => Some(n@),
                None => None,
            },
            kind@,
            index as nat,
        ),
{
    let mut out: Vec<char> = Vec::new();
    push_str(&mut out, "wasm.");
    match module_name {
        Some(name) => push_str(&mut out, name),
        None => push_str(&mut out, "module"),
    }
    push_str(&mut out, ".");
    push_str(&mut out, kind);
    push_str(&mut out, "_");
    let d = dec_chars(index as u64);
    push_chars(&mut out, &d);
    string_of(&out)
}

/// The view of an optional name.
pub open spec fn opt_name(module_name: Option<&str>) -> Option<Seq<char>> {
    match module_name {
        Some(n) => Some(n@),
        None => None,
    }
}

/// The name of the function template of a function: `wasm.<module>.func_<index>`.
pub fn generate_function_name(index: usize, module_name: Option<&str>) -> (r: String)
    ensures
        r@ == scoped_name(opt_name(module_name), "func"@, index as nat),
{
    scoped(index, module_name, "func")
}

/// The name of the variable that holds a table: `wasm.$table_<index>`.
pub fn generate_table_name(index: usize) -> (r: String)
    ensures
        r@ == "wasm.$table_"@ + dec(index as nat),
{
    let mut out: Vec<char> = Vec::new();
    push_str(&mut out, "wasm.$table_");
    let d = dec_chars(index as u64);
    push_chars(&mut out, &d);
    string_of(&out)
}

/// The name of the function template of a block: `wasm.<module>.block_<index>`.
pub fn generate_block_name(index: usize, module_name: Option<&str>) -> (r: String)
    ensures
        r@ == scoped_name(opt_name(module_name), "block"@, index as nat),
{
    scoped(index, module_name, "block")
}

/// The name of the function template of a loop: `wasm.<module>.loop_<index>`.
pub fn generate_loop_name(index: usize, module_name: Option<&str>) -> (r: String)
    ensures
        r@ == scoped_name(opt_name(module_name), "loop"@, index as nat),
{
    scoped(index, module_name, "loop")
}

/// The name of the function template of a conditional: `wasm.<module>.if_<index>`.
pub fn generate_conditional_name(index: usize, module_name: Option<&str>) -> (r: String)
    ensures
        r@ == scoped_name(opt_name(module_name), "if"@, index as nat),
{
    scoped(index, module_name, "if")
}

/// The variable of a local in the current stack frame.
pub open spec fn local_name(local_index: nat) -> Seq<char> {
    "wasm.$frame%var("@ + DF_VAR_CURRENT_STACK_FRAME@ + ")_local_"@ + dec(local_index)
}

/// The variable of a local: `wasm.$frame%var(wasm.$current_stack_frame)_local_<index>`.
pub fn get_local_name(local_index: u32) -> (r: String)
    ensures
        r@ == local_name(local_index as nat),
{
    let mut out: Vec<char> = Vec::new();
    push_str(&mut out, "wasm.$frame%var(");
    push_str(&mut out, DF_VAR_CURRENT_STACK_FRAME);
    push_str(&mut out, ")_local_");
    let d = dec_chars(local_index as u64);
    push_chars(&mut out, &d);
    string_of(&out)
}

/// The kinds of function templates the compiler names after an index.
pub open spec fn is_name_kind(kind: Seq<char>) -> bool {
    kind == "func"@ || kind == "block"@ || kind == "loop"@ || kind == "if"@
}

proof fn lemma_dec_injective(i: nat, j: nat)
    requires
        dec(i) == dec(j),
    ensures
        i == j,
{
    lemma_dec_digits(i);
    lemma_dec_digits(j);
}

/// Generated names are unique: within one module, the names of functions,
/// blocks, loops and conditionals differ wherever their kinds or their
/// indices differ.
pub proof fn lemma_scoped_names_unique(
    module_name: Option<Seq<char>>,
    kind_a: Seq<char>,
    i: nat,
    kind_b: Seq<char>,
    j: nat,
)
    requires
        is_name_kind(kind_a),
        is_name_kind(kind_b),
        kind_a != kind_b || i != j,
    ensures
        scoped_name(module_name, kind_a, i) != scoped_name(module_name, kind_b, j),
{
    reveal_strlit("func");
    reveal_strlit("block");
    reveal_strlit("loop");
    reveal_strlit("if");
    reveal_strlit("wasm.");
    reveal_strlit("module");
    reveal_strlit(".");
    reveal_strlit("_");
    let m = match module_name {
        Some(n) => n,
        None => "module"@,
    };
    let pre = "wasm."@ + m + "."@;
    let a = scoped_name(module_name, kind_a, i);
    let b = scoped_name(module_name, kind_b, j);
    assert(a == pre + kind_a + "_"@ + dec(i));
    assert(b == pre + kind_b + "_"@ + dec(j));
    if kind_a != kind_b {
        assert(a[pre.len() as int] == kind_a[0]);
        assert(b[pre.len() as int] == kind_b[0]);
    } else if a == b {
        let n = pre.len() + kind_a.len() + 1;
        assert(a.skip(n as int) == dec(i));
        assert(b.skip(n as int) == dec(j));
        lemma_dec_injective(i, j);
    }
}

/// The module part of a generated name: the module name, or `module`.
pub open spec fn module_text(module_name: Option<Seq<char>>) -> Seq<char> {
    match module_name {
        Some(n) => n,
        None => "module"@,
    }
}

/// The position of the underscore before the index in a name that ends in an
/// underscore and `d`: where two such names are equal, their digits are.
proof fn lemma_same_digits(p1: Seq<char>, d1: Seq<char>, p2: Seq<char>, d2: Seq<char>)
    requires
        all_digits(d1),
        all_digits(d2),
        p1 + seq!['_'] + d1 == p2 + seq!['_'] + d2,
    ensures
        d1 == d2,
        p1 == p2,
{
    let a = p1 + seq!['_'] + d1;
    let b = p2 + seq!['_'] + d2;
    let len = a.len() as int;
    if d1.len() < d2.len() {
        let p = len - d1.len() - 1;
        assert(a[p] == '_');
        assert(b[p] == d2[p - (len - d2.len())]);
    } else if d2.len() < d1.len() {
        let p = len - d2.len() - 1;
        assert(b[p] == '_');
        assert(a[p] == d1[p - (len - d1.len())]);
    }
    assert(d1 =~= a.skip(len - d1.len()));
    assert(d2 =~= b.skip(len - d2.len()));
    assert(p1 =~= a.take(p1.len() as int));
    assert(p2 =~= b.take(p2.len() as int));
}

/// Generated names never meet, across modules too: two names of functions,
/// blocks, loops or conditionals are equal only where their modules (with
/// `module` standing for a module without a name), their kinds and their
/// indices are.
pub proof fn lemma_scoped_names_distinct(
    module_a: Option<Seq<char>>,
    kind_a: Seq<char>,
    i: nat,
    module_b: Option<Seq<char>>,
    kind_b: Seq<char>,
    j: nat,
)
    requires
        is_name_kind(kind_a),
        is_name_kind(kind_b),
        scoped_name(module_a, kind_a, i) == scoped_name(module_b, kind_b, j),
    ensures
        module_text(module_a) == module_text(module_b),
        kind_a == kind_b,
        i == j,
{
    reveal_strlit("func");
    reveal_strlit("block");
    reveal_strlit("loop");
    reveal_strlit("if");
    reveal_strlit("wasm.");
    reveal_strlit(".");
    reveal_strlit("_");
    let pa = "wasm."@ + module_text(module_a) + "."@ + kind_a;
    let pb = "wasm."@ + module_text(module_b) + "."@ + kind_b;
    lemma_dec_digits(i);
    lemma_dec_digits(j);
    assert(scoped_name(module_a, kind_a, i) =~= pa + seq!['_'] + dec(i));
    assert(scoped_name(module_b, kind_b, j) =~= pb + seq!['_'] + dec(j));
    lemma_same_digits(pa, dec(i), pb, dec(j));
    lemma_dec_injective(i, j);
    // The kinds end in different letters: `c`, `k`, `p` and `f`.
    assert(pa.last() == kind_a.last());
    assert(pb.last() == kind_b.last());
    let qa = "wasm."@ + module_text(module_a) + "."@;
    let qb = "wasm."@ + module_text(module_b) + "."@;
    assert(qa =~= pa.take(qa.len() as int));
    assert(qb =~= pb.take(qb.len() as int));
    assert(kind_a =~= pa.skip(qa.len() as int));
    assert(kind_b =~= pb.skip(qb.len() as int));
    assert(module_text(module_a) =~= qa.subrange(5, qa.len() - 1));
    assert(module_text(module_b) =~= qb.subrange(5, qb.len() - 1));
}

/// Table variables are unique: distinct table indices give distinct names.
pub proof fn lemma_table_names_unique(i: nat, j: nat)
    requires
        i != j,
    ensures
        "wasm.$table_"@ + dec(i) != "wasm.$table_"@ + dec(j),
{
    let pre = "wasm.$table_"@;
    if pre + dec(i) == pre + dec(j) {
        assert((pre + dec(i)).skip(pre.len() as int) == dec(i));
        assert((pre + dec(j)).skip(pre.len() as int) == dec(j));
        lemma_dec_injective(i, j);
    }
}

// ---------------------------------------------------------------------------
// Items
// ---------------------------------------------------------------------------

/// A game variable.
pub open spec fn var_v(name: Seq<char>) -> ItemV {
    ItemV::Variable { name, scope: VariableScope::Game }
}

/// A number.
pub open spec fn num_v(text: Seq<char>) -> ItemV {
    ItemV::Number { name: text }
}

/// A string.
pub open spec fn str_v(text: Seq<char>) -> ItemV {
    ItemV::String { name: text }
}

/// A game variable with the given name.
pub fn var(name: &str) -> (r: Item)
    ensures
        r@ == var_v(name@),
{
    Item::var(name)
}

/// A number item with the given text. The text is used as it is: it is not
/// converted to a DiamondFire number.
pub fn num(name: &str) -> (r: Item)
    ensures
        r@ == num_v(name@),
{
    Item::num(name)
}

/// A string item.
pub fn string(value: &str) -> (r: Item)
    ensures
        r@ == str_v(value@),
{
    Item::string(value)
}

// ---------------------------------------------------------------------------
// Variables and functions of the runtime
// ---------------------------------------------------------------------------

/// The operand stack (a list, so at most 10000 values deep).
pub const DF_VAR_OP_STACK: &'static str = "wasm.$op_stack";
/// The current memory size.
pub const DF_VAR_MEM_SIZE: &'static str = "wasm.$memSize";
/// The names of the compiled and imported functions.
pub const DF_VAR_STORE_FUNCS: &'static str = "wasm.$store_funcs";
/// The names of the variables that hold the tables.
pub const DF_VAR_STORE_TABLES: &'static str = "wasm.$store_tables";
/// The values of the globals.
pub const DF_VAR_STORE_GLOBALS: &'static str = "wasm.$store_globals";
/// Calls a function: takes its index and its argument and result counts.
pub const DF_FUNC_CALL_FUNC: &'static str = "wasm.internal.call_func";
/// Grows a table.
pub const DF_FUNC_GROW_TABLE: &'static str = "wasm.internal.grow_table";
/// Fills a table.
pub const DF_FUNC_FILL_TABLE: &'static str = "wasm.internal.fill_table";
/// Loads from memory: takes the byte count and the offset, pops the address, pushes the value.
pub const DF_FUNC_MEM_LOAD: &'static str = "wasm.internal.mem_load";
/// Stores to memory: takes the byte count, the offset and an optional mask, pops the value and the address.
pub const DF_FUNC_MEM_STORE: &'static str = "wasm.internal.mem_store";
/// Sign-extends the top of the stack: takes the source and target bit counts.
pub const DF_FUNC_SIGN_EXTEND: &'static str = "wasm.internal.sign_extend";
/// Initializes memory from a data section: takes the address and up to 26 bytes.
pub const DF_FUNC_BATCH_DATA_SECTION: &'static str = "wasm.internal.batch_data_section";
/// Traps.
pub const DF_FUNC_TRAP: &'static str = "wasm.internal.trap";
/// How many enclosing blocks and loops a branch leaves.
pub const DF_VAR_BRANCH_COUNTER: &'static str = "wasm.$branch_counter";
/// Checks the branch counter after a block or loop body.
pub const DF_FUNC_CONTROL_LOOP_CHECK: &'static str = "wasm.internal.control_loop_check";
/// The current stack frame.
pub const DF_VAR_CURRENT_STACK_FRAME: &'static str = "wasm.$current_stack_frame";
/// The imports.
pub const DF_VAR_IMPORTS: &'static str = "wasm.$imports";
/// The name of the module initialization function.
pub const DF_VAR_MODULE_INIT_FUNC: &'static str = "wasm.$module_init_func";
/// The exports.
pub const DF_VAR_EXPORTS: &'static str = "wasm.$exports";
/// The signatures of the exports.
pub const DF_VAR_EXPORT_SIGNATURES: &'static str = "wasm.$export_signatures";
/// Hooks an instruction.
pub const DF_FUNC_HOOK_INSTRUCTION: &'static str = "wasm.internal.hook_instruction";
/// Multiplies two 64-bit values on the stack.
pub const DF_FUNC_I64_MUL: &'static str = "wasm.internal.i64_mul";

// ---------------------------------------------------------------------------
// Operand stack code
// ---------------------------------------------------------------------------

/// Appends `x` to the operand stack.
pub open spec fn push_v(x: ItemV) -> BlockV {
    BlockV::SetVariable { args: slotted(seq![var_v(DF_VAR_OP_STACK@), x]), action: "AppendValue"@ }
}

/// Pops the operand stack into `x`.
pub open spec fn pop_v(x: ItemV) -> BlockV {
    BlockV::SetVariable { args: slotted(seq![x, var_v(DF_VAR_OP_STACK@)]), action: "PopListValue"@ }
}

/// The variable that a block pops the operand stack into, where the block is
/// such a pop.
pub open spec fn popped_into(b: BlockV) -> Option<Seq<char>> {
    match b {
        BlockV::SetVariable { args, action } => if action == "PopListValue"@ && args.len() == 2 && args[1].1
            == var_v(DF_VAR_OP_STACK@) {
            match args[0].1 {
                ItemV::Variable { name, .. } => Some(name),
                _ => None,
            }
        } else {
            None
        },
        _ => None,
    }
}

/// The variables that blocks pop the operand stack into, in order.
pub open spec fn pops(b: Seq<BlockV>) -> Seq<Seq<char>>
    decreases b.len(),
{
    if b.len() == 0 {
        Seq::empty()
    } else {
        match popped_into(b.last()) {
            Some(x) => pops(b.drop_last()).push(x),
            None => pops(b.drop_last()),
        }
    }
}

/// The pops of joined blocks are the pops of each part, in order.
pub proof fn lemma_pops_append(a: Seq<BlockV>, b: Seq<BlockV>)
    ensures
        pops(a + b) == pops(a) + pops(b),
    decreases b.len(),
{
    if b.len() == 0 {
        assert(a + b =~= a);
        assert(pops(a) + pops(b) =~= pops(a));
    } else {
        lemma_pops_append(a, b.drop_last());
        assert((a + b).drop_last() =~= a + b.drop_last());
        assert((a + b).last() == b.last());
        match popped_into(b.last()) {
            Some(x) => assert(pops(a) + pops(b) =~= (pops(a) + pops(b.drop_last())).push(x)),
            None => {},
        }
    }
}

/// The pops of a single block.
pub proof fn lemma_pops_one(x: BlockV)
    ensures
        pops(seq![x]) == match popped_into(x) {
            Some(v) => seq![v],
            None => Seq::<Seq<char>>::empty(),
        },
{
    assert(seq![x].drop_last() =~= Seq::<BlockV>::empty());
    assert(pops(Seq::<BlockV>::empty()) == Seq::<Seq<char>>::empty());
    match popped_into(x) {
        Some(v) => assert(Seq::<Seq<char>>::empty().push(v) =~= seq![v]),
        None => {},
    }
}

/// The item that a block appends to the operand stack, where the block is
/// such a push.
pub open spec fn pushed_item(b: BlockV) -> Option<ItemV> {
    match b {
        BlockV::SetVariable { args, action } => if action == "AppendValue"@ && args.len() == 2 && args[0].1
            == var_v(DF_VAR_OP_STACK@) {
            Some(args[1].1)
        } else {
            None
        },
        _ => None,
    }
}

/// The variable that a block tests to be different from zero, where the block
/// is such a test: a condition that holds exactly when the variable is not 0.
pub open spec fn nonzero_test(b: BlockV) -> Option<Seq<char>> {
    match b {
        BlockV::IfVariable { args, action, is_negated } => if action == "!="@ && !is_negated && args.len() == 2
            && args[1].1 == num_v("0"@) {
            match args[0].1 {
                ItemV::Variable { name, .. } => Some(name),
                _ => None,
            }
        } else {
            None
        },
        _ => None,
    }
}

/// The DiamondFire expression `%math(%var(x)<op>%var(y))`: the values of the
/// variables `x` and `y` combined by `op`, `x` on the left.
pub open spec fn math_of_vars(x: Seq<char>, op: Seq<char>, y: Seq<char>) -> Seq<char> {
    "%math(%var("@ + x + ")"@ + op + "%var("@ + y + "))"@
}

/// Compares `a` and `b` with `action` and pushes 1 (`0.001`) or 0.
pub open spec fn compare_push_v(action: Seq<char>, a: ItemV, b: ItemV) -> Seq<BlockV> {
    seq![
        BlockV::IfVariable { args: slotted(seq![a, b]), action, is_negated: false },
        open_v(),
        push_v(num_v(df_text(false, 1))),
        close_v(),
        BlockV::Else,
        open_v(),
        push_v(num_v(df_text(false, 0))),
        close_v(),
    ]
}

/// Operand stack code on templates.
pub trait TemplateExt: Sized {
    /// Pushes a value to the operand stack.
    fn push_op_stack(&mut self, var_to_push: Item) -> (r: &mut Self)
        ensures
            r.blocks_v() == old(self).blocks_v().push(push_v(var_to_push@)),
            *final(self) == *final(r);

    /// Pops a value from the operand stack into the given variable.
    fn pop_op_stack(&mut self, var_to_pop: Item) -> (r: &mut Self)
        ensures
            r.blocks_v() == old(self).blocks_v().push(pop_v(var_to_pop@)),
            *final(self) == *final(r);

    /// Pushes 1 when the comparison holds and 0 when it does not.
    fn compare_and_push(&mut self, action: &str, a: Item, b: Item) -> (r: &mut Self)
        ensures
            r.blocks_v() == old(self).blocks_v() + compare_push_v(action@, a@, b@),
            *final(self) == *final(r);

    /// The value of the blocks.
    spec fn blocks_v(&self) -> Seq<BlockV>;
}

impl TemplateExt for Template {
    open spec fn blocks_v(&self) -> Seq<BlockV> {
        self@
    }

    fn push_op_stack(&mut self, var_to_push: Item) -> (r: &mut Self) {
        let mut v: Vec<Item> = Vec::new();
        v.push(Item::var(DF_VAR_OP_STACK));
        v.push(var_to_push);
        let ghost x = var_to_push@;
        assert(crate::template::items_view(v@) =~= seq![var_v(DF_VAR_OP_STACK@), x]);
        self.set_var("AppendValue", Args::with(v))
    }

    fn pop_op_stack(&mut self, var_to_pop: Item) -> (r: &mut Self) {
        let mut v: Vec<Item> = Vec::new();
        v.push(var_to_pop);
        v.push(Item::var(DF_VAR_OP_STACK));
        let ghost x = var_to_pop@;
        assert(crate::template::items_view(v@) =~= seq![x, var_v(DF_VAR_OP_STACK@)]);
        self.set_var("PopListValue", Args::with(v))
    }

    fn compare_and_push(&mut self, action: &str, a: Item, b: Item) -> (r: &mut Self) {
        let ghost s0 = self@;
        let mut v: Vec<Item> = Vec::new();
        let ghost av = a@;
        let ghost bv = b@;
        v.push(a);
        v.push(b);
        assert(crate::template::items_view(v@) =~= seq![av, bv]);
        let one = format_df_number_usize(1);
        let zero = format_df_number_usize(0);
        let r = self.if_var(action, Args::with(v))
            .open_bracket()
            .push_op_stack(num(one.as_str()))
            .close_bracket()
            .else_block()
            .open_bracket()
            .push_op_stack(num(zero.as_str()))
            .close_bracket();
        assert(r@ =~= s0 + compare_push_v(action@, av, bv));
        r
    }
}

} // verus!
