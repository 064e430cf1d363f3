//! The logic of the module test runner: reading test case files, turning
//! argument and result values into numbers, and building the templates that
//! run the tests and compare their results with the expected ones.
use vstd::prelude::*;
use crate::compiler::{DFWasmCompiler, DFWasmCompilerOptions, OptionsV, compile_outcome, is_outcome};
use crate::error::ErrV;
use crate::df_helper::{df_signed, df_text, num_v, str_v, var_v};
use crate::error::DFWasmResult;
use crate::names::{all_digits, digits_value, lemma_digits_prefix_le};
use crate::splitter::{spec_split_templates, templates_view, try_split_templates};
use crate::template::{
    Args, BlockV, CodeBlock, Item, ItemV, Location, Template, at_most, close_repeat_v, items_view, open_repeat_v,
    print_v, slotted, slotted_at_end, tag_v,
};
use crate::text::{chars_of, owned, push_chars, push_str, string_of};
use crate::wasm::Section;
use crate::wasm_read::read_from;
use wasmparser::BinaryReaderError;

verus! {

// ---------------------------------------------------------------------------
// Test case files
// ---------------------------------------------------------------------------

/// Unicode white space (the `White_Space` property): tab to carriage return,
/// space, next line, no-break space, ogham space mark, the spaces from en
/// quad to hair space, line and paragraph separators, narrow no-break space,
/// medium mathematical space and ideographic space.
pub open spec fn is_white_space(c: char) -> bool {
    let v = c as u32;
    ||| 9 <= v <= 13
    ||| v == 32
    ||| v == 0x85
    ||| v == 0xA0
    ||| v == 0x1680
    ||| 0x2000 <= v <= 0x200A
    ||| v == 0x2028
    ||| v == 0x2029
    ||| v == 0x202F
    ||| v == 0x205F
    ||| v == 0x3000
}

/// Whether a character is white space (see [`is_white_space`]).
pub fn white_space(c: char) -> (r: bool)
    ensures
        r == is_white_space(c),
{
    let v = c as u32;
    (9 <= v && v <= 13) || v == 32 || v == 0x85 || v == 0xA0 || v == 0x1680 || (0x2000 <= v && v <= 0x200A)
        || v == 0x2028 || v == 0x2029 || v == 0x202F || v == 0x205F || v == 0x3000
}

/// A line without the carriage return of a `\r\n` ending.
pub open spec fn strip_cr(line: Seq<char>) -> Seq<char> {
    if line.len() > 0 && line.last() == '\r' {
        line.drop_last()
    } else {
        line
    }
}

/// The lines ended so far, and the line going on.
pub open spec fn lines_acc(s: Seq<char>) -> (Seq<Seq<char>>, Seq<char>)
    decreases s.len(),
{
    if s.len() == 0 {
        (Seq::empty(), Seq::empty())
    } else {
        let (done, cur) = lines_acc(s.drop_last());
        if s.last() == '\n' {
            (done.push(strip_cr(cur)), Seq::empty())
        } else {
            (done, cur.push(s.last()))
        }
    }
}

/// The lines of a text: split at `\n` or `\r\n`; a last line without an
/// ending counts, an empty one after the last ending does not.
pub open spec fn text_lines(s: Seq<char>) -> Seq<Seq<char>> {
    let (done, cur) = lines_acc(s);
    if cur.len() > 0 {
        done.push(cur)
    } else {
        done
    }
}

/// The words found so far, and the word going on.
pub open spec fn words_acc(s: Seq<char>) -> (Seq<Seq<char>>, Seq<char>)
    decreases s.len(),
{
    if s.len() == 0 {
        (Seq::empty(), Seq::empty())
    } else {
        let (done, cur) = words_acc(s.drop_last());
        if is_white_space(s.last()) {
            if cur.len() > 0 {
                (done.push(cur), Seq::empty())
            } else {
                (done, Seq::empty())
            }
        } else {
            (done, cur.push(s.last()))
        }
    }
}

/// The words of a text: its longest runs of characters that are not white space.
pub open spec fn text_words(s: Seq<char>) -> Seq<Seq<char>> {
    let (done, cur) = words_acc(s);
    if cur.len() > 0 {
        done.push(cur)
    } else {
        done
    }
}

/// Whether a text is all white space.
pub open spec fn is_blank(s: Seq<char>) -> bool {
    forall|i: int| 0 <= i < s.len() ==> is_white_space(#[trigger] s[i])
}

/// A test case: a call of an exported function of a module with arguments.
pub struct TestCase {
    pub module_name: String,
    pub function_name: String,
    pub inputs: Vec<String>,
}

/// The value of a test case.
pub struct TestCaseV {
    pub module_name: Seq<char>,
    pub function_name: Seq<char>,
    pub inputs: Seq<Seq<char>>,
}

impl View for TestCase {
    type V = TestCaseV;

    open spec fn view(&self) -> TestCaseV {
        TestCaseV {
            module_name: self.module_name@,
            function_name: self.function_name@,
            inputs: self.inputs@.map_values(|s: String| s@),
        }
    }
}

/// Whether a line holds a test case: it is not blank and not a comment
/// (starting with `#`).
pub open spec fn is_case_line(line: Seq<char>) -> bool {
    !is_blank(line) && !(line.len() > 0 && line[0] == '#')
}

/// The test case of a line: its first word names the function, the other
/// words are the arguments.
pub open spec fn case_of(module_name: Seq<char>, line: Seq<char>) -> TestCaseV {
    let w = text_words(line);
    TestCaseV { module_name, function_name: w[0], inputs: w.drop_first() }
}

/// The test cases of the lines.
pub open spec fn cases_of(module_name: Seq<char>, lines: Seq<Seq<char>>) -> Seq<TestCaseV>
    decreases lines.len(),
{
    if lines.len() == 0 {
        Seq::empty()
    } else {
        let rest = cases_of(module_name, lines.drop_last());
        if is_case_line(lines.last()) {
            rest.push(case_of(module_name, lines.last()))
        } else {
            rest
        }
    }
}

/// The lines of a text.
pub(crate) fn lines_of(s: &Vec<char>) -> (r: Vec<Vec<char>>)
    ensures
        r@.map_values(|l: Vec<char>| l@) == text_lines(s@),
{
    let mut done: Vec<Vec<char>> = Vec::new();
    let mut cur: Vec<char> = Vec::new();
    let mut i: usize = 0;
    while i < s.len()
        invariant
            i <= s@.len(),
            (done@.map_values(|l: Vec<char>| l@), cur@) == lines_acc(s@.take(i as int)),
        decreases s.len() - i,
    {
        let c = s[i];
        proof {
            assert(s@.take(i + 1).drop_last() =~= s@.take(i as int));
        }
        let ghost prev = done@.map_values(|l: Vec<char>| l@);
        if c == '\n' {
            if cur.len() > 0 && cur[cur.len() - 1] == '\r' {
                cur.pop();
            }
            let ghost line = cur@;
            done.push(cur);
            cur = Vec::new();
            proof {
                assert(done@.map_values(|l: Vec<char>| l@) =~= prev.push(line));
            }
        } else {
            cur.push(c);
            assert(done@.map_values(|l: Vec<char>| l@) =~= prev);
        }
        i = i + 1;
    }
    assert(s@.take(s@.len() as int) =~= s@);
    if cur.len() > 0 {
        let ghost prev = done@.map_values(|l: Vec<char>| l@);
        let ghost line = cur@;
        done.push(cur);
        assert(done@.map_values(|l: Vec<char>| l@) =~= prev.push(line));
    }
    done
}

/// The words of a text.
pub(crate) fn words_of(s: &Vec<char>) -> (r: Vec<Vec<char>>)
    ensures
        r@.map_values(|w: Vec<char>| w@) == text_words(s@),
{
    let mut done: Vec<Vec<char>> = Vec::new();
    let mut cur: Vec<char> = Vec::new();
    let mut i: usize = 0;
    while i < s.len()
        invariant
            i <= s@.len(),
            (done@.map_values(|w: Vec<char>| w@), cur@) == words_acc(s@.take(i as int)),
        decreases s.len() - i,
    {
        let c = s[i];
        proof {
            assert(s@.take(i + 1).drop_last() =~= s@.take(i as int));
        }
        let ghost prev = done@.map_values(|w: Vec<char>| w@);
        if white_space(c) {
            if cur.len() > 0 {
                let ghost word = cur@;
                done.push(cur);
                assert(done@.map_values(|w: Vec<char>| w@) =~= prev.push(word));
            }
            cur = Vec::new();
        } else {
            cur.push(c);
        }
        i = i + 1;
    }
    assert(s@.take(s@.len() as int) =~= s@);
    if cur.len() > 0 {
        let ghost prev = done@.map_values(|w: Vec<char>| w@);
        let ghost word = cur@;
        done.push(cur);
        assert(done@.map_values(|w: Vec<char>| w@) =~= prev.push(word));
    }
    done
}

/// Whether a text is all white space.
pub(crate) fn blank(s: &Vec<char>) -> (r: bool)
    ensures
        r == is_blank(s@),
{
    let mut i: usize = 0;
    while i < s.len()
        invariant
            i <= s@.len(),
            forall|j: int| 0 <= j < i ==> is_white_space(#[trigger] s@[j]),
        decreases s.len() - i,
    {
        if !white_space(s[i]) {
            return false;
        }
        i = i + 1;
    }
    true
}

/// A line that is not blank has a word.
proof fn lemma_words_nonempty(s: Seq<char>)
    requires
        !is_blank(s),
    ensures
        text_words(s).len() > 0,
{
    let k = choose|k: int| 0 <= k < s.len() && !is_white_space(s[k]);
    lemma_words_acc_word(s, k);
}

/// Once a character that is not white space is read, a word is found or going on.
proof fn lemma_words_acc_word(s: Seq<char>, k: int)
    requires
        0 <= k < s.len(),
        !is_white_space(s[k]),
    ensures
        words_acc(s).0.len() > 0 || words_acc(s).1.len() > 0,
    decreases s.len(),
{
    if k < s.len() - 1 {
        lemma_words_acc_word(s.drop_last(), k);
    }
}

/// Reads the test cases of a module from the text of its case file: one
/// case per line that is neither blank nor a comment (see [`cases_of`]).
pub fn parse_input_file(module_name: &str, contents: &str) -> (r: Vec<TestCase>)
    ensures
        r@.map_values(|c: TestCase| c@) == cases_of(module_name@, text_lines(contents@)),
{
    let lines = lines_of(&chars_of(contents));
    let ghost lv = lines@.map_values(|l: Vec<char>| l@);
    let mut cases: Vec<TestCase> = Vec::new();
    let mut i: usize = 0;
    while i < lines.len()
        invariant
            i <= lines@.len(),
            lv == lines@.map_values(|l: Vec<char>| l@),
            cases@.map_values(|c: TestCase| c@) == cases_of(module_name@, lv.take(i as int)),
        decreases lines.len() - i,
    {
        proof {
            assert(lv.take(i + 1).drop_last() =~= lv.take(i as int));
            assert(lv.take(i + 1).last() == lines@[i as int]@);
        }
        let line = &lines[i];
        if !blank(line) && !(line.len() > 0 && line[0] == '#') {
            let words = words_of(line);
            proof {
                lemma_words_nonempty(line@);
            }
            let ghost wv = words@.map_values(|w: Vec<char>| w@);
            let function_name = string_of(&words[0]);
            let mut inputs: Vec<String> = Vec::new();
            let mut k: usize = 1;
            while k < words.len()
                invariant
                    1 <= k <= words@.len(),
                    wv == words@.map_values(|w: Vec<char>| w@),
                    inputs@.map_values(|s: String| s@) == wv.subrange(1, k as int),
                decreases words.len() - k,
            {
                let ghost prev = inputs@.map_values(|s: String| s@);
                let w = string_of(&words[k]);
                assert(w@ == wv[k as int]);
                let ghost wvv = w@;
                inputs.push(w);
                k = k + 1;
                assert(inputs@.map_values(|s: String| s@) =~= prev.push(wvv));
                assert(inputs@.map_values(|s: String| s@) =~= wv.subrange(1, k as int));
            }
            let case = TestCase { module_name: owned(module_name), function_name, inputs };
            let ghost prev = cases@.map_values(|c: TestCase| c@);
            let ghost cv = case@;
            cases.push(case);
            proof {
                assert(wv.subrange(1, wv.len() as int) =~= wv.drop_first());
                assert(cv == case_of(module_name@, line@));
                assert(cases@.map_values(|c: TestCase| c@) =~= prev.push(cv));
            }
        }
        i = i + 1;
    }
    assert(lv.take(lines@.len() as int) =~= lv);
    cases
}


// ---------------------------------------------------------------------------
// Values
// ---------------------------------------------------------------------------

/// The type of an argument or a result of an exported function.
#[derive(Debug, Clone, Copy, PartialEq, Eq, Structural)]
pub enum ValueType {
    I32,
    I64,
    /// Any other type, which the tests do not support.
    Other,
}

/// An argument or a result of an exported function.
#[derive(Debug, Clone, Copy, PartialEq, Eq, Structural)]
pub enum WasmValue {
    I32(i32),
    I64(i64),
    /// A value of any other type.
    Other,
}

/// Why a value could not be converted.
#[derive(Debug, Clone, Copy, PartialEq, Eq, Structural)]
pub enum RunnerError {
    InvalidI32,
    InvalidI64,
    UnsupportedType,
}

/// The value of an integer literal: an optional sign, then at least one
/// decimal digit.
pub open spec fn int_text_value(s: Seq<char>) -> Option<int> {
    let negative = s.len() > 0 && s[0] == '-';
    let d = if s.len() > 0 && (s[0] == '-' || s[0] == '+') {
        s.drop_first()
    } else {
        s
    };
    if d.len() > 0 && all_digits(d) {
        Some(if negative { -(digits_value(d) as int) } else { digits_value(d) as int })
    } else {
        None
    }
}

/// The value of digits from `start` on, if they are all digits and the value fits a `u64`.
fn digits_to_u64(d: &Vec<char>, start: usize) -> (r: Option<u64>)
    requires
        start <= d.len(),
    ensures
        ({
            let t = d@.subrange(start as int, d@.len() as int);
            match r {
                Some(v) => all_digits(t) && digits_value(t) == v,
                None => !all_digits(t) || digits_value(t) > u64::MAX,
            }
        }),
{
    let mut v: u64 = 0;
    let mut i: usize = start;
    while i < d.len()
        invariant
            start <= i <= d.len(),
            all_digits(d@.subrange(start as int, i as int)),
            digits_value(d@.subrange(start as int, i as int)) == v,
        decreases d.len() - i,
    {
        let c = d[i];
        let ghost t = d@.subrange(start as int, i + 1);
        assert(t.drop_last() =~= d@.subrange(start as int, i as int));
        if c < '0' || c > '9' {
            proof {
                let all = d@.subrange(start as int, d@.len() as int);
                assert(all[i - start] == c);
            }
            return None;
        }
        let dig = (c as u32 - '0' as u32) as u64;
        if v > (u64::MAX - dig) / 10 {
            proof {
                let all = d@.subrange(start as int, d@.len() as int);
                assert(digits_value(t) > u64::MAX) by (nonlinear_arith)
                    requires
                        digits_value(t) == v * 10 + dig,
                        v > (u64::MAX - dig) / 10,
                        dig <= 9,
                ;
                if all_digits(all) {
                    lemma_digits_prefix_le(all, (i + 1 - start) as int);
                    assert(all.subrange(0, (i + 1 - start) as int) =~= t);
                }
            }
            return None;
        }
        v = v * 10 + dig;
        i = i + 1;
    }
    Some(v)
}

/// The sign and magnitude of an integer literal; `None` where it is not one
/// or its magnitude does not fit a `u64`.
fn sign_and_magnitude(s: &str) -> (r: Option<(bool, u64)>)
    ensures
        match r {
            Some((neg, m)) => int_text_value(s@) == Some(if neg { -(m as int) } else { m as int }),
            None => int_text_value(s@) is None || (int_text_value(s@) matches Some(v) && (v > u64::MAX || v < -(u64::MAX as int))),
        },
{
    let c = chars_of(s);
    let negative = c.len() > 0 && c[0] == '-';
    let start: usize = if c.len() > 0 && (c[0] == '-' || c[0] == '+') {
        1
    } else {
        0
    };
    proof {
        let d = if c@.len() > 0 && (c@[0] == '-' || c@[0] == '+') {
            c@.drop_first()
        } else {
            c@
        };
        assert(c@.subrange(start as int, c@.len() as int) =~= d);
    }
    if start >= c.len() {
        return None;
    }
    match digits_to_u64(&c, start) {
        Some(m) => Some((negative, m)),
        None => None,
    }
}

/// The value of an `i64` literal: an optional sign, then decimal digits,
/// with a value in range.
pub open spec fn parsed_i64(s: Seq<char>) -> Option<i64> {
    match int_text_value(s) {
        Some(v) => if i64::MIN <= v <= i64::MAX {
            Some(v as i64)
        } else {
            None
        },
        None => None,
    }
}

/// The value of an `i32` literal: an optional sign, then decimal digits,
/// with a value in range.
pub open spec fn parsed_i32(s: Seq<char>) -> Option<i32> {
    match int_text_value(s) {
        Some(v) => if i32::MIN <= v <= i32::MAX {
            Some(v as i32)
        } else {
            None
        },
        None => None,
    }
}

/// Parses an `i64` literal (see [`parsed_i64`]).
pub fn parse_i64(s: &str) -> (r: Option<i64>)
    ensures
        r == parsed_i64(s@),
{
    match sign_and_magnitude(s) {
        None => None,
        Some((neg, m)) => {
            if neg {
                if m > 9223372036854775808u64 {
                    None
                } else {
                    let v: i128 = -(m as i128);
                    Some(v as i64)
                }
            } else {
                if m > 9223372036854775807u64 {
                    None
                } else {
                    Some(m as i64)
                }
            }
        },
    }
}

/// Parses an `i32` literal (see [`parsed_i32`]).
pub fn parse_i32(s: &str) -> (r: Option<i32>)
    ensures
        r == parsed_i32(s@),
{
    match parse_i64(s) {
        None => None,
        Some(v) => if v < -2147483648i64 || v > 2147483647i64 {
            None
        } else {
            Some(v as i32)
        },
    }
}

/// The DiamondFire number text of a 64-bit value (see [`df_signed`]).
pub fn format_df_number_i64(value: i64) -> (r: String)
    ensures
        r@ == df_signed(value as int),
{
    crate::df_helper::format_df_number_i64(value)
}

/// The DiamondFire number text of a 32-bit value, whose bits are read as an
/// unsigned number.
pub fn format_df_number_i32(value: i32) -> (r: String)
    ensures
        r@ == df_text(false, (value as u32) as nat),
{
    crate::df_helper::format_df_number_i32(value)
}

/// The number item of a 32-bit value.
pub open spec fn i32_item(v: i32) -> ItemV {
    num_v(df_text(false, (v as u32) as nat))
}

/// The number item of a 64-bit value.
pub open spec fn i64_item(v: i64) -> ItemV {
    num_v(df_signed(v as int))
}

/// Parses an argument as a value of a type.
pub fn parse_string_to_wasm_value(s: &str, ty: ValueType) -> (r: Result<WasmValue, RunnerError>)
    ensures
        r == match ty {
            ValueType::I32 => match parsed_i32(s@) {
                Some(v) => Ok(WasmValue::I32(v)),
                None => Err(RunnerError::InvalidI32),
            },
            ValueType::I64 => match parsed_i64(s@) {
                Some(v) => Ok(WasmValue::I64(v)),
                None => Err(RunnerError::InvalidI64),
            },
            ValueType::Other => Err(RunnerError::UnsupportedType),
        },
{
    match ty {
        ValueType::I32 => match parse_i32(s) {
            Some(v) => Ok(WasmValue::I32(v)),
            None => Err(RunnerError::InvalidI32),
        },
        ValueType::I64 => match parse_i64(s) {
            Some(v) => Ok(WasmValue::I64(v)),
            None => Err(RunnerError::InvalidI64),
        },
        ValueType::Other => Err(RunnerError::UnsupportedType),
    }
}

/// The number item of a value.
pub open spec fn value_item(v: WasmValue) -> Option<ItemV> {
    match v {
        WasmValue::I32(i) => Some(i32_item(i)),
        WasmValue::I64(i) => Some(i64_item(i)),
        WasmValue::Other => None,
    }
}

/// Converts a value to its number item; other types are refused.
pub fn wasm_value_to_df_value(value: &WasmValue) -> (r: Result<Item, RunnerError>)
    ensures
        match value_item(*value) {
            Some(item) => r matches Ok(i) && i@ == item,
            None => r == Err::<Item, RunnerError>(RunnerError::UnsupportedType),
        },
{
    match value {
        WasmValue::I32(i) => Ok(Item::num(format_df_number_i32(*i).as_str())),
        WasmValue::I64(i) => Ok(Item::num(format_df_number_i64(*i).as_str())),
        WasmValue::Other => Err(RunnerError::UnsupportedType),
    }
}

/// Converts an argument of a type to its number item; other types are
/// refused. The argument must be a literal of the type.
pub fn parse_string_to_df_value(s: &str, ty: ValueType) -> (r: Result<Item, RunnerError>)
    requires
        ty == ValueType::I32 ==> parsed_i32(s@) is Some,
        ty == ValueType::I64 ==> parsed_i64(s@) is Some,
    ensures
        match ty {
            ValueType::I32 => r matches Ok(i) && i@ == i32_item(parsed_i32(s@)->0),
            ValueType::I64 => r matches Ok(i) && i@ == i64_item(parsed_i64(s@)->0),
            ValueType::Other => r == Err::<Item, RunnerError>(RunnerError::UnsupportedType),
        },
{
    match ty {
        ValueType::I32 => Ok(Item::num(format_df_number_i32(parse_i32(s).unwrap()).as_str())),
        ValueType::I64 => Ok(Item::num(format_df_number_i64(parse_i64(s).unwrap()).as_str())),
        ValueType::Other => Err(RunnerError::UnsupportedType),
    }
}

// ---------------------------------------------------------------------------
// Templates
// ---------------------------------------------------------------------------

/// The plot size the tests run in.
pub const PLOT_SIZE: usize = 301;

/// The block that purges the variables of the compiled code (those whose
/// names contain `wasm.$`, case-sensitively).
pub open spec fn purge_v() -> BlockV {
    BlockV::SetVariable {
        args: slotted(seq![str_v("wasm.$"@)]) + slotted_at_end(
            seq![
                tag_v("Any part of name"@, "Match Requirement"@, "PurgeVars"@, CodeBlock::SetVariable),
                tag_v("False"@, "Ignore Case"@, "PurgeVars"@, CodeBlock::SetVariable),
            ],
        ),
        action: "PurgeVars"@,
    }
}

/// Appends the block that purges the variables of the compiled code.
pub fn clear_variables(template: &mut Template)
    ensures
        final(template)@ == old(template)@.push(purge_v()),
{
    let mut args: Vec<Item> = Vec::new();
    args.push(Item::string("wasm.$"));
    let mut tags: Vec<Item> = Vec::new();
    tags.push(
        Item::Tag {
            option: owned("Any part of name"),
            tag: owned("Match Requirement"),
            action: owned("PurgeVars"),
            block: CodeBlock::SetVariable,
        },
    );
    tags.push(
        Item::Tag {
            option: owned("False"),
            tag: owned("Ignore Case"),
            action: owned("PurgeVars"),
            block: CodeBlock::SetVariable,
        },
    );
    proof {
        assert(at_most(items_view(args@), 28) =~= seq![str_v("wasm.$"@)]);
        assert(items_view(tags@) =~= seq![
            tag_v("Any part of name"@, "Match Requirement"@, "PurgeVars"@, CodeBlock::SetVariable),
            tag_v("False"@, "Ignore Case"@, "PurgeVars"@, CodeBlock::SetVariable),
        ]);
    }
    template.set_var("PurgeVars", Args::with_tags(args, tags));
}


/// The view of the options the modules under test are compiled with.
pub open spec fn test_options_v(test_name: Seq<char>) -> OptionsV {
    OptionsV {
        module_name: Some(test_name),
        debugger: false,
        skip_nop_debugger: false,
        max_template_size: Some(PLOT_SIZE),
        batch_data: false,
        batch_data_size: None,
        only_include_module_init: false,
    }
}

/// The options the modules under test are compiled with: named after the
/// test, split to the test plot size.
pub fn test_compiler_options(test_name: &str) -> (r: DFWasmCompilerOptions)
    ensures
        r@ == test_options_v(test_name@),
{
    DFWasmCompilerOptions {
        module_name: Some(owned(test_name)),
        debugger: false,
        skip_nop_debugger: false,
        max_template_size: Some(PLOT_SIZE),
        batch_data: false,
        batch_data_size: None,
        only_include_module_init: false,
    }
}

/// The message printed before a module's tests run.
pub open spec fn running_message(test_name: Seq<char>) -> Seq<char> {
    "<blue>ℹ<white> Running module test: "@ + test_name
}

/// The start of a module's test function `test_<name>`: it purges the
/// variables, initializes the module and prints a message.
pub open spec fn module_test_head(test_name: Seq<char>) -> Seq<BlockV> {
    seq![
        BlockV::Function { args: Seq::empty(), name: "test_"@ + test_name },
        purge_v(),
        BlockV::CallFunction { args: Seq::empty(), func: test_name + "_module_init"@ },
        print_v(slotted(seq![ItemV::Text { name: running_message(test_name) }])),
    ]
}

/// Starts the test function of a module (see [`module_test_head`]).
pub fn module_test_function(test_name: &str) -> (r: Template)
    ensures
        r@ == module_test_head(test_name@),
{
    let mut name: Vec<char> = chars_of("test_");
    push_str(&mut name, test_name);
    let name = string_of(&name);
    let mut template = Template::start_function(name.as_str());
    clear_variables(&mut template);
    let mut init: Vec<char> = chars_of(test_name);
    push_str(&mut init, "_module_init");
    let init = string_of(&init);
    template.call_function(init.as_str(), Args::default());
    let mut message: Vec<char> = chars_of("<blue>ℹ<white> Running module test: ");
    push_str(&mut message, test_name);
    let mut items: Vec<Item> = Vec::new();
    items.push(Item::Text { name: string_of(&message) });
    assert(items_view(items@) =~= seq![ItemV::Text { name: running_message(test_name@) }]);
    template.print(Args::with(items));
    assert(template@ =~= module_test_head(test_name@));
    template
}

/// The texts joined with `, ` between them.
pub open spec fn comma_join(parts: Seq<Seq<char>>) -> Seq<char> {
    crate::test_gen::join(parts, ", "@)
}

/// The comparison of a test case: `$expectEqual` with the module, the
/// function and its arguments' texts, the expected results, a location
/// separating them from the arguments, and the arguments.
pub open spec fn expect_v(case: TestCaseV, inputs: Seq<ItemV>, expected: Seq<ItemV>) -> BlockV {
    BlockV::CallFunction {
        args: slotted(
            seq![str_v(case.module_name), str_v(case.function_name), str_v(comma_join(case.inputs))] + expected
                + seq![ItemV::Location { is_block: false, loc: Location { x: 0, y: 0, z: 0, pitch: 0, yaw: 0 } }]
                + inputs,
        ),
        func: "$expectEqual"@,
    }
}

/// Appends the comparison of a test case with the number items of its
/// arguments and of its expected results.
pub fn compile_test_case(module_function: &mut Template, case: &TestCase, inputs: Vec<Item>, expected: Vec<Item>)
    ensures
        final(module_function)@ == old(module_function)@.push(
            expect_v(case@, items_view(inputs@), items_view(expected@)),
        ),
{
    let ghost (iv, ev) = (items_view(inputs@), items_view(expected@));
    let mut joined: Vec<char> = Vec::new();
    crate::test_gen::push_joined(&mut joined, &case.inputs, case.inputs.len(), ", ");
    proof {
        let all = case.inputs@.map_values(|s: String| s@);
        assert(at_most(all, case.inputs@.len()) =~= all);
        assert(joined@ =~= comma_join(all));
    }
    let mut args: Vec<Item> = Vec::new();
    args.push(Item::string(case.module_name.as_str()));
    args.push(Item::string(case.function_name.as_str()));
    args.push(Item::String { name: string_of(&joined) });
    let ghost head = items_view(args@);
    assert(head =~= seq![str_v(case@.module_name), str_v(case@.function_name), str_v(comma_join(case@.inputs))]);
    let mut expected = expected;
    args.append(&mut expected);
    args.push(Item::Location { is_block: false, loc: Location::default() });
    let ghost mid = items_view(args@);
    let mut inputs = inputs;
    args.append(&mut inputs);
    proof {
        assert(items_view(args@) =~= head + ev + seq![
            ItemV::Location { is_block: false, loc: Location { x: 0, y: 0, z: 0, pitch: 0, yaw: 0 } },
        ] + iv);
    }
    module_function.call_function("$expectEqual", Args::with(args));
}

/// A compiled module test: the name of its test function and all its templates.
pub struct CompiledModuleTest {
    pub main_function_name: String,
    pub templates: Vec<Template>,
}

/// The test function of a module: its head, then one comparison per case.
pub open spec fn test_function_v(
    test_name: Seq<char>,
    cases: Seq<TestCaseV>,
    results: Seq<(Seq<ItemV>, Seq<ItemV>)>,
) -> Seq<BlockV> {
    module_test_head(test_name) + Seq::new(cases.len(), |k: int| expect_v(cases[k], results[k].0, results[k].1))
}

/// Whether `r` is the compiled module test for the compiler's outcome `out`:
/// the compiler's templates followed by the test function `test_fn`, its
/// error, or `None` where the compiler stops short.
pub open spec fn is_module_test(
    r: Option<DFWasmResult<CompiledModuleTest>>,
    out: Option<Result<Seq<Seq<BlockV>>, ErrV>>,
    test_name: Seq<char>,
    test_fn: Seq<BlockV>,
) -> bool {
    match out {
        None => r is None,
        Some(Err(e)) => r matches Some(Err(x)) && x@ == e,
        Some(Ok(ts)) => r matches Some(Ok(t)) && t.main_function_name@ == "test_"@ + test_name
            && templates_view(t.templates@) == ts.push(test_fn),
    }
}

/// Compiles a module under test with its test cases: the module's templates
/// (see [`DFWasmCompiler::compile_wasm`]), then the test function, which
/// compares each case's results with `results`, the number items of the
/// case's arguments and expected results. `None` where the compiler stops
/// short.
pub fn compile_module(
    test_name: &str,
    wasm: &[u8],
    cases: &Vec<TestCase>,
    results: Vec<(Vec<Item>, Vec<Item>)>,
) -> (r: Option<DFWasmResult<CompiledModuleTest>>)
    requires
        results@.len() == cases@.len(),
    ensures
        exists|sections: Seq<Section>, error: Option<BinaryReaderError>|
            read_from(wasm@, sections, error) && is_module_test(
                r,
                #[trigger] compile_outcome(test_options_v(test_name@), sections, error),
                test_name@,
                test_function_v(
                    test_name@,
                    cases@.map_values(|c: TestCase| c@),
                    results@.map_values(|p: (Vec<Item>, Vec<Item>)| (items_view(p.0@), items_view(p.1@))),
                ),
            ),
{
    let mut module_function = module_test_function(test_name);
    let ghost tf = test_function_v(
        test_name@,
        cases@.map_values(|c: TestCase| c@),
        results@.map_values(|p: (Vec<Item>, Vec<Item>)| (items_view(p.0@), items_view(p.1@))),
    );
    let options = test_compiler_options(test_name);
    let compiled = DFWasmCompiler::compile_wasm(wasm, options);
    let ghost (sections, error) = choose|sections: Seq<Section>, error: Option<BinaryReaderError>|
        read_from(wasm@, sections, error) && is_outcome(
            compiled,
            #[trigger] compile_outcome(test_options_v(test_name@), sections, error),
        );
    let ghost out = compile_outcome(test_options_v(test_name@), sections, error);
    let mut templates = match compiled {
        None => {
            assert(is_module_test(None, out, test_name@, tf));
            return None;
        },
        Some(Err(e)) => {
            assert(is_module_test(Some(Err(e)), out, test_name@, tf));
            return Some(Err(e));
        },
        Some(Ok(t)) => t,
    };
    let ghost rv = results@;
    let ghost head = module_function@;
    let ghost t0 = templates@;
    let mut results = results;
    let mut i: usize = 0;
    while i < cases.len()
        invariant
            i <= cases@.len(),
            results@.len() == cases@.len(),
            forall|j: int| i <= j < rv.len() ==> results@[j] == rv[j],
            rv.len() == cases@.len(),
            module_function@ == head + Seq::new(
                i as nat,
                |k: int| expect_v(cases@[k]@, items_view(rv[k].0@), items_view(rv[k].1@)),
            ),
        decreases cases.len() - i,
    {
        let (inputs, expected) = crate::sections::take_item(&mut results, i, (Vec::new(), Vec::new()));
        compile_test_case(&mut module_function, &cases[i], inputs, expected);
        i = i + 1;
        assert(module_function@ =~= head + Seq::new(
            i as nat,
            |k: int| expect_v(cases@[k]@, items_view(rv[k].0@), items_view(rv[k].1@)),
        ));
    }
    assert(module_function@ =~= tf);
    let mut name: Vec<char> = chars_of("test_");
    push_str(&mut name, test_name);
    templates.push(module_function);
    assert(templates_view(templates@) =~= templates_view(t0).push(tf));
    let r = Some(Ok(CompiledModuleTest { main_function_name: string_of(&name), templates }));
    assert(is_module_test(r, out, test_name@, tf));
    r
}


/// The chunk of at most 26 test function names from `i` on, appended to the
/// list of test functions by one block.
pub open spec fn name_chunk(names: Seq<Seq<char>>, i: int) -> BlockV {
    let end = if i + 26 < names.len() { i + 26 } else { names.len() as int };
    crate::operators::memory::set_v(
        "AppendValue"@,
        seq![var_v("test_functions"@)] + names.subrange(i, end).map_values(|n: Seq<char>| str_v(n)),
    )
}

/// The blocks that list the test function names from `i` on, 26 per block.
pub open spec fn name_chunks(names: Seq<Seq<char>>, i: int) -> Seq<BlockV>
    decreases if i < names.len() { names.len() - i } else { 0 },
{
    if i < 0 || i >= names.len() {
        Seq::empty()
    } else {
        seq![name_chunk(names, i)] + name_chunks(names, i + 26)
    }
}

/// The root test function `wasm.test`: it lists the test functions, then
/// calls each in turn, waiting a tick after each.
pub open spec fn root_v(names: Seq<Seq<char>>) -> Seq<BlockV> {
    seq![BlockV::Function { args: Seq::empty(), name: "wasm.test"@ }] + name_chunks(names, 0) + seq![
        BlockV::Repeat {
            args: slotted(seq![var_v("test_function"@), var_v("test_functions"@)]),
            action: "ForEach"@,
            sub_action: None,
            is_negated: false,
        },
        open_repeat_v(),
        BlockV::CallFunction { args: Seq::empty(), func: "%var(test_function)"@ },
        BlockV::Control {
            args: slotted(seq![num_v("1"@)]) + slotted_at_end(
                seq![tag_v("Ticks"@, "Time Unit"@, "Wait"@, CodeBlock::Control)],
            ),
            action: "Wait"@,
        },
        close_repeat_v(),
    ]
}

/// The templates of the module tests, one test after the other.
pub open spec fn flat_templates(tests: Seq<CompiledModuleTest>) -> Seq<Seq<BlockV>>
    decreases tests.len(),
{
    if tests.len() == 0 {
        Seq::empty()
    } else {
        flat_templates(tests.drop_last()) + templates_view(tests.last().templates@)
    }
}

/// The names of the test functions of the module tests.
pub open spec fn test_names(tests: Seq<CompiledModuleTest>) -> Seq<Seq<char>> {
    tests.map_values(|t: CompiledModuleTest| t.main_function_name@)
}

/// Builds the root test function and gathers all templates after it, split
/// to the test plot size; `None` where splitting stops short.
pub fn create_root_template(module_tests: Vec<CompiledModuleTest>) -> (r: Option<Vec<Template>>)
    ensures
        match spec_split_templates(
            seq![root_v(test_names(module_tests@))] + flat_templates(module_tests@),
            PLOT_SIZE as nat,
        ) {
            Some(t) => r matches Some(v) && templates_view(v@) == t,
            None => r is None,
        },
{
    let ghost names = test_names(module_tests@);
    let mut root = Template::start_function("wasm.test");
    let ghost head = root@;
    let ghost mut acc: Seq<BlockV> = Seq::empty();
    let n = module_tests.len();
    let mut i: usize = 0;
    while i < n
        invariant
            n == module_tests@.len(),
            names == test_names(module_tests@),
            i <= n || i == 0,
            root@ == head + acc,
            acc + name_chunks(names, i as int) == name_chunks(names, 0),
        decreases n - i,
    {
        let end = if n - i > 26 {
            i + 26
        } else {
            n
        };
        let mut args: Vec<Item> = Vec::new();
        args.push(Item::var("test_functions"));
        let mut k: usize = i;
        while k < end
            invariant
                i <= k <= end <= n,
                n == module_tests@.len(),
                names == test_names(module_tests@),
                items_view(args@) == seq![var_v("test_functions"@)] + names.subrange(i as int, k as int).map_values(
                    |m: Seq<char>| str_v(m),
                ),
            decreases end - k,
        {
            let ghost prev = items_view(args@);
            let item = Item::string(module_tests[k].main_function_name.as_str());
            assert(item@ == str_v(names[k as int]));
            args.push(item);
            k = k + 1;
            assert(items_view(args@) =~= prev.push(str_v(names[k - 1])));
            assert(names.subrange(i as int, k as int).map_values(|m: Seq<char>| str_v(m)) =~= names.subrange(
                i as int,
                k - 1,
            ).map_values(|m: Seq<char>| str_v(m)).push(str_v(names[k - 1])));
            assert(items_view(args@) =~= seq![var_v("test_functions"@)] + names.subrange(i as int, k as int).map_values(
                |m: Seq<char>| str_v(m),
            ));
        }
        root.set_var("AppendValue", Args::with(args));
        proof {
            let c = name_chunk(names, i as int);
            assert(name_chunks(names, i as int) == seq![c] + name_chunks(names, i + 26));
            acc = acc.push(c);
            assert(acc.drop_last() + (seq![c] + name_chunks(names, i + 26)) =~= acc + name_chunks(names, i + 26));
        }
        i = end;
        proof {
            if i < i + 26 && i == n {
                assert(name_chunks(names, i as int) == Seq::<BlockV>::empty());
            }
        }
    }
    let mut for_each: Vec<Item> = Vec::new();
    for_each.push(Item::var("test_function"));
    for_each.push(Item::var("test_functions"));
    assert(items_view(for_each@) =~= seq![var_v("test_function"@), var_v("test_functions"@)]);
    let mut wait: Vec<Item> = Vec::new();
    wait.push(Item::num("1"));
    let mut ticks: Vec<Item> = Vec::new();
    ticks.push(
        Item::Tag { option: owned("Ticks"), tag: owned("Time Unit"), action: owned("Wait"), block: CodeBlock::Control },
    );
    assert(at_most(items_view(wait@), 28) =~= seq![num_v("1"@)]);
    assert(items_view(ticks@) =~= seq![tag_v("Ticks"@, "Time Unit"@, "Wait"@, CodeBlock::Control)]);
    root.repeat("ForEach", Args::with(for_each)).open_bracket_repeat().call_function(
        "%var(test_function)",
        Args::default(),
    ).control("Wait", Args::with_tags(wait, ticks)).close_bracket_repeat();
    proof {
        assert(name_chunks(names, i as int) == Seq::<BlockV>::empty());
        assert(acc =~= name_chunks(names, 0));
        assert(root@ =~= root_v(names));
    }
    let mut templates: Vec<Template> = Vec::new();
    templates.push(root);
    let ghost first = templates_view(templates@);
    let ghost tv = module_tests@;
    let mut tests = module_tests;
    let mut j: usize = 0;
    while j < tests.len()
        invariant
            j <= tv.len(),
            tests@.len() == tv.len(),
            forall|m: int| j <= m < tv.len() ==> tests@[m] == tv[m],
            templates_view(templates@) == first + flat_templates(tv.take(j as int)),
        decreases tv.len() - j,
    {
        let t = crate::sections::take_item(
            &mut tests,
            j,
            CompiledModuleTest { main_function_name: String::new(), templates: Vec::new() },
        );
        let ghost prev = templates_view(templates@);
        let ghost add = templates_view(t.templates@);
        let mut more = t.templates;
        templates.append(&mut more);
        j = j + 1;
        proof {
            assert(tv.take(j as int).drop_last() =~= tv.take(j - 1));
            assert(templates_view(templates@) =~= prev + add);
        }
    }
    proof {
        assert(tv.take(tv.len() as int) =~= tv);
        assert(first =~= seq![root_v(names)]);
    }
    try_split_templates(templates, PLOT_SIZE)
}

} // verus!
