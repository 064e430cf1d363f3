//! Tests of the integer instructions: each exports a function that runs
//! the instruction on its parameters.
use vstd::prelude::*;
use super::{Type, TestFile, TestFileV, cases_view, case_lines, join, push_case_lines, type_text};
use crate::text::{chars_of, owned, push_str, replace_char, replace_chars, string_of};

verus! {

/// An instruction with its parameter and result types.
pub type Instruction<'a> = (&'a str, Vec<Type>, Vec<Type>);

/// The value of an instruction.
pub open spec fn instruction_view(i: Instruction) -> (Seq<char>, Seq<Type>, Seq<Type>) {
    (i.0@, i.1@, i.2@)
}

/// The texts of types joined by spaces.
pub open spec fn types_text(types: Seq<Type>) -> Seq<char> {
    join(types.map_values(|t: Type| type_text(t)), " "@)
}

/// The test of an instruction taking one or two parameters: its function
/// runs `(local.get 0) (local.get 1) (<instruction>)`; each case passes as
/// many arguments as there are parameters, the lines following each other
/// with no line break.
pub open spec fn instruction_test_v(name: Seq<char>, params: Seq<Type>, results: Seq<Type>, tests: Seq<Seq<Seq<char>>>) -> TestFileV {
    let function_name = replace_char(name, '.', '_');
    let module_name = "single-"@ + function_name;
    let signature = "(params "@ + types_text(params) + ") (result "@ + types_text(results) + ")"@;
    let body = "(local.get 0) (local.get 1) ("@ + name + ")"@;
    TestFileV {
        directory: "wat_single"@,
        subdirectory: "arithmetic"@,
        base_name: module_name,
        wat: "(module $"@ + module_name + "\n\n    (func $"@ + function_name + " "@ + signature + "\n        "@ + body
            + "\n    )\n\n    (export \""@ + function_name + "\" (func $"@ + function_name + "))\n)"@,
        cases: case_lines(function_name, tests, params.len(), "\n"@),
    }
}

fn push_types(out: &mut Vec<char>, types: &Vec<Type>)
    ensures
        final(out)@ == old(out)@ + types_text(types@),
{
    let ghost o = old(out)@;
    let ghost all = types@.map_values(|t: Type| type_text(t));
    let mut i: usize = 0;
    while i < types.len()
        invariant
            i <= types@.len(),
            all == types@.map_values(|t: Type| type_text(t)),
            out@ == o + join(all.take(i as int), " "@),
        decreases types.len() - i,
    {
        if i > 0 {
            push_str(out, " ");
        }
        let t = types[i].to_string();
        push_str(out, t.as_str());
        i = i + 1;
        proof {
            assert(all.take(i as int).drop_last() =~= all.take(i - 1));
            if i == 1 {
                assert(all.take(1) =~= seq![all[0]]);
            }
        }
    }
    assert(all.take(types@.len() as int) =~= all);
}

/// Builds the test of an instruction (see [`instruction_test_v`]).
pub fn build_instruction_test(instruction: &Instruction, tests: &Vec<Vec<String>>) -> (r: TestFile)
    requires
        instruction.1@.len() == 1 || instruction.1@.len() == 2,
    ensures
        r@ == instruction_test_v(instruction.0@, instruction.1@, instruction.2@, cases_view(tests@)),
{
    let function_name = string_of(&replace_chars(&chars_of(instruction.0), '.', '_'));
    let mut module_name: Vec<char> = chars_of("single-");
    push_str(&mut module_name, function_name.as_str());
    let module_name = string_of(&module_name);
    let mut wat: Vec<char> = chars_of("(module $");
    push_str(&mut wat, module_name.as_str());
    push_str(&mut wat, "\n\n    (func $");
    push_str(&mut wat, function_name.as_str());
    push_str(&mut wat, " ");
    push_str(&mut wat, "(params ");
    push_types(&mut wat, &instruction.1);
    push_str(&mut wat, ") (result ");
    push_types(&mut wat, &instruction.2);
    push_str(&mut wat, ")");
    push_str(&mut wat, "\n        ");
    push_str(&mut wat, "(local.get 0) (local.get 1) (");
    push_str(&mut wat, instruction.0);
    push_str(&mut wat, ")");
    push_str(&mut wat, "\n    )\n\n    (export \"");
    push_str(&mut wat, function_name.as_str());
    push_str(&mut wat, "\" (func $");
    push_str(&mut wat, function_name.as_str());
    push_str(&mut wat, "))\n)");
    let mut cases: Vec<char> = Vec::new();
    push_case_lines(&mut cases, function_name.as_str(), tests, instruction.1.len(), "\n");
    let ghost name = instruction.0@;
    let ghost fname = function_name@;
    proof {
        let sig = "(params "@ + types_text(instruction.1@) + ") (result "@ + types_text(instruction.2@) + ")"@;
        let body = "(local.get 0) (local.get 1) ("@ + name + ")"@;
        assert(wat@ =~= "(module $"@ + module_name@ + "\n\n    (func $"@ + fname + " "@ + sig + "\n        "@ + body
            + "\n    )\n\n    (export \""@ + fname + "\" (func $"@ + fname + "))\n)"@);
        reveal_strlit("");
        assert(""@ =~= Seq::<char>::empty());
        assert(cases@ =~= case_lines(fname, cases_view(tests@), instruction.1@.len(), "\n"@));
    }
    TestFile {
        directory: owned("wat_single"),
        subdirectory: owned("arithmetic"),
        base_name: module_name,
        wat: string_of(&wat),
        cases: string_of(&cases),
    }
}

/// The 32-bit instructions tested.
pub open spec fn i32_instructions() -> Seq<(Seq<char>, Seq<Type>, Seq<Type>)> {
    seq![
        ("i32.add"@, seq![Type::I32, Type::I32], seq![Type::I32]),
        ("i32.sub"@, seq![Type::I32, Type::I32], seq![Type::I32]),
        ("i32.mul"@, seq![Type::I32, Type::I32], seq![Type::I32]),
        ("i32.div_s"@, seq![Type::I32, Type::I32], seq![Type::I32]),
        ("i32.div_u"@, seq![Type::I32, Type::I32], seq![Type::I32]),
        ("i32.rem_s"@, seq![Type::I32, Type::I32], seq![Type::I32]),
        ("i32.rem_u"@, seq![Type::I32, Type::I32], seq![Type::I32]),
        ("i32.and"@, seq![Type::I32, Type::I32], seq![Type::I32]),
        ("i32.or"@, seq![Type::I32, Type::I32], seq![Type::I32]),
        ("i32.xor"@, seq![Type::I32, Type::I32], seq![Type::I32]),
        ("i32.shl"@, seq![Type::I32, Type::I32], seq![Type::I32]),
        ("i32.shr_s"@, seq![Type::I32, Type::I32], seq![Type::I32]),
        ("i32.shr_u"@, seq![Type::I32, Type::I32], seq![Type::I32]),
        ("i32.rotl"@, seq![Type::I32, Type::I32], seq![Type::I32]),
        ("i32.rotr"@, seq![Type::I32, Type::I32], seq![Type::I32]),
        ("i32.clz"@, seq![Type::I32], seq![Type::I32]),
        ("i32.ctz"@, seq![Type::I32], seq![Type::I32]),
        ("i32.popcnt"@, seq![Type::I32], seq![Type::I32]),
        ("i32.eqz"@, seq![Type::I32], seq![Type::I32]),
        ("i32.eq"@, seq![Type::I32, Type::I32], seq![Type::I32]),
        ("i32.ne"@, seq![Type::I32, Type::I32], seq![Type::I32]),
        ("i32.lt_s"@, seq![Type::I32, Type::I32], seq![Type::I32]),
        ("i32.lt_u"@, seq![Type::I32, Type::I32], seq![Type::I32]),
        ("i32.gt_s"@, seq![Type::I32, Type::I32], seq![Type::I32]),
        ("i32.gt_u"@, seq![Type::I32, Type::I32], seq![Type::I32]),
        ("i32.le_s"@, seq![Type::I32, Type::I32], seq![Type::I32]),
        ("i32.le_u"@, seq![Type::I32, Type::I32], seq![Type::I32]),
        ("i32.ge_s"@, seq![Type::I32, Type::I32], seq![Type::I32]),
        ("i32.ge_u"@, seq![Type::I32, Type::I32], seq![Type::I32]),
        ("i64.extend_i32_s"@, seq![Type::I32], seq![Type::I64]),
        ("i64.extend_i32_u"@, seq![Type::I32], seq![Type::I64]),
        ("i32.extend8_s"@, seq![Type::I32], seq![Type::I32]),
        ("i32.extend16_s"@, seq![Type::I32], seq![Type::I32]),
    ]
}

/// The 64-bit instructions tested.
pub open spec fn i64_instructions() -> Seq<(Seq<char>, Seq<Type>, Seq<Type>)> {
    seq![
        ("i64.add"@, seq![Type::I64, Type::I64], seq![Type::I64]),
        ("i64.sub"@, seq![Type::I64, Type::I64], seq![Type::I64]),
        ("i64.mul"@, seq![Type::I64, Type::I64], seq![Type::I64]),
        ("i64.div_s"@, seq![Type::I64, Type::I64], seq![Type::I64]),
        ("i64.div_u"@, seq![Type::I64, Type::I64], seq![Type::I64]),
        ("i64.rem_s"@, seq![Type::I64, Type::I64], seq![Type::I64]),
        ("i64.rem_u"@, seq![Type::I64, Type::I64], seq![Type::I64]),
        ("i64.and"@, seq![Type::I64, Type::I64], seq![Type::I64]),
        ("i64.or"@, seq![Type::I64, Type::I64], seq![Type::I64]),
        ("i64.xor"@, seq![Type::I64, Type::I64], seq![Type::I64]),
        ("i64.shl"@, seq![Type::I64, Type::I64], seq![Type::I64]),
        ("i64.shr_s"@, seq![Type::I64, Type::I64], seq![Type::I64]),
        ("i64.shr_u"@, seq![Type::I64, Type::I64], seq![Type::I64]),
        ("i64.rotl"@, seq![Type::I64, Type::I64], seq![Type::I64]),
        ("i64.rotr"@, seq![Type::I64, Type::I64], seq![Type::I64]),
        ("i64.clz"@, seq![Type::I64], seq![Type::I64]),
        ("i64.ctz"@, seq![Type::I64], seq![Type::I64]),
        ("i64.popcnt"@, seq![Type::I64], seq![Type::I64]),
        ("i64.eqz"@, seq![Type::I64], seq![Type::I32]),
        ("i64.eq"@, seq![Type::I64, Type::I64], seq![Type::I64]),
        ("i64.ne"@, seq![Type::I64, Type::I64], seq![Type::I64]),
        ("i64.lt_s"@, seq![Type::I64, Type::I64], seq![Type::I64]),
        ("i64.lt_u"@, seq![Type::I64, Type::I64], seq![Type::I64]),
        ("i64.gt_s"@, seq![Type::I64, Type::I64], seq![Type::I64]),
        ("i64.gt_u"@, seq![Type::I64, Type::I64], seq![Type::I64]),
        ("i64.le_s"@, seq![Type::I64, Type::I64], seq![Type::I64]),
        ("i64.le_u"@, seq![Type::I64, Type::I64], seq![Type::I64]),
        ("i64.ge_s"@, seq![Type::I64, Type::I64], seq![Type::I64]),
        ("i64.ge_u"@, seq![Type::I64, Type::I64], seq![Type::I64]),
        ("i32.wrap_i64"@, seq![Type::I32], seq![Type::I32]),
        ("i64.extend8_s"@, seq![Type::I64], seq![Type::I64]),
        ("i64.extend16_s"@, seq![Type::I64], seq![Type::I64]),
        ("i64.extend32_s"@, seq![Type::I64], seq![Type::I64]),
    ]
}

/// The tests of a table of instructions: each with the cases `one` when it
/// takes one parameter and `two` when it takes two.
pub open spec fn instruction_tests_v(
    table: Seq<(Seq<char>, Seq<Type>, Seq<Type>)>,
    one: Seq<Seq<Seq<char>>>,
    two: Seq<Seq<Seq<char>>>,
) -> Seq<TestFileV> {
    table.map_values(
        |x: (Seq<char>, Seq<Type>, Seq<Type>)|
            instruction_test_v(x.0, x.1, x.2, if x.1.len() == 2 { two } else { one }),
    )
}

/// Builds the tests of a table of instructions (see [`instruction_tests_v`]).
fn build_table(table: &Vec<Instruction>, one: &Vec<Vec<String>>, two: &Vec<Vec<String>>) -> (r: Vec<TestFile>)
    requires
        forall|k: int| 0 <= k < table@.len() ==> #[trigger] table@[k].1@.len() == 1 || table@[k].1@.len() == 2,
    ensures
        r@.map_values(|f: TestFile| f@) == instruction_tests_v(
            table@.map_values(|i: Instruction| instruction_view(i)),
            cases_view(one@),
            cases_view(two@),
        ),
{
    let ghost tv = table@.map_values(|i: Instruction| instruction_view(i));
    let ghost (c1, c2) = (cases_view(one@), cases_view(two@));
    let mut out: Vec<TestFile> = Vec::new();
    let mut i: usize = 0;
    while i < table.len()
        invariant
            i <= table@.len(),
            tv == table@.map_values(|i: Instruction| instruction_view(i)),
            c1 == cases_view(one@),
            c2 == cases_view(two@),
            forall|k: int| 0 <= k < table@.len() ==> #[trigger] table@[k].1@.len() == 1 || table@[k].1@.len() == 2,
            out@.map_values(|f: TestFile| f@) == instruction_tests_v(tv.take(i as int), c1, c2),
        decreases table.len() - i,
    {
        let tests = if table[i].1.len() == 2 {
            two
        } else {
            one
        };
        let f = build_instruction_test(&table[i], tests);
        let ghost prev = out@.map_values(|f: TestFile| f@);
        let ghost fv = f@;
        out.push(f);
        i = i + 1;
        proof {
            assert(tv[i - 1] == instruction_view(table@[i - 1]));
            assert(out@.map_values(|f: TestFile| f@) =~= prev.push(fv));
            assert(instruction_tests_v(tv.take(i as int), c1, c2) =~= instruction_tests_v(tv.take(i - 1), c1, c2).push(fv));
        }
    }
    assert(tv.take(table@.len() as int) =~= tv);
    out
}

/// Builds the tests of the 32-bit instructions, each with the cases `i32_1`
/// (also for the instructions taking two parameters, which take the first two
/// values of each case).
pub fn build_i32(i32_1: &Vec<Vec<String>>) -> (r: Vec<TestFile>)
    ensures
        r@.map_values(|f: TestFile| f@) == instruction_tests_v(i32_instructions(), cases_view(i32_1@), cases_view(i32_1@)),
{
    let table: Vec<Instruction> = vec![
        ("i32.add", vec![Type::I32, Type::I32], vec![Type::I32]),
        ("i32.sub", vec![Type::I32, Type::I32], vec![Type::I32]),
        ("i32.mul", vec![Type::I32, Type::I32], vec![Type::I32]),
        ("i32.div_s", vec![Type::I32, Type::I32], vec![Type::I32]),
        ("i32.div_u", vec![Type::I32, Type::I32], vec![Type::I32]),
        ("i32.rem_s", vec![Type::I32, Type::I32], vec![Type::I32]),
        ("i32.rem_u", vec![Type::I32, Type::I32], vec![Type::I32]),
        ("i32.and", vec![Type::I32, Type::I32], vec![Type::I32]),
        ("i32.or", vec![Type::I32, Type::I32], vec![Type::I32]),
        ("i32.xor", vec![Type::I32, Type::I32], vec![Type::I32]),
        ("i32.shl", vec![Type::I32, Type::I32], vec![Type::I32]),
        ("i32.shr_s", vec![Type::I32, Type::I32], vec![Type::I32]),
        ("i32.shr_u", vec![Type::I32, Type::I32], vec![Type::I32]),
        ("i32.rotl", vec![Type::I32, Type::I32], vec![Type::I32]),
        ("i32.rotr", vec![Type::I32, Type::I32], vec![Type::I32]),
        ("i32.clz", vec![Type::I32], vec![Type::I32]),
        ("i32.ctz", vec![Type::I32], vec![Type::I32]),
        ("i32.popcnt", vec![Type::I32], vec![Type::I32]),
        ("i32.eqz", vec![Type::I32], vec![Type::I32]),
        ("i32.eq", vec![Type::I32, Type::I32], vec![Type::I32]),
        ("i32.ne", vec![Type::I32, Type::I32], vec![Type::I32]),
        ("i32.lt_s", vec![Type::I32, Type::I32], vec![Type::I32]),
        ("i32.lt_u", vec![Type::I32, Type::I32], vec![Type::I32]),
        ("i32.gt_s", vec![Type::I32, Type::I32], vec![Type::I32]),
        ("i32.gt_u", vec![Type::I32, Type::I32], vec![Type::I32]),
        ("i32.le_s", vec![Type::I32, Type::I32], vec![Type::I32]),
        ("i32.le_u", vec![Type::I32, Type::I32], vec![Type::I32]),
        ("i32.ge_s", vec![Type::I32, Type::I32], vec![Type::I32]),
        ("i32.ge_u", vec![Type::I32, Type::I32], vec![Type::I32]),
        ("i64.extend_i32_s", vec![Type::I32], vec![Type::I64]),
        ("i64.extend_i32_u", vec![Type::I32], vec![Type::I64]),
        ("i32.extend8_s", vec![Type::I32], vec![Type::I32]),
        ("i32.extend16_s", vec![Type::I32], vec![Type::I32]),
    ];
    assert(instruction_view(table@[0]) == i32_instructions()[0]);
    assert(instruction_view(table@[1]) == i32_instructions()[1]);
    assert(instruction_view(table@[2]) == i32_instructions()[2]);
    assert(instruction_view(table@[3]) == i32_instructions()[3]);
    assert(instruction_view(table@[4]) == i32_instructions()[4]);
    assert(instruction_view(table@[5]) == i32_instructions()[5]);
    assert(instruction_view(table@[6]) == i32_instructions()[6]);
    assert(instruction_view(table@[7]) == i32_instructions()[7]);
    assert(instruction_view(table@[8]) == i32_instructions()[8]);
    assert(instruction_view(table@[9]) == i32_instructions()[9]);
    assert(instruction_view(table@[10]) == i32_instructions()[10]);
    assert(instruction_view(table@[11]) == i32_instructions()[11]);
    assert(instruction_view(table@[12]) == i32_instructions()[12]);
    assert(instruction_view(table@[13]) == i32_instructions()[13]);
    assert(instruction_view(table@[14]) == i32_instructions()[14]);
    assert(instruction_view(table@[15]) == i32_instructions()[15]);
    assert(instruction_view(table@[16]) == i32_instructions()[16]);
    assert(instruction_view(table@[17]) == i32_instructions()[17]);
    assert(instruction_view(table@[18]) == i32_instructions()[18]);
    assert(instruction_view(table@[19]) == i32_instructions()[19]);
    assert(instruction_view(table@[20]) == i32_instructions()[20]);
    assert(instruction_view(table@[21]) == i32_instructions()[21]);
    assert(instruction_view(table@[22]) == i32_instructions()[22]);
    assert(instruction_view(table@[23]) == i32_instructions()[23]);
    assert(instruction_view(table@[24]) == i32_instructions()[24]);
    assert(instruction_view(table@[25]) == i32_instructions()[25]);
    assert(instruction_view(table@[26]) == i32_instructions()[26]);
    assert(instruction_view(table@[27]) == i32_instructions()[27]);
    assert(instruction_view(table@[28]) == i32_instructions()[28]);
    assert(instruction_view(table@[29]) == i32_instructions()[29]);
    assert(instruction_view(table@[30]) == i32_instructions()[30]);
    assert(instruction_view(table@[31]) == i32_instructions()[31]);
    assert(instruction_view(table@[32]) == i32_instructions()[32]);
    assert(table@.map_values(|i: Instruction| instruction_view(i)) =~= i32_instructions());
    build_table(&table, i32_1, i32_1)
}

/// Builds the tests of the 64-bit instructions: with the cases `i64_2` for
/// the instructions taking two parameters and `i64_1` for the others.
pub fn build_i64(i64_1: &Vec<Vec<String>>, i64_2: &Vec<Vec<String>>) -> (r: Vec<TestFile>)
    ensures
        r@.map_values(|f: TestFile| f@) == instruction_tests_v(i64_instructions(), cases_view(i64_1@), cases_view(i64_2@)),
{
    let table: Vec<Instruction> = vec![
        ("i64.add", vec![Type::I64, Type::I64], vec![Type::I64]),
        ("i64.sub", vec![Type::I64, Type::I64], vec![Type::I64]),
        ("i64.mul", vec![Type::I64, Type::I64], vec![Type::I64]),
        ("i64.div_s", vec![Type::I64, Type::I64], vec![Type::I64]),
        ("i64.div_u", vec![Type::I64, Type::I64], vec![Type::I64]),
        ("i64.rem_s", vec![Type::I64, Type::I64], vec![Type::I64]),
        ("i64.rem_u", vec![Type::I64, Type::I64], vec![Type::I64]),
        ("i64.and", vec![Type::I64, Type::I64], vec![Type::I64]),
        ("i64.or", vec![Type::I64, Type::I64], vec![Type::I64]),
        ("i64.xor", vec![Type::I64, Type::I64], vec![Type::I64]),
        ("i64.shl", vec![Type::I64, Type::I64], vec![Type::I64]),
        ("i64.shr_s", vec![Type::I64, Type::I64], vec![Type::I64]),
        ("i64.shr_u", vec![Type::I64, Type::I64], vec![Type::I64]),
        ("i64.rotl", vec![Type::I64, Type::I64], vec![Type::I64]),
        ("i64.rotr", vec![Type::I64, Type::I64], vec![Type::I64]),
        ("i64.clz", vec![Type::I64], vec![Type::I64]),
        ("i64.ctz", vec![Type::I64], vec![Type::I64]),
        ("i64.popcnt", vec![Type::I64], vec![Type::I64]),
        ("i64.eqz", vec![Type::I64], vec![Type::I32]),
        ("i64.eq", vec![Type::I64, Type::I64], vec![Type::I64]),
        ("i64.ne", vec![Type::I64, Type::I64], vec![Type::I64]),
        ("i64.lt_s", vec![Type::I64, Type::I64], vec![Type::I64]),
        ("i64.lt_u", vec![Type::I64, Type::I64], vec![Type::I64]),
        ("i64.gt_s", vec![Type::I64, Type::I64], vec![Type::I64]),
        ("i64.gt_u", vec![Type::I64, Type::I64], vec![Type::I64]),
        ("i64.le_s", vec![Type::I64, Type::I64], vec![Type::I64]),
        ("i64.le_u", vec![Type::I64, Type::I64], vec![Type::I64]),
        ("i64.ge_s", vec![Type::I64, Type::I64], vec![Type::I64]),
        ("i64.ge_u", vec![Type::I64, Type::I64], vec![Type::I64]),
        ("i32.wrap_i64", vec![Type::I32], vec![Type::I32]),
        ("i64.extend8_s", vec![Type::I64], vec![Type::I64]),
        ("i64.extend16_s", vec![Type::I64], vec![Type::I64]),
        ("i64.extend32_s", vec![Type::I64], vec![Type::I64]),
    ];
    assert(instruction_view(table@[0]) == i64_instructions()[0]);
    assert(instruction_view(table@[1]) == i64_instructions()[1]);
    assert(instruction_view(table@[2]) == i64_instructions()[2]);
    assert(instruction_view(table@[3]) == i64_instructions()[3]);
    assert(instruction_view(table@[4]) == i64_instructions()[4]);
    assert(instruction_view(table@[5]) == i64_instructions()[5]);
    assert(instruction_view(table@[6]) == i64_instructions()[6]);
    assert(instruction_view(table@[7]) == i64_instructions()[7]);
    assert(instruction_view(table@[8]) == i64_instructions()[8]);
    assert(instruction_view(table@[9]) == i64_instructions()[9]);
    assert(instruction_view(table@[10]) == i64_instructions()[10]);
    assert(instruction_view(table@[11]) == i64_instructions()[11]);
    assert(instruction_view(table@[12]) == i64_instructions()[12]);
    assert(instruction_view(table@[13]) == i64_instructions()[13]);
    assert(instruction_view(table@[14]) == i64_instructions()[14]);
    assert(instruction_view(table@[15]) == i64_instructions()[15]);
    assert(instruction_view(table@[16]) == i64_instructions()[16]);
    assert(instruction_view(table@[17]) == i64_instructions()[17]);
    assert(instruction_view(table@[18]) == i64_instructions()[18]);
    assert(instruction_view(table@[19]) == i64_instructions()[19]);
    assert(instruction_view(table@[20]) == i64_instructions()[20]);
    assert(instruction_view(table@[21]) == i64_instructions()[21]);
    assert(instruction_view(table@[22]) == i64_instructions()[22]);
    assert(instruction_view(table@[23]) == i64_instructions()[23]);
    assert(instruction_view(table@[24]) == i64_instructions()[24]);
    assert(instruction_view(table@[25]) == i64_instructions()[25]);
    assert(instruction_view(table@[26]) == i64_instructions()[26]);
    assert(instruction_view(table@[27]) == i64_instructions()[27]);
    assert(instruction_view(table@[28]) == i64_instructions()[28]);
    assert(instruction_view(table@[29]) == i64_instructions()[29]);
    assert(instruction_view(table@[30]) == i64_instructions()[30]);
    assert(instruction_view(table@[31]) == i64_instructions()[31]);
    assert(instruction_view(table@[32]) == i64_instructions()[32]);
    assert(table@.map_values(|i: Instruction| instruction_view(i)) =~= i64_instructions());
    build_table(&table, i64_1, i64_2)
}

/// Builds the tests of the integer instructions: the 32-bit ones, then the 64-bit ones.
pub fn build(i32_1: &Vec<Vec<String>>, i64_1: &Vec<Vec<String>>, i64_2: &Vec<Vec<String>>) -> (r: Vec<TestFile>)
    ensures
        r@.map_values(|f: TestFile| f@) == instruction_tests_v(i32_instructions(), cases_view(i32_1@), cases_view(i32_1@))
            + instruction_tests_v(i64_instructions(), cases_view(i64_1@), cases_view(i64_2@)),
{
    let mut a = build_i32(i32_1);
    let mut b = build_i64(i64_1, i64_2);
    let ghost (av, bv) = (a@.map_values(|f: TestFile| f@), b@.map_values(|f: TestFile| f@));
    a.append(&mut b);
    assert(a@.map_values(|f: TestFile| f@) =~= av + bv);
    a
}

} // verus!
