//! Generating single-instruction test modules: for each instruction a
//! WebAssembly text module that exports one function running it, and a file
//! of test cases, one call of that function per case.
use vstd::prelude::*;
use crate::template::at_most;
use crate::runner::{blank, is_blank, lines_of, text_lines, text_words, words_of};
use crate::text::{chars_of, push_str, string_of};

pub mod arithmetic;
pub mod memory;

verus! {

/// A value type of the generated functions.
#[derive(Debug, Clone, Copy, PartialEq, Eq, Structural)]
pub enum Type {
    I32,
    I64,
}

/// The text of a value type.
pub open spec fn type_text(t: Type) -> Seq<char> {
    match t {
        Type::I32 => "i32"@,
        Type::I64 => "i64"@,
    }
}

impl Type {
    /// The text of the type: `i32` or `i64`.
    pub fn to_string(&self) -> (r: String)
        ensures
            r@ == type_text(*self),
    {
        match self {
            Type::I32 => crate::text::owned("i32"),
            Type::I64 => crate::text::owned("i64"),
        }
    }
}

/// A generated test: where it goes, its module's text and its cases' text.
pub struct TestFile {
    pub directory: String,
    pub subdirectory: String,
    pub base_name: String,
    pub wat: String,
    pub cases: String,
}

/// The value of a generated test.
pub struct TestFileV {
    pub directory: Seq<char>,
    pub subdirectory: Seq<char>,
    pub base_name: Seq<char>,
    pub wat: Seq<char>,
    pub cases: Seq<char>,
}

impl View for TestFile {
    type V = TestFileV;

    open spec fn view(&self) -> TestFileV {
        TestFileV {
            directory: self.directory@,
            subdirectory: self.subdirectory@,
            base_name: self.base_name@,
            wat: self.wat@,
            cases: self.cases@,
        }
    }
}

/// The parts joined with `sep` between them.
pub open spec fn join(parts: Seq<Seq<char>>, sep: Seq<char>) -> Seq<char>
    decreases parts.len(),
{
    if parts.len() == 0 {
        Seq::empty()
    } else if parts.len() == 1 {
        parts[0]
    } else {
        join(parts.drop_last(), sep) + sep + parts.last()
    }
}

/// The values of test cases: each a list of argument texts.
pub open spec fn cases_view(tests: Seq<Vec<String>>) -> Seq<Seq<Seq<char>>> {
    tests.map_values(|t: Vec<String>| t@.map_values(|s: String| s@))
}

/// The rows of a table of test cases: each line that is not blank, as its
/// words.
pub open spec fn table_rows(lines: Seq<Seq<char>>) -> Seq<Seq<Seq<char>>>
    decreases lines.len(),
{
    if lines.len() == 0 {
        Seq::empty()
    } else {
        let rows = table_rows(lines.drop_last());
        if is_blank(lines.last()) {
            rows
        } else {
            rows.push(text_words(lines.last()))
        }
    }
}

/// Reads a table of test cases from its text: one case per line that is not
/// blank, its arguments separated by white space.
pub fn read_case_table(contents: &str) -> (r: Vec<Vec<String>>)
    ensures
        cases_view(r@) == table_rows(text_lines(contents@)),
{
    let lines = lines_of(&chars_of(contents));
    let ghost lv = lines@.map_values(|l: Vec<char>| l@);
    let mut rows: Vec<Vec<String>> = Vec::new();
    let mut i: usize = 0;
    while i < lines.len()
        invariant
            i <= lines@.len(),
            lv == lines@.map_values(|l: Vec<char>| l@),
            lv == text_lines(contents@),
            cases_view(rows@) == table_rows(lv.take(i as int)),
        decreases lines.len() - i,
    {
        let ghost before = cases_view(rows@);
        assert(lv.take(i + 1).drop_last() =~= lv.take(i as int));
        if !blank(&lines[i]) {
            let words = words_of(&lines[i]);
            let ghost wv = words@.map_values(|w: Vec<char>| w@);
            let mut row: Vec<String> = Vec::new();
            let mut j: usize = 0;
            while j < words.len()
                invariant
                    j <= words@.len(),
                    wv == words@.map_values(|w: Vec<char>| w@),
                    row@.map_values(|s: String| s@) == wv.take(j as int),
                decreases words.len() - j,
            {
                let ghost prev = row@.map_values(|s: String| s@);
                let w = string_of(&words[j]);
                let ghost w_v = w@;
                row.push(w);
                j = j + 1;
                assert(row@.map_values(|s: String| s@) =~= prev.push(w_v));
                assert(wv.take(j as int) =~= wv.take(j - 1).push(wv[j - 1]));
            }
            assert(wv.take(wv.len() as int) =~= wv);
            let ghost row_v = row@.map_values(|s: String| s@);
            rows.push(row);
            assert(cases_view(rows@) =~= before.push(row_v));
        }
        i = i + 1;
    }
    assert(lv.take(lv.len() as int) =~= lv);
    rows
}

/// One line per test case: the function name, a space, the first `k`
/// arguments joined by spaces, and `end`.
pub open spec fn case_lines(function_name: Seq<char>, tests: Seq<Seq<Seq<char>>>, k: nat, end: Seq<char>) -> Seq<char>
    decreases tests.len(),
{
    if tests.len() == 0 {
        Seq::empty()
    } else {
        case_lines(function_name, tests.drop_last(), k, end) + function_name + " "@ + join(at_most(tests.last(), k), " "@)
            + end
    }
}

/// Whether `pattern` occurs in `s`.
pub open spec fn contains_text(s: Seq<char>, pattern: Seq<char>) -> bool {
    exists|i: int| 0 <= i && i + pattern.len() <= s.len() && #[trigger] s.subrange(i, i + pattern.len()) == pattern
}

/// Whether `pattern` occurs in `s`.
pub fn contains(s: &str, pattern: &str) -> (r: bool)
    ensures
        r == contains_text(s@, pattern@),
{
    let sv = chars_of(s);
    let pv = chars_of(pattern);
    if pv.len() > sv.len() {
        return false;
    }
    if pv.len() == 0 {
        assert(s@.subrange(0int, 0int + pattern@.len()) =~= pattern@);
        return true;
    }
    let slen = sv.len();
    let last = slen - pv.len();
    let mut i: usize = 0;
    while i <= last
        invariant
            sv@ == s@,
            pv@ == pattern@,
            0 < pv@.len() <= sv@.len(),
            last == sv@.len() - pv@.len(),
            i <= last + 1,
            last < sv@.len(),
            slen == sv@.len(),
            forall|j: int| 0 <= j < i ==> #[trigger] sv@.subrange(j, j + pv@.len()) != pv@,
        decreases last + 1 - i,
    {
        let mut k: usize = 0;
        let mut same = true;
        while k < pv.len()
            invariant
                i + pv@.len() <= sv@.len(),
                slen == sv@.len(),
                k <= pv@.len(),
                same == (forall|m: int| 0 <= m < k ==> sv@[i + m] == pv@[m]),
            decreases pv.len() - k,
        {
            if sv[i + k] != pv[k] {
                same = false;
            }
            k = k + 1;
        }
        if same {
            assert(sv@.subrange(i as int, i + pv@.len()) =~= pv@);
            return true;
        }
        proof {
            let m = choose|m: int| 0 <= m < pv@.len() && sv@[i + m] != pv@[m];
            assert(sv@.subrange(i as int, i + pv@.len())[m] != pv@[m]);
        }
        i = i + 1;
    }
    assert forall|j: int| 0 <= j && j + pattern@.len() <= s@.len() implies #[trigger] s@.subrange(j, j + pattern@.len())
        != pattern@ by {
        assert(sv@.subrange(j, j + pv@.len()) != pv@);
    }
    false
}

/// Appends the parts joined with `sep` between them.
pub fn push_joined(out: &mut Vec<char>, parts: &Vec<String>, k: usize, sep: &str)
    ensures
        final(out)@ == old(out)@ + join(at_most(parts@.map_values(|s: String| s@), k as nat), sep@),
{
    let ghost o = old(out)@;
    let ghost all = parts@.map_values(|s: String| s@);
    let n = if parts.len() < k {
        parts.len()
    } else {
        k
    };
    proof {
        assert(at_most(all, k as nat) =~= all.take(n as int));
    }
    let mut i: usize = 0;
    while i < n
        invariant
            n <= parts@.len(),
            i <= n,
            all == parts@.map_values(|s: String| s@),
            out@ == o + join(all.take(i as int), sep@),
        decreases n - i,
    {
        if i > 0 {
            push_str(out, sep);
        }
        push_str(out, parts[i].as_str());
        i = i + 1;
        proof {
            assert(all.take(i as int).drop_last() =~= all.take(i - 1));
            if i == 1 {
                assert(all.take(1) =~= seq![all[0]]);
            }
        }
    }
}

/// Appends one line per test case (see [`case_lines`]).
pub fn push_case_lines(out: &mut Vec<char>, function_name: &str, tests: &Vec<Vec<String>>, k: usize, end: &str)
    ensures
        final(out)@ == old(out)@ + case_lines(function_name@, cases_view(tests@), k as nat, end@),
{
    let ghost o = old(out)@;
    let ghost all = cases_view(tests@);
    let mut i: usize = 0;
    while i < tests.len()
        invariant
            i <= tests@.len(),
            all == cases_view(tests@),
            out@ == o + case_lines(function_name@, all.take(i as int), k as nat, end@),
        decreases tests.len() - i,
    {
        push_str(out, function_name);
        push_str(out, " ");
        push_joined(out, &tests[i], k, " ");
        push_str(out, end);
        i = i + 1;
        proof {
            assert(all.take(i as int).drop_last() =~= all.take(i - 1));
            assert(all.take(i as int).last() == tests@[i - 1]@.map_values(|s: String| s@));
        }
    }
    assert(all.take(tests@.len() as int) =~= all);
}

} // verus!
