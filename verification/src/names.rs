//! Function names that carry a numbered suffix (`name--3`), and the choice of
//! the next unused one.
use vstd::prelude::*;
use crate::text::{chars_of, dec, digit_char, dec_chars, push_chars, str_eq, string_of};

verus! {

/// Whether `--` starts at position `p` of `s`.
pub open spec fn sep_at(s: Seq<char>, p: int) -> bool {
    0 <= p && p + 1 < s.len() && s[p] == '-' && s[p + 1] == '-'
}

/// The last position at or before `end` where `--` starts.
pub open spec fn rfind_sep_upto(s: Seq<char>, end: int) -> Option<int>
    decreases end + 1,
{
    if end < 0 {
        None
    } else if sep_at(s, end) {
        Some(end)
    } else {
        rfind_sep_upto(s, end - 1)
    }
}

/// The last position where `--` starts in `s`.
pub open spec fn rfind_sep(s: Seq<char>) -> Option<int> {
    rfind_sep_upto(s, s.len() - 2)
}

/// Whether every character is an ASCII digit.
pub open spec fn all_digits(d: Seq<char>) -> bool {
    forall|i: int| 0 <= i < d.len() ==> '0' <= #[trigger] d[i] <= '9'
}

/// The value of a row of decimal digits.
pub open spec fn digits_value(d: Seq<char>) -> nat
    decreases d.len(),
{
    if d.len() == 0 {
        0
    } else {
        digits_value(d.drop_last()) * 10 + ((d.last() as int) - 48) as nat
    }
}

/// The value of a decimal `usize` literal: an optional `+`, then at least one
/// digit, with a value that fits in a `usize`.
pub open spec fn parse_usize(s: Seq<char>) -> Option<nat> {
    let d = if s.len() > 0 && s[0] == '+' { s.drop_first() } else { s };
    if d.len() > 0 && all_digits(d) && digits_value(d) <= usize::MAX {
        Some(digits_value(d))
    } else {
        None
    }
}

/// A name split into the part before its numbered suffix and that number
/// (the whole name and 0 when it has no numbered suffix).
pub open spec fn split_suffix(s: Seq<char>) -> (Seq<char>, nat) {
    match rfind_sep(s) {
        Some(p) => match parse_usize(s.subrange(p + 2, s.len() as int)) {
            Some(n) => (s.subrange(0, p), n),
            None => (s, 0),
        },
        None => (s, 0),
    }
}

/// The name with suffix number `k`.
pub open spec fn numbered(prefix: Seq<char>, k: nat) -> Seq<char> {
    prefix + seq!['-', '-'] + dec(k)
}

/// `k` is the first number after `n` whose name is not taken.
pub open spec fn is_next_free(prefix: Seq<char>, n: nat, taken: Set<Seq<char>>, k: nat) -> bool {
    &&& n < k
    &&& !taken.contains(numbered(prefix, k))
    &&& forall|j: nat| n < j < k ==> taken.contains(#[trigger] numbered(prefix, j))
}

/// The first number after `n` whose name is not taken.
pub open spec fn next_free(prefix: Seq<char>, n: nat, taken: Set<Seq<char>>) -> nat {
    choose|k: nat| is_next_free(prefix, n, taken, k)
}

/// The suffix number that the next name derived from `name` gets.
pub open spec fn next_number(name: Seq<char>, taken: Set<Seq<char>>) -> nat {
    let (prefix, n) = split_suffix(name);
    next_free(prefix, n, taken)
}

/// The next name derived from `name`: its prefix with the first free number.
pub open spec fn next_name(name: Seq<char>, taken: Set<Seq<char>>) -> Seq<char> {
    let (prefix, n) = split_suffix(name);
    numbered(prefix, next_free(prefix, n, taken))
}

/// Decimal text has at least one digit, and a single one below ten.
pub proof fn lemma_dec_len(n: nat)
    ensures
        dec(n).len() >= 1,
        n < 10 <==> dec(n).len() == 1,
    decreases n,
{
    if n >= 10 {
        lemma_dec_len(n / 10);
    }
}

/// Distinct numbers have distinct decimal texts.
pub proof fn lemma_dec_injective(a: nat, b: nat)
    requires
        dec(a) == dec(b),
    ensures
        a == b,
    decreases a,
{
    lemma_dec_len(a);
    lemma_dec_len(b);
    if a >= 10 && b >= 10 {
        assert(dec(a).last() == digit_char(a % 10));
        assert(dec(b).last() == digit_char(b % 10));
        lemma_digit_char_injective(a % 10, b % 10);
        assert(dec(a).drop_last() =~= dec(a / 10));
        assert(dec(b).drop_last() =~= dec(b / 10));
        lemma_dec_injective(a / 10, b / 10);
    } else if a < 10 && b < 10 {
        assert(dec(a)[0] == digit_char(a));
        assert(dec(b)[0] == digit_char(b));
        lemma_digit_char_injective(a, b);
    }
}

/// Distinct digits have distinct characters.
pub proof fn lemma_digit_char_injective(a: nat, b: nat)
    requires
        a < 16,
        b < 16,
        digit_char(a) == digit_char(b),
    ensures
        a == b,
{
    assert(digit_char(a) as int == if a < 10 { 48 + a } else { 87 + a });
    assert(digit_char(b) as int == if b < 10 { 48 + b } else { 87 + b });
}

/// Distinct numbers give distinct names.
pub proof fn lemma_numbered_injective(prefix: Seq<char>, a: nat, b: nat)
    requires
        numbered(prefix, a) == numbered(prefix, b),
    ensures
        a == b,
{
    let k = prefix.len() + 2;
    assert(numbered(prefix, a).subrange(k as int, numbered(prefix, a).len() as int) =~= dec(a));
    assert(numbered(prefix, b).subrange(k as int, numbered(prefix, b).len() as int) =~= dec(b));
    lemma_dec_injective(a, b);
}

/// When the names of all numbers in `(n, m]` are taken, there are at least
/// `m - n` taken names.
pub proof fn lemma_taken_run(prefix: Seq<char>, n: nat, m: nat, taken: Set<Seq<char>>)
    requires
        taken.finite(),
        n <= m,
        forall|j: nat| n < j <= m ==> taken.contains(#[trigger] numbered(prefix, j)),
    ensures
        m - n <= taken.len(),
    decreases m - n,
{
    if n < m {
        let t2 = taken.remove(numbered(prefix, m));
        assert forall|j: nat| n < j <= (m - 1) as nat implies t2.contains(#[trigger] numbered(prefix, j)) by {
            if numbered(prefix, j) == numbered(prefix, m) {
                lemma_numbered_injective(prefix, j, m);
            }
        }
        lemma_taken_run(prefix, n, (m - 1) as nat, t2);
    }
}

/// Searching upwards from `k`, past a run of taken names, finds a free number.
proof fn lemma_free_search(prefix: Seq<char>, n: nat, taken: Set<Seq<char>>, k: nat)
    requires
        taken.finite(),
        n < k,
        forall|j: nat| n < j < k ==> taken.contains(#[trigger] numbered(prefix, j)),
    ensures
        exists|c: nat| is_next_free(prefix, n, taken, c) && c <= n + taken.len() + 1,
    decreases n + taken.len() + 2 - k,
{
    lemma_taken_run(prefix, n, (k - 1) as nat, taken);
    if taken.contains(numbered(prefix, k)) {
        lemma_taken_run(prefix, n, k, taken);
        lemma_free_search(prefix, n, taken, k + 1);
    } else {
        assert(is_next_free(prefix, n, taken, k));
    }
}

/// Among finitely many taken names there is a first free number after `n`,
/// and it is at most `n + |taken| + 1`.
pub proof fn lemma_next_free_exists(prefix: Seq<char>, n: nat, taken: Set<Seq<char>>)
    requires
        taken.finite(),
    ensures
        is_next_free(prefix, n, taken, next_free(prefix, n, taken)),
        next_free(prefix, n, taken) <= n + taken.len() + 1,
{
    lemma_free_search(prefix, n, taken, n + 1);
    let k = choose|c: nat| is_next_free(prefix, n, taken, c) && c <= n + taken.len() + 1;
    let c = next_free(prefix, n, taken);
    assert(is_next_free(prefix, n, taken, c));
    if c != k {
        if c < k {
            assert(taken.contains(numbered(prefix, c)));
        } else {
            assert(taken.contains(numbered(prefix, k)));
        }
    }
}

/// A set of names.
pub struct NameSet {
    pub names: Vec<String>,
}

impl View for NameSet {
    type V = Set<Seq<char>>;

    open spec fn view(&self) -> Set<Seq<char>> {
        Set::new(|s: Seq<char>| exists|i: int| 0 <= i < self.names@.len() && #[trigger] self.names@[i]@ == s)
    }
}

/// The names listed in a row of strings.
pub open spec fn listed(v: Seq<String>) -> Set<Seq<char>> {
    Set::new(|s: Seq<char>| exists|i: int| 0 <= i < v.len() && #[trigger] v[i]@ == s)
}

/// The listed names are finitely many, at most as many as the entries.
pub proof fn lemma_listed_finite(v: Seq<String>)
    ensures
        listed(v).finite(),
        listed(v).len() <= v.len(),
    decreases v.len(),
{
    if v.len() == 0 {
        assert(listed(v) =~= Set::empty());
    } else {
        lemma_listed_finite(v.drop_last());
        assert(listed(v) =~= listed(v.drop_last()).insert(v.last()@)) by {
            assert forall|s: Seq<char>| listed(v).contains(s) implies listed(v.drop_last()).insert(v.last()@).contains(s) by {
                let i = choose|i: int| 0 <= i < v.len() && #[trigger] v[i]@ == s;
                if i < v.len() - 1 {
                    assert(v.drop_last()[i]@ == s);
                }
            }
            assert forall|s: Seq<char>| listed(v.drop_last()).insert(v.last()@).contains(s) implies listed(v).contains(s) by {
                if s != v.last()@ {
                    let i = choose|i: int| 0 <= i < v.drop_last().len() && #[trigger] v.drop_last()[i]@ == s;
                    assert(v[i]@ == s);
                } else {
                    assert(v[v.len() - 1]@ == s);
                }
            }
        }
    }
}

impl NameSet {
    /// No names.
    pub fn new() -> (r: Self)
        ensures
            r@ == Set::<Seq<char>>::empty(),
            r@.finite(),
    {
        let r = NameSet { names: Vec::new() };
        assert(r@ =~= Set::<Seq<char>>::empty());
        r
    }

    /// Whether `name` is in the set.
    pub fn contains(&self, name: &str) -> (r: bool)
        ensures
            r == self@.contains(name@),
    {
        let mut i: usize = 0;
        while i < self.names.len()
            invariant
                i <= self.names.len(),
                forall|j: int| 0 <= j < i ==> self.names@[j]@ != name@,
            decreases self.names.len() - i,
        {
            if str_eq(self.names[i].as_str(), name) {
                assert(self.names@[i as int]@ == name@);
                return true;
            }
            i = i + 1;
        }
        false
    }

    /// Adds `name`.
    pub fn insert(&mut self, name: String)
        ensures
            final(self)@ == old(self)@.insert(name@),
    {
        self.names.push(name);
        proof {
            let v = self.names@;
            assert(self@ =~= old(self)@.insert(name@)) by {
                assert forall|s: Seq<char>| self@.contains(s) implies old(self)@.insert(name@).contains(s) by {
                    let i = choose|i: int| 0 <= i < v.len() && #[trigger] v[i]@ == s;
                    if i < v.len() - 1 {
                        assert(old(self).names@[i]@ == s);
                    }
                }
                assert forall|s: Seq<char>| old(self)@.insert(name@).contains(s) implies self@.contains(s) by {
                    if s == name@ {
                        assert(v[v.len() - 1]@ == s);
                    } else {
                        let i = choose|i: int| 0 <= i < old(self).names@.len() && #[trigger] old(self).names@[i]@ == s;
                        assert(v[i]@ == s);
                    }
                }
            }
        }
    }

    /// The set holds finitely many names, at most one per entry.
    pub proof fn lemma_finite(&self)
        ensures
            self@.finite(),
            self@.len() <= self.names@.len(),
    {
        lemma_listed_finite(self.names@);
        assert(self@ =~= listed(self.names@));
    }
}

/// The value of the digits `d`, or `None` when it exceeds `usize::MAX` or a
/// character is not a digit.
fn digits_to_usize(d: &Vec<char>, start: usize) -> (r: Option<usize>)
    requires
        start <= d.len(),
    ensures
        ({
            let t = d@.subrange(start as int, d@.len() as int);
            match r {
                Some(v) => all_digits(t) && digits_value(t) == v,
                None => !all_digits(t) || digits_value(t) > usize::MAX,
            }
        }),
{
    let mut v: usize = 0;
    let mut i: usize = start;
    while i < d.len()
        invariant
            start <= i <= d.len(),
            all_digits(d@.subrange(start as int, i as int)),
            digits_value(d@.subrange(start as int, i as int)) == v,
        decreases d.len() - i,
    {
        let c = d[i];
        let ghost t = d@.subrange(start as int, i + 1);
        assert(t.drop_last() =~= d@.subrange(start as int, i as int));
        if c < '0' || c > '9' {
            proof {
                let all = d@.subrange(start as int, d@.len() as int);
                assert(all[i - start] == c);
            }
            return None;
        }
        let dig = (c as u32 - '0' as u32) as usize;
        if v > (usize::MAX - dig) / 10 {
            proof {
                let all = d@.subrange(start as int, d@.len() as int);
                assert(digits_value(t) > usize::MAX) by (nonlinear_arith)
                    requires
                        digits_value(t) == v * 10 + dig,
                        v > (usize::MAX - dig) / 10,
                        dig <= 9,
                ;
                if all_digits(all) {
                    lemma_digits_prefix_le(all, (i + 1 - start) as int);
                    assert(all.subrange(0, (i + 1 - start) as int) =~= t);
                }
            }
            return None;
        }
        v = v * 10 + dig;
        i = i + 1;
    }
    Some(v)
}

/// A prefix of a row of digits has a value no larger than the whole row.
pub proof fn lemma_digits_prefix_le(d: Seq<char>, k: int)
    requires
        0 <= k <= d.len(),
        all_digits(d),
    ensures
        digits_value(d.subrange(0, k)) <= digits_value(d),
        all_digits(d) ==> all_digits(d.subrange(0, k)),
    decreases d.len() - k,
{
    if k < d.len() {
        lemma_digits_prefix_le(d, k + 1);
        let t = d.subrange(0, k + 1);
        assert(t.drop_last() =~= d.subrange(0, k));
    } else {
        assert(d.subrange(0, k) =~= d);
    }
}

/// Parses a decimal `usize` literal (an optional `+`, then digits).
pub fn parse_usize_chars(s: &Vec<char>, start: usize) -> (r: Option<usize>)
    requires
        start <= s.len(),
    ensures
        match r {
            Some(v) => parse_usize(s@.subrange(start as int, s@.len() as int)) == Some(v as nat),
            None => parse_usize(s@.subrange(start as int, s@.len() as int)) is None,
        },
{
    let ghost t = s@.subrange(start as int, s@.len() as int);
    let first = if start < s.len() && s[start] == '+' { start + 1 } else { start };
    assert(s@.subrange(first as int, s@.len() as int) =~= (if t.len() > 0 && t[0] == '+' {
        t.drop_first()
    } else {
        t
    }));
    if first >= s.len() {
        return None;
    }
    digits_to_usize(s, first)
}

/// The last position where `--` starts.
fn rfind_sep_chars(s: &Vec<char>) -> (r: Option<usize>)
    ensures
        match r {
            Some(p) => rfind_sep(s@) == Some(p as int) && p + 2 <= s@.len(),
            None => rfind_sep(s@) is None,
        },
{
    if s.len() < 2 {
        assert(rfind_sep(s@) is None);
        return None;
    }
    let mut p: usize = s.len() - 1;
    // Invariant: no separator starts after p - 1, and the search from p - 1 down equals the whole search.
    while p > 0
        invariant
            1 <= s.len(),
            p <= s.len() - 1,
            rfind_sep(s@) == rfind_sep_upto(s@, p - 1),
        decreases p,
    {
        let q = p - 1;
        if s[q] == '-' && s[q + 1] == '-' {
            return Some(q);
        }
        p = q;
    }
    None
}

/// Whether `names` holds the name with number `k`.
fn numbered_name(prefix: &Vec<char>, k: usize) -> (r: String)
    ensures
        r@ == numbered(prefix@, k as nat),
{
    let mut out: Vec<char> = Vec::new();
    push_chars(&mut out, prefix);
    out.push('-');
    out.push('-');
    let d = dec_chars(k as u64);
    push_chars(&mut out, &d);
    assert(out@ =~= numbered(prefix@, k as nat));
    string_of(&out)
}

/// A new name derived from `s`: the part of `s` before a numbered `--N`
/// suffix (or all of `s` when it has none) followed by `--` and the first
/// number after `N` (after 0 without a suffix) whose name is not in `names`.
/// The new name is added to `names`. `None` when that number would not fit in
/// a `usize`, where the counter overflows.
pub fn get_next_function_name(s: &str, names: &mut NameSet) -> (r: Option<String>)
    ensures
        match r {
            Some(n) => n@ == next_name(s@, old(names)@) && next_number(s@, old(names)@) <= usize::MAX
                && !old(names)@.contains(n@) && final(names)@ == old(names)@.insert(n@),
            None => next_number(s@, old(names)@) > usize::MAX && final(names)@ == old(names)@,
        },
{
    let sv = chars_of(s);
    let ghost split = split_suffix(s@);
    let (prefix, n0): (Vec<char>, usize) = match rfind_sep_chars(&sv) {
        Some(p) => {
            match parse_usize_chars(&sv, p + 2) {
                Some(n) => {
                    let mut pre: Vec<char> = Vec::new();
                    let mut i: usize = 0;
                    while i < p
                        invariant
                            i <= p,
                            p + 2 <= sv.len(),
                            pre@ == sv@.subrange(0, i as int),
                        decreases p - i,
                    {
                        pre.push(sv[i]);
                        i = i + 1;
                        assert(pre@ =~= sv@.subrange(0, i as int));
                    }
                    (pre, n)
                },
                None => (sv.clone(), 0),
            }
        },
        None => (sv.clone(), 0),
    };
    assert(prefix@ == split.0 && n0 as nat == split.1);
    assert(split_suffix(s@) == (prefix@, n0 as nat));
    assert(forall|t: Set<Seq<char>>| next_number(s@, t) == next_free(prefix@, n0 as nat, t));
    assert(forall|t: Set<Seq<char>>| #[trigger] next_name(s@, t) == numbered(prefix@, next_free(prefix@, n0 as nat, t)));
    proof {
        names.lemma_finite();
    }
    let ghost taken = names@;
    let mut n: usize = n0;
    loop
        invariant
            n0 <= n,
            names@ == taken,
            old(names)@ == taken,
            next_number(s@, taken) == next_free(prefix@, n0 as nat, taken),
            next_name(s@, taken) == numbered(prefix@, next_free(prefix@, n0 as nat, taken)),
            taken.finite(),
            forall|j: nat| n0 < j <= n ==> taken.contains(#[trigger] numbered(prefix@, j)),
        decreases taken.len() + n0 + 1 - n,
    {
        proof {
            lemma_taken_run(prefix@, n0 as nat, n as nat, taken);
            lemma_next_free_exists(prefix@, n0 as nat, taken);
        }
        if n == usize::MAX {
            proof {
                let k = next_free(prefix@, n0 as nat, taken);
                if k <= usize::MAX {
                    assert(taken.contains(numbered(prefix@, k)));
                }
                assert(next_number(s@, taken) == k);
            }
            return None;
        }
        n = n + 1;
        let cand = numbered_name(&prefix, n);
        if !names.contains(cand.as_str()) {
            proof {
                let k = next_free(prefix@, n0 as nat, taken);
                assert(is_next_free(prefix@, n0 as nat, taken, n as nat));
                if k < n {
                    assert(taken.contains(numbered(prefix@, k)));
                } else if k > n {
                    assert(taken.contains(numbered(prefix@, n as nat)));
                }
            }
            let kept = cand.clone();
            names.insert(cand);
            assert(kept@ == next_name(s@, taken));
            assert(names@ == taken.insert(kept@));
            return Some(kept);
        }
    }
}

} // verus!
