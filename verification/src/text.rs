//! Character-level helpers shared by the tokenizer and the parsers: character
//! classes, literal matching, and the numeric value of a run of digits.
use vstd::prelude::*;

verus! {

pub open spec fn spec_is_digit(c: char) -> bool {
    '0' as int <= c as int <= '9' as int
}

pub open spec fn spec_is_alpha(c: char) -> bool {
    ('a' as int <= c as int <= 'z' as int) || ('A' as int <= c as int <= 'Z' as int)
}

pub open spec fn spec_is_space(c: char) -> bool {
    c == ' ' || c == '\t'
}

pub fn is_digit(c: char) -> (b: bool)
    ensures
        b == spec_is_digit(c),
{
    '0' <= c && c <= '9'
}

pub fn is_alpha(c: char) -> (b: bool)
    ensures
        b == spec_is_alpha(c),
{
    ('a' <= c && c <= 'z') || ('A' <= c && c <= 'Z')
}

pub fn is_space(c: char) -> (b: bool)
    ensures
        b == spec_is_space(c),
{
    c == ' ' || c == '\t'
}

/// Numeric value of one decimal digit character.
pub open spec fn spec_digit_val(c: char) -> int {
    c as int - '0' as int
}

/// The literal `lit` occurs in `s` at position `pos`.
pub open spec fn matches_lit(s: Seq<char>, pos: int, lit: Seq<char>) -> bool {
    &&& 0 <= pos
    &&& pos + lit.len() <= s.len()
    &&& forall|i: int| 0 <= i < lit.len() ==> s[pos + i] == lit[i]
}

pub fn match_lit(v: &Vec<char>, pos: usize, lit: &str) -> (b: bool)
    requires
        pos <= v@.len(),
    ensures
        b == matches_lit(v@, pos as int, lit@),
{
    let n = lit.unicode_len();
    if n > v.len() - pos {
        return false;
    }
    let mut i: usize = 0;
    while i < n
        invariant
            i <= n,
            n == lit@.len(),
            pos + n <= v@.len(),
            forall|j: int| 0 <= j < i ==> v@[pos + j] == lit@[j],
        decreases n - i,
    {
        if v[pos + i] != lit.get_char(i) {
            return false;
        }
        i += 1;
    }
    true
}

pub fn chars_of(s: &str) -> (v: Vec<char>)
    ensures
        v@ == s@,
{
    let n = s.unicode_len();
    let mut v: Vec<char> = Vec::new();
    let mut i: usize = 0;
    while i < n
        invariant
            i <= n,
            n == s@.len(),
            v@.len() == i,
            forall|j: int| 0 <= j < i ==> v@[j] == s@[j],
        decreases n - i,
    {
        v.push(s.get_char(i));
        i += 1;
    }
    proof {
        assert(v@ =~= s@);
    }
    v
}

/// The characters `v[start .. end]` spell exactly the literal `lit`.
pub fn span_eq_lit(v: &Vec<char>, start: usize, end: usize, lit: &str) -> (b: bool)
    requires
        start <= end <= v@.len(),
    ensures
        b == (v@.subrange(start as int, end as int) == lit@),
{
    let n = lit.unicode_len();
    if end - start != n {
        proof {
            assert(v@.subrange(start as int, end as int).len() != lit@.len());
        }
        return false;
    }
    let r = match_lit(v, start, lit);
    proof {
        if r {
            assert(v@.subrange(start as int, end as int) =~= lit@);
        } else {
            assert(!matches_lit(v@, start as int, lit@));
            let i = choose|i: int| 0 <= i < lit@.len() && v@[start + i] != lit@[i];
            assert(v@.subrange(start as int, end as int)[i] != lit@[i]);
        }
    }
    r
}

/// The whole of `v` spells exactly the literal `lit`.
pub fn eq_lit(v: &Vec<char>, lit: &str) -> (b: bool)
    ensures
        b == (v@ == lit@),
{
    let r = span_eq_lit(v, 0, v.len(), lit);
    proof {
        assert(v@.subrange(0, v@.len() as int) =~= v@);
    }
    r
}

/// Value of the digits `s[pos .. pos + n]` read as a decimal numeral.
pub open spec fn digits_value(s: Seq<char>, pos: int, n: int) -> int
    decreases n,
{
    if n <= 0 {
        0
    } else {
        digits_value(s, pos, n - 1) * 10 + spec_digit_val(s[pos + n - 1])
    }
}

pub proof fn lemma_digits_value_nonneg(s: Seq<char>, pos: int, n: int)
    requires
        forall|i: int| pos <= i < pos + n ==> spec_is_digit(s[i]),
    ensures
        digits_value(s, pos, n) >= 0,
    decreases n,
{
    if n > 0 {
        lemma_digits_value_nonneg(s, pos, n - 1);
    }
}

/// Value of the digit run `v[start .. end]`, computed exactly while it does
/// not exceed `cap` and reported only as "more than `cap`" beyond that.
pub fn digits_value_capped(v: &Vec<char>, start: usize, end: usize, cap: u32) -> (r: u32)
    requires
        start <= end <= v@.len(),
        forall|i: int| start <= i < end ==> spec_is_digit(v@[i]),
        1 <= cap <= 100000,
    ensures
        digits_value(v@, start as int, (end - start) as int) <= cap ==> r as int == digits_value(
            v@,
            start as int,
            (end - start) as int,
        ),
        digits_value(v@, start as int, (end - start) as int) > cap ==> r > cap,
{
    let mut val: u32 = 0;
    let mut i: usize = start;
    while i < end
        invariant
            start <= i <= end,
            val <= 10 * cap + 9,
            val as int <= digits_value(v@, start as int, (i - start) as int),
            val as int == digits_value(v@, start as int, (i - start) as int) || val > cap,
        decreases end - i,
    {
        proof {
            lemma_digits_value_nonneg(v@, start as int, (i - start) as int);
        }
        let d: u32 = (v[i] as u32) - 48;
        if val <= cap {
            val = val * 10 + d;
        }
        i += 1;
    }
    val
}

} // verus!
