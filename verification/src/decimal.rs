//! Exact decimal measurements. A parsed numeral is kept as its sign and its
//! digits, unchanged; the order is the numeric order of the written values,
//! with a negative zero below a positive one, as a sign-first comparison of
//! floating-point bit patterns would give.
use crate::lexer::{digit_run_at, lemma_digit_run_digits, num_has_frac, num_int_len, num_int_start,
    number_len};
use crate::text::{spec_digit_val, spec_is_digit};
use vstd::prelude::*;

verus! {

/// Mathematical model of a decimal: sign and the two digit sequences.
pub ghost struct DecModel {
    pub neg: bool,
    pub int_digits: Seq<u8>,
    pub frac_digits: Seq<u8>,
}

impl DecModel {
    pub open spec fn wf(self) -> bool {
        &&& self.int_digits.len() >= 1
        &&& forall|i: int| 0 <= i < self.int_digits.len() ==> self.int_digits[i] < 10
        &&& forall|i: int| 0 <= i < self.frac_digits.len() ==> self.frac_digits[i] < 10
    }
}

/// Digit of the magnitude of `d` at position `i`, when the integer part is
/// padded on the left with zeros to `il` digits: positions `0 .. il` hold the
/// integer digits right-aligned, and positions from `il` on hold the fraction
/// digits followed by zeros.
pub open spec fn digit_at(d: DecModel, il: int, i: int) -> u8 {
    if i < il - d.int_digits.len() {
        0u8
    } else if i < il {
        d.int_digits[i - (il - d.int_digits.len())]
    } else if i - il < d.frac_digits.len() {
        d.frac_digits[i - il]
    } else {
        0u8
    }
}

/// Magnitudes aligned at integer width `il` agree at every position.
pub open spec fn mag_eq_at(a: DecModel, b: DecModel, il: int) -> bool {
    forall|i: int| 0 <= i ==> digit_at(a, il, i) == digit_at(b, il, i)
}

/// The magnitude of `a` is below that of `b`, both aligned at width `il`:
/// some position holds a smaller digit while all earlier positions agree.
pub open spec fn mag_lt_at(a: DecModel, b: DecModel, il: int) -> bool {
    exists|j: int|
        0 <= j && digit_at(a, il, j) < digit_at(b, il, j) && (forall|i: int|
            0 <= i < j ==> digit_at(a, il, i) == digit_at(b, il, i))
}

pub open spec fn align_of(a: DecModel, b: DecModel) -> int {
    if a.int_digits.len() >= b.int_digits.len() {
        a.int_digits.len() as int
    } else {
        b.int_digits.len() as int
    }
}

pub open spec fn mag_eq(a: DecModel, b: DecModel) -> bool {
    mag_eq_at(a, b, align_of(a, b))
}

pub open spec fn mag_lt(a: DecModel, b: DecModel) -> bool {
    mag_lt_at(a, b, align_of(a, b))
}

/// Strict numeric order on decimals. Opposite signs are decided by the sign
/// alone, so a negative zero is below a positive zero.
pub open spec fn dec_lt(a: DecModel, b: DecModel) -> bool {
    if a.neg != b.neg {
        a.neg
    } else if !a.neg {
        mag_lt(a, b)
    } else {
        mag_lt(b, a)
    }
}

/// Two decimals that write the same value with the same sign, possibly with
/// different leading or trailing zeros.
pub open spec fn dec_eq(a: DecModel, b: DecModel) -> bool {
    a.neg == b.neg && mag_eq(a, b)
}

pub open spec fn dec_le(a: DecModel, b: DecModel) -> bool {
    dec_lt(a, b) || dec_eq(a, b)
}

/// Aligning at a wider integer width shifts every digit position by the
/// difference and fills the new leading positions with zeros on both sides,
/// so the pointwise relations are unchanged.
proof fn lemma_mag_lt_scale(a: DecModel, b: DecModel, il1: int, il2: int)
    requires
        il1 >= a.int_digits.len(),
        il1 >= b.int_digits.len(),
        il2 >= a.int_digits.len(),
        il2 >= b.int_digits.len(),
        mag_lt_at(a, b, il1),
    ensures
        mag_lt_at(a, b, il2),
{
    let j1 = choose|j: int|
        0 <= j && digit_at(a, il1, j) < digit_at(b, il1, j) && (forall|i: int|
            0 <= i < j ==> digit_at(a, il1, i) == digit_at(b, il1, i));
    if il2 >= il1 {
        let k = il2 - il1;
        assert(forall|i: int| 0 <= i ==> digit_at(a, il2, i + k) == digit_at(a, il1, i));
        assert(forall|i: int| 0 <= i ==> digit_at(b, il2, i + k) == digit_at(b, il1, i));
        assert(forall|i: int| 0 <= i < k ==> digit_at(a, il2, i) == 0 && digit_at(b, il2, i) == 0);
        assert(digit_at(a, il2, j1 + k) < digit_at(b, il2, j1 + k));
        assert(forall|i: int| 0 <= i < j1 + k ==> digit_at(a, il2, i) == digit_at(b, il2, i))
            by {
            assert forall|i: int| 0 <= i < j1 + k implies digit_at(a, il2, i) == digit_at(
                b,
                il2,
                i,
            ) by {
                if i >= k {
                    assert(digit_at(a, il2, i) == digit_at(a, il1, i - k));
                    assert(digit_at(b, il2, i) == digit_at(b, il1, i - k));
                }
            }
        }
    } else {
        let k = il1 - il2;
        // The leading `k` aligned positions at `il1` are zeros on both sides,
        // so the first difference lies at or after `k`.
        assert(forall|i: int| 0 <= i ==> digit_at(a, il1, i + k) == digit_at(a, il2, i));
        assert(forall|i: int| 0 <= i ==> digit_at(b, il1, i + k) == digit_at(b, il2, i));
        assert(digit_at(a, il1, j1) == digit_at(b, il1, j1) || j1 >= k);
        assert(digit_at(a, il2, j1 - k) < digit_at(b, il2, j1 - k));
        assert forall|i: int| 0 <= i < j1 - k implies digit_at(a, il2, i) == digit_at(
            b,
            il2,
            i,
        ) by {
            assert(digit_at(a, il1, i + k) == digit_at(b, il1, i + k));
        }
    }
}

proof fn lemma_mag_eq_scale(a: DecModel, b: DecModel, il1: int, il2: int)
    requires
        il1 >= a.int_digits.len(),
        il1 >= b.int_digits.len(),
        il2 >= a.int_digits.len(),
        il2 >= b.int_digits.len(),
        mag_eq_at(a, b, il1),
    ensures
        mag_eq_at(a, b, il2),
{
    if il2 >= il1 {
        let k = il2 - il1;
        assert forall|i: int| 0 <= i implies digit_at(a, il2, i) == digit_at(b, il2, i) by {
            if i >= k {
                assert(digit_at(a, il2, i) == digit_at(a, il1, i - k));
                assert(digit_at(b, il2, i) == digit_at(b, il1, i - k));
            }
        }
    } else {
        let k = il1 - il2;
        assert forall|i: int| 0 <= i implies digit_at(a, il2, i) == digit_at(b, il2, i) by {
            assert(digit_at(a, il1, i + k) == digit_at(b, il1, i + k));
            assert(digit_at(a, il1, i + k) == digit_at(a, il2, i));
            assert(digit_at(b, il1, i + k) == digit_at(b, il2, i));
        }
    }
}

/// Every position at or past the aligned width plus the fraction length
/// holds a zero, so two magnitudes that agree up to there agree everywhere.
proof fn lemma_eq_upto_all(a: DecModel, b: DecModel, il: int, n: int)
    requires
        il >= a.int_digits.len(),
        il >= b.int_digits.len(),
        n >= il + a.frac_digits.len(),
        n >= il + b.frac_digits.len(),
        forall|i: int| 0 <= i < n ==> digit_at(a, il, i) == digit_at(b, il, i),
    ensures
        mag_eq_at(a, b, il),
{
    assert forall|i: int| 0 <= i implies digit_at(a, il, i) == digit_at(b, il, i) by {
        if i >= n {
            assert(digit_at(a, il, i) == 0);
            assert(digit_at(b, il, i) == 0);
        }
    }
}

/// Scanning forward, two magnitudes either agree on the first `n` positions
/// or have a first position below `n` where they differ.
proof fn lemma_first_diff(a: DecModel, b: DecModel, il: int, n: int)
    requires
        n >= 0,
    ensures
        (forall|i: int| 0 <= i < n ==> digit_at(a, il, i) == digit_at(b, il, i)) || (exists|j: int|
            0 <= j < n && digit_at(a, il, j) != digit_at(b, il, j) && (forall|i: int|
                0 <= i < j ==> digit_at(a, il, i) == digit_at(b, il, i))),
    decreases n,
{
    if n > 0 {
        lemma_first_diff(a, b, il, n - 1);
    }
}

/// Of two magnitudes, either the first is below the second, or above it, or
/// they agree everywhere.
pub proof fn lemma_mag_trichotomy(a: DecModel, b: DecModel)
    ensures
        mag_lt(a, b) || mag_lt(b, a) || mag_eq(a, b),
{
    let il = align_of(a, b);
    let n = il + if a.frac_digits.len() >= b.frac_digits.len() {
        a.frac_digits.len() as int
    } else {
        b.frac_digits.len() as int
    };
    lemma_first_diff(a, b, il, n);
    if forall|i: int| 0 <= i < n ==> digit_at(a, il, i) == digit_at(b, il, i) {
        lemma_eq_upto_all(a, b, il, n);
    }
}

/// A strict magnitude comparison composes with a non-strict one.
pub proof fn lemma_mag_lt_lt_trans(a: DecModel, b: DecModel, c: DecModel)
    requires
        mag_lt(a, b),
        mag_lt(b, c),
    ensures
        mag_lt(a, c),
{
    let il = if align_of(a, c) >= b.int_digits.len() {
        align_of(a, c)
    } else {
        b.int_digits.len() as int
    };
    lemma_mag_lt_scale(a, b, align_of(a, b), il);
    lemma_mag_lt_scale(b, c, align_of(b, c), il);
    let j1 = choose|j: int|
        0 <= j && digit_at(a, il, j) < digit_at(b, il, j) && (forall|i: int|
            0 <= i < j ==> digit_at(a, il, i) == digit_at(b, il, i));
    let j2 = choose|j: int|
        0 <= j && digit_at(b, il, j) < digit_at(c, il, j) && (forall|i: int|
            0 <= i < j ==> digit_at(b, il, i) == digit_at(c, il, i));
    let j = if j1 <= j2 {
        j1
    } else {
        j2
    };
    assert(digit_at(a, il, j) < digit_at(c, il, j));
    lemma_mag_lt_scale(a, c, il, align_of(a, c));
}

pub proof fn lemma_mag_lt_eq_trans(a: DecModel, b: DecModel, c: DecModel)
    requires
        mag_lt(a, b),
        mag_eq(b, c),
    ensures
        mag_lt(a, c),
{
    let il = if align_of(a, c) >= b.int_digits.len() {
        align_of(a, c)
    } else {
        b.int_digits.len() as int
    };
    lemma_mag_lt_scale(a, b, align_of(a, b), il);
    lemma_mag_eq_scale(b, c, align_of(b, c), il);
    lemma_mag_lt_scale(a, c, il, align_of(a, c));
}

pub proof fn lemma_mag_eq_lt_trans(a: DecModel, b: DecModel, c: DecModel)
    requires
        mag_eq(a, b),
        mag_lt(b, c),
    ensures
        mag_lt(a, c),
{
    let il = if align_of(a, c) >= b.int_digits.len() {
        align_of(a, c)
    } else {
        b.int_digits.len() as int
    };
    lemma_mag_eq_scale(a, b, align_of(a, b), il);
    lemma_mag_lt_scale(b, c, align_of(b, c), il);
    lemma_mag_lt_scale(a, c, il, align_of(a, c));
}

pub proof fn lemma_mag_eq_eq_trans(a: DecModel, b: DecModel, c: DecModel)
    requires
        mag_eq(a, b),
        mag_eq(b, c),
    ensures
        mag_eq(a, c),
{
    let il = if align_of(a, c) >= b.int_digits.len() {
        align_of(a, c)
    } else {
        b.int_digits.len() as int
    };
    lemma_mag_eq_scale(a, b, align_of(a, b), il);
    lemma_mag_eq_scale(b, c, align_of(b, c), il);
    lemma_mag_eq_scale(a, c, il, align_of(a, c));
}

/// If `a` is not strictly below `b`, then `b` is at or below `a`.
pub proof fn lemma_dec_total(a: DecModel, b: DecModel)
    ensures
        dec_lt(a, b) || dec_le(b, a),
{
    if a.neg == b.neg {
        lemma_mag_trichotomy(a, b);
    }
}

/// A strict comparison composes with a non-strict one.
pub proof fn lemma_dec_lt_le_trans(a: DecModel, b: DecModel, c: DecModel)
    requires
        dec_lt(a, b),
        dec_le(b, c),
    ensures
        dec_lt(a, c),
{
    if a.neg == b.neg && b.neg == c.neg {
        if !a.neg {
            if dec_lt(b, c) {
                lemma_mag_lt_lt_trans(a, b, c);
            } else {
                lemma_mag_lt_eq_trans(a, b, c);
            }
        } else {
            if dec_lt(b, c) {
                lemma_mag_lt_lt_trans(c, b, a);
            } else {
                lemma_mag_eq_sym(b, c);
                lemma_mag_eq_lt_trans(c, b, a);
            }
        }
    }
}

pub proof fn lemma_mag_eq_sym(a: DecModel, b: DecModel)
    requires
        mag_eq(a, b),
    ensures
        mag_eq(b, a),
{
    assert(align_of(b, a) == align_of(a, b));
    assert forall|i: int| 0 <= i implies digit_at(b, align_of(b, a), i) == digit_at(
        a,
        align_of(b, a),
        i,
    ) by {
        assert(digit_at(a, align_of(a, b), i) == digit_at(b, align_of(a, b), i));
    }
}

pub proof fn lemma_dec_le_trans(a: DecModel, b: DecModel, c: DecModel)
    requires
        dec_le(a, b),
        dec_le(b, c),
    ensures
        dec_le(a, c),
{
    if dec_lt(a, b) {
        lemma_dec_lt_le_trans(a, b, c);
    } else if dec_lt(b, c) {
        // Here `a` and `b` agree in sign and magnitude.
        if b.neg == c.neg {
            if !b.neg {
                lemma_mag_eq_lt_trans(a, b, c);
            } else {
                lemma_mag_eq_sym(a, b);
                lemma_mag_lt_eq_trans(c, b, a);
            }
        }
    } else {
        lemma_mag_eq_eq_trans(a, b, c);
    }
}

/// A position holding a greater digit after an equal prefix rules out the
/// magnitude comparison going the other way.
proof fn lemma_no_lt_after_gt(a: DecModel, b: DecModel, il: int, p: int)
    requires
        0 <= p,
        digit_at(a, il, p) > digit_at(b, il, p),
        forall|k: int| 0 <= k < p ==> digit_at(a, il, k) == digit_at(b, il, k),
        il == align_of(a, b),
    ensures
        !mag_lt_at(a, b, il),
{
    if mag_lt_at(a, b, il) {
        let w = choose|w: int|
            0 <= w && digit_at(a, il, w) < digit_at(b, il, w) && (forall|k: int|
                0 <= k < w ==> digit_at(a, il, k) == digit_at(b, il, k));
        if w < p {
        } else if w == p {
        } else {
            assert(digit_at(a, il, p) == digit_at(b, il, p));
        }
    }
}

/// An exact decimal measurement: sign, integer digits, fraction digits, all
/// kept as parsed.
#[derive(Clone, Debug)]
pub struct Decimal {
    neg: bool,
    int_digits: Vec<u8>,
    frac_digits: Vec<u8>,
}

impl View for Decimal {
    type V = DecModel;

    closed spec fn view(&self) -> DecModel {
        DecModel { neg: self.neg, int_digits: self.int_digits@, frac_digits: self.frac_digits@ }
    }
}

impl Decimal {
    pub open spec fn wf(self) -> bool {
        self@.wf()
    }

    /// Builds a decimal from its sign and digit values; accepts exactly the
    /// digit vectors that form a numeral (digits below ten, at least one
    /// integer digit).
    pub fn new(neg: bool, int_digits: Vec<u8>, frac_digits: Vec<u8>) -> (r: Option<Decimal>)
        ensures
            r is Some <==> (DecModel {
                neg,
                int_digits: int_digits@,
                frac_digits: frac_digits@,
            }).wf(),
            r is Some ==> r->0@ == (DecModel {
                neg,
                int_digits: int_digits@,
                frac_digits: frac_digits@,
            }) && r->0.wf(),
    {
        if int_digits.len() == 0 {
            return None;
        }
        let mut i: usize = 0;
        while i < int_digits.len()
            invariant
                i <= int_digits@.len(),
                forall|j: int| 0 <= j < i ==> int_digits@[j] < 10,
            decreases int_digits@.len() - i,
        {
            if int_digits[i] >= 10 {
                proof {
                    let m = DecModel { neg, int_digits: int_digits@, frac_digits: frac_digits@ };
                    assert(m.int_digits[i as int] >= 10);
                    assert(!m.wf());
                }
                return None;
            }
            i += 1;
        }
        let mut i: usize = 0;
        while i < frac_digits.len()
            invariant
                i <= frac_digits@.len(),
                forall|j: int| 0 <= j < i ==> frac_digits@[j] < 10,
            decreases frac_digits@.len() - i,
        {
            if frac_digits[i] >= 10 {
                proof {
                    let m = DecModel { neg, int_digits: int_digits@, frac_digits: frac_digits@ };
                    assert(m.frac_digits[i as int] >= 10);
                    assert(!m.wf());
                }
                return None;
            }
            i += 1;
        }
        Some(Decimal { neg, int_digits, frac_digits })
    }

    pub fn is_neg(&self) -> (r: bool)
        ensures
            r == self@.neg,
    {
        self.neg
    }

    /// Digit of the padded magnitude at position `i`, as `digit_at` gives it.
    fn padded_digit(&self, il: usize, i: usize) -> (r: u8)
        requires
            self@.int_digits.len() <= il,
        ensures
            r == digit_at(self@, il as int, i as int),
    {
        if i < il - self.int_digits.len() {
            0
        } else if i < il {
            self.int_digits[i - (il - self.int_digits.len())]
        } else if i - il < self.frac_digits.len() {
            self.frac_digits[i - il]
        } else {
            0
        }
    }

    /// Strict numeric comparison.
    pub fn lt(&self, other: &Decimal) -> (r: bool)
        ensures
            r == dec_lt(self@, other@),
    {
        if self.neg != other.neg {
            return self.neg;
        }
        let (a, b) = if !self.neg {
            (self, other)
        } else {
            (other, self)
        };
        let il = if a.int_digits.len() >= b.int_digits.len() {
            a.int_digits.len()
        } else {
            b.int_digits.len()
        };
        let fl = if a.frac_digits.len() >= b.frac_digits.len() {
            a.frac_digits.len()
        } else {
            b.frac_digits.len()
        };
        proof {
            assert(il as int == align_of(a@, b@));
        }
        let mut i: usize = 0;
        while i < il
            invariant
                i <= il,
                il >= a@.int_digits.len(),
                il >= b@.int_digits.len(),
                forall|j: int| 0 <= j < i ==> digit_at(a@, il as int, j) == digit_at(b@, il as int, j),
            decreases il - i,
        {
            let da = a.padded_digit(il, i);
            let db = b.padded_digit(il, i);
            if da < db {
                return true;
            }
            if da > db {
                proof {
                    lemma_no_lt_after_gt(a@, b@, il as int, i as int);
                }
                return false;
            }
            i += 1;
        }
        let mut j: usize = 0;
        while j < fl
            invariant
                j <= fl,
                il >= a@.int_digits.len(),
                il >= b@.int_digits.len(),
                fl >= a@.frac_digits.len(),
                fl >= b@.frac_digits.len(),
                forall|k: int| 0 <= k < il + j ==> digit_at(a@, il as int, k) == digit_at(b@, il as int, k),
            decreases fl - j,
        {
            let da = if j < a.frac_digits.len() {
                a.frac_digits[j]
            } else {
                0
            };
            let db = if j < b.frac_digits.len() {
                b.frac_digits[j]
            } else {
                0
            };
            proof {
                assert(da == digit_at(a@, il as int, il + j));
                assert(db == digit_at(b@, il as int, il + j));
            }
            if da < db {
                return true;
            }
            if da > db {
                proof {
                    lemma_no_lt_after_gt(a@, b@, il as int, il + j);
                }
                return false;
            }
            j += 1;
        }
        proof {
            lemma_eq_upto_all(a@, b@, il as int, il + fl);
            if mag_lt_at(a@, b@, il as int) {
                let w = choose|w: int|
                    0 <= w && digit_at(a@, il as int, w) < digit_at(b@, il as int, w) && (
                    forall|k: int|
                        0 <= k < w ==> digit_at(a@, il as int, k) == digit_at(b@, il as int, k));
                assert(digit_at(a@, il as int, w) == digit_at(b@, il as int, w));
            }
        }
        false
    }

    /// Non-strict numeric comparison: below, or the same written value.
    pub fn le(&self, other: &Decimal) -> (r: bool)
        ensures
            r == dec_le(self@, other@),
    {
        let gt = other.lt(self);
        proof {
            lemma_dec_total(other@, self@);
            if dec_le(self@, other@) && dec_lt(other@, self@) {
                lemma_dec_lt_le_trans(other@, self@, other@);
                assert(mag_lt(other@, other@) ==> false) by {
                    if mag_lt(other@, other@) {
                        let j = choose|j: int|
                            0 <= j && digit_at(other@, align_of(other@, other@), j) < digit_at(
                                other@,
                                align_of(other@, other@),
                                j,
                            ) && (forall|i: int|
                                0 <= i < j ==> digit_at(other@, align_of(other@, other@), i)
                                    == digit_at(other@, align_of(other@, other@), i));
                    }
                };
            }
        }
        !gt
    }
}

/// The decimal a numeral token spells: its sign and its digits, exactly as
/// written.
pub open spec fn decimal_of(t: Seq<char>, s: int, e: int) -> DecModel {
    let p0 = num_int_start(t, s);
    let d1 = num_int_len(t, s);
    DecModel {
        neg: t[s] == '-',
        int_digits: Seq::new(d1 as nat, |i: int| spec_digit_val(t[p0 + i]) as u8),
        frac_digits: if num_has_frac(t, s, e) {
            Seq::new((e - (p0 + d1 + 1)) as nat, |i: int| spec_digit_val(t[p0 + d1 + 1 + i]) as u8)
        } else {
            Seq::empty()
        },
    }
}

/// The digit values of the digit characters `v[start .. end]`.
fn digits_vec(v: &Vec<char>, start: usize, end: usize) -> (d: Vec<u8>)
    requires
        start <= end <= v@.len(),
        forall|i: int| start <= i < end ==> spec_is_digit(v@[i]),
    ensures
        d@ =~= Seq::new((end - start) as nat, |i: int| spec_digit_val(v@[start + i]) as u8),
        forall|i: int| 0 <= i < d@.len() ==> d@[i] < 10,
{
    let mut d: Vec<u8> = Vec::new();
    let mut i: usize = start;
    while i < end
        invariant
            start <= i <= end,
            d@.len() == i - start,
            forall|j: int| 0 <= j < i - start ==> d@[j] == spec_digit_val(v@[start + j]) as u8,
            forall|j: int| 0 <= j < i - start ==> d@[j] < 10,
        decreases end - i,
    {
        d.push((v[i] as u8) - 48);
        i += 1;
    }
    d
}

impl Decimal {
    /// Reads the decimal a numeral token spells.
    pub fn from_span(v: &Vec<char>, s: usize, e: usize) -> (d: Decimal)
        requires
            s < e <= v@.len(),
            e as int == s + number_len(v@, s as int),
            number_len(v@, s as int) > 0,
        ensures
            d@ == decimal_of(v@, s as int, e as int),
            d.wf(),
    {
        let neg = v[s] == '-';
        let p0 = if neg {
            s + 1
        } else {
            s
        };
        let d1 = digit_run_at(v, p0);
        proof {
            lemma_digit_run_digits(v@, p0 as int);
        }
        let int_digits = digits_vec(v, p0, p0 + d1);
        let frac_digits = if p0 + d1 < e {
            proof {
                lemma_digit_run_digits(v@, p0 + d1 + 1);
            }
            digits_vec(v, p0 + d1 + 1, e)
        } else {
            Vec::new()
        };
        let d = Decimal { neg, int_digits, frac_digits };
        proof {
            assert(d@.int_digits =~= decimal_of(v@, s as int, e as int).int_digits);
            assert(d@.frac_digits =~= decimal_of(v@, s as int, e as int).frac_digits);
            assert(d1 >= 1);
        }
        d
    }
}

impl Decimal {
    /// An identical copy of this decimal.
    pub fn duplicate(&self) -> (r: Decimal)
        ensures
            r@ == self@,
    {
        let mut int_digits: Vec<u8> = Vec::new();
        let mut i: usize = 0;
        while i < self.int_digits.len()
            invariant
                i <= self@.int_digits.len(),
                int_digits@ =~= self@.int_digits.subrange(0, i as int),
            decreases self@.int_digits.len() - i,
        {
            int_digits.push(self.int_digits[i]);
            proof {
                assert(int_digits@ =~= self@.int_digits.subrange(0, i + 1));
            }
            i += 1;
        }
        let mut frac_digits: Vec<u8> = Vec::new();
        let mut i: usize = 0;
        while i < self.frac_digits.len()
            invariant
                i <= self@.frac_digits.len(),
                int_digits@ =~= self@.int_digits,
                frac_digits@ =~= self@.frac_digits.subrange(0, i as int),
            decreases self@.frac_digits.len() - i,
        {
            frac_digits.push(self.frac_digits[i]);
            proof {
                assert(frac_digits@ =~= self@.frac_digits.subrange(0, i + 1));
            }
            i += 1;
        }
        proof {
            assert(int_digits@ =~= self@.int_digits);
            assert(frac_digits@ =~= self@.frac_digits);
        }
        Decimal { neg: self.neg, int_digits, frac_digits }
    }
}

impl PartialEq for Decimal {
    /// Structural equality: same sign and the same digits, written the same
    /// way.
    fn eq(&self, other: &Decimal) -> (r: bool) {
        if self.neg != other.neg || self.int_digits.len() != other.int_digits.len()
            || self.frac_digits.len() != other.frac_digits.len() {
            return false;
        }
        let mut i: usize = 0;
        while i < self.int_digits.len()
            invariant
                i <= self@.int_digits.len(),
                self@.int_digits.len() == other@.int_digits.len(),
                self@.frac_digits.len() == other@.frac_digits.len(),
                self@.neg == other@.neg,
                forall|j: int| 0 <= j < i ==> self@.int_digits[j] == other@.int_digits[j],
            decreases self@.int_digits.len() - i,
        {
            if self.int_digits[i] != other.int_digits[i] {
                return false;
            }
            i += 1;
        }
        let mut i: usize = 0;
        while i < self.frac_digits.len()
            invariant
                i <= self@.frac_digits.len(),
                self@.int_digits =~= other@.int_digits,
                self@.frac_digits.len() == other@.frac_digits.len(),
                self@.neg == other@.neg,
                forall|j: int| 0 <= j < i ==> self@.frac_digits[j] == other@.frac_digits[j],
            decreases self@.frac_digits.len() - i,
        {
            if self.frac_digits[i] != other.frac_digits[i] {
                return false;
            }
            i += 1;
        }
        proof {
            assert(self@.int_digits =~= other@.int_digits);
            assert(self@.frac_digits =~= other@.frac_digits);
        }
        true
    }
}

impl vstd::std_specs::cmp::PartialEqSpecImpl for Decimal {
    open spec fn obeys_eq_spec() -> bool {
        true
    }

    open spec fn eq_spec(&self, other: &Decimal) -> bool {
        self@ == other@
    }
}

} // verus!
