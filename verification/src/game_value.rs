//! A game value is a non-negative counter of unbounded size with a
//! humanized display form: up to three significant digits followed by a
//! magnitude suffix (`k`, `M`, `G`, ...), as in `1.5k` for 1500.

use vstd::prelude::*;
use vstd::string::StringExecFns;
use crate::digits::{
    add_digits, digits_from_u64, digits_of, digits_value, digits_wf, lemma_digits_of_correct,
    lemma_digits_of_value, lemma_digits_value_lower, lemma_digits_value_upper,
    lemma_pow10_increases, lt_digits, mul_digits, pow10, sub_digits,
};

verus! {

/// Reading a digit sequence most significant digit first.
pub open spec fn rev_digits(s: Seq<u8>) -> Seq<u8> {
    Seq::new(s.len(), |i: int| s[s.len() - 1 - i])
}

pub open spec fn digit_char(d: u8) -> char {
    if d == 0 {
        '0'
    } else if d == 1 {
        '1'
    } else if d == 2 {
        '2'
    } else if d == 3 {
        '3'
    } else if d == 4 {
        '4'
    } else if d == 5 {
        '5'
    } else if d == 6 {
        '6'
    } else if d == 7 {
        '7'
    } else if d == 8 {
        '8'
    } else {
        '9'
    }
}

pub open spec fn chars_of_be(s: Seq<u8>) -> Seq<char> {
    Seq::new(s.len(), |i: int| digit_char(s[i]))
}

/// Drop zeros from the end of a fractional part.
pub open spec fn strip_trailing_zeros(s: Seq<u8>) -> Seq<u8>
    decreases s.len(),
{
    if s.len() > 0 && s[s.len() - 1] == 0 {
        strip_trailing_zeros(s.drop_last())
    } else {
        s
    }
}

/// The ordered magnitude suffixes; one step for every three decimal digits.
pub open spec fn suffix_chars(m: nat) -> Seq<char> {
    if m == 0 {
        Seq::empty()
    } else if m == 1 {
        seq!['k']
    } else if m == 2 {
        seq!['M']
    } else if m == 3 {
        seq!['G']
    } else if m == 4 {
        seq!['T']
    } else if m == 5 {
        seq!['P']
    } else if m == 6 {
        seq!['E']
    } else if m == 7 {
        seq!['Z']
    } else if m == 8 {
        seq!['Y']
    } else if m == 9 {
        seq!['R']
    } else {
        seq!['Q']
    }
}

/// How many decimal digits a value prints with (one digit for zero).
pub open spec fn spec_digit_count(v: nat) -> nat {
    if v == 0 {
        1
    } else {
        digits_of(v).len()
    }
}

/// The humanized rendering of a value: plain digits up to 999, then the
/// first three significant digits split around a decimal point (trailing
/// fractional zeros dropped) and a magnitude suffix chosen so that three
/// more digits move one suffix up.
pub open spec fn display_chars(v: nat) -> Seq<char> {
    if v == 0 {
        seq!['0']
    } else {
        let be = rev_digits(digits_of(v));
        let dc = be.len();
        if dc <= 3 {
            chars_of_be(be)
        } else {
            let m = ((dc - 1) as nat) / 3;
            let int_len = (dc - 3 * m) as int;
            let mant = be.take(3);
            let frac = strip_trailing_zeros(mant.skip(int_len));
            chars_of_be(mant.take(int_len)) + (if frac.len() > 0 {
                seq!['.'] + chars_of_be(frac)
            } else {
                Seq::empty()
            }) + suffix_chars(m)
        }
    }
}

/// The plain decimal rendering of a number as characters.
pub open spec fn dec_chars(n: nat) -> Seq<char> {
    if n == 0 {
        seq!['0']
    } else {
        chars_of_be(rev_digits(digits_of(n)))
    }
}

/// Values below this bound have at most 33 digits, so their magnitude
/// suffix exists in the catalog (index at most 10).
pub open spec fn display_bound() -> nat {
    pow10(33)
}

/// Anything with a humanized string form.
pub trait GameValue {
    /// Whether the value is inside the range the display catalog covers.
    spec fn display_ready(&self) -> bool;

    /// The exact character sequence the value prints as.
    spec fn display_view(&self) -> Seq<char>;

    fn to_string_hum(&self) -> (s: String)
        requires
            self.display_ready(),
        ensures
            s@ == self.display_view(),
    ;
}

/// An arbitrary-precision non-negative integer, stored as little-endian
/// decimal digits with no leading zero; it never wraps and never goes
/// negative (subtraction demands the subtrahend fit under the value).
#[derive(Debug)]
pub struct GameUInt {
    digits: Vec<u8>,
}

impl View for GameUInt {
    type V = nat;

    closed spec fn view(&self) -> nat {
        digits_value(self.digits@)
    }
}

impl GameUInt {
    /// The representation invariant: canonical decimal digits.
    pub closed spec fn wf(&self) -> bool {
        digits_wf(self.digits@)
    }

    pub closed spec fn spec_digits(&self) -> Seq<u8> {
        self.digits@
    }

    pub fn new(digits: Vec<u8>) -> (r: GameUInt)
        requires
            digits_wf(digits@),
        ensures
            r.wf(),
            r@ == digits_value(digits@),
    {
        GameUInt { digits }
    }

    pub fn from_u64(x: u64) -> (r: GameUInt)
        ensures
            r.wf(),
            r@ == x,
    {
        GameUInt { digits: digits_from_u64(x) }
    }

    pub fn one() -> (r: GameUInt)
        ensures
            r.wf(),
            r@ == 1,
    {
        GameUInt::from_u64(1)
    }

    /// A copy of the underlying little-endian digits.
    pub fn get(&self) -> (r: Vec<u8>)
        requires
            self.wf(),
        ensures
            digits_wf(r@),
            digits_value(r@) == self@,
    {
        let mut out: Vec<u8> = Vec::new();
        let mut i: usize = 0;
        while i < self.digits.len()
            invariant
                i <= self.digits.len(),
                out@ =~= self.digits@.take(i as int),
            decreases self.digits.len() - i,
        {
            out.push(self.digits[i]);
            i = i + 1;
        }
        proof {
            assert(out@ =~= self.digits@);
        }
        out
    }

    /// The underlying little-endian digits.
    pub fn take(self) -> (r: Vec<u8>)
        requires
            self.wf(),
        ensures
            digits_wf(r@),
            digits_value(r@) == self@,
    {
        self.digits
    }

    pub fn is_zero(&self) -> (r: bool)
        requires
            self.wf(),
        ensures
            r == (self@ == 0),
    {
        proof {
            if self.digits@.len() > 0 {
                lemma_digits_value_lower(self.digits@);
                crate::digits::lemma_pow10_positive((self.digits@.len() - 1) as nat);
            }
        }
        self.digits.len() == 0
    }

    /// How many decimal digits the value prints with.
    pub fn digit_count(&self) -> (r: usize)
        requires
            self.wf(),
        ensures
            r == spec_digit_count(self@),
    {
        proof {
            lemma_digits_of_value(self.digits@);
            if self.digits@.len() > 0 {
                lemma_digits_value_lower(self.digits@);
                crate::digits::lemma_pow10_positive((self.digits@.len() - 1) as nat);
            }
        }
        if self.digits.len() == 0 {
            1
        } else {
            self.digits.len()
        }
    }

    pub fn add_assign(&mut self, rhs: &GameUInt)
        requires
            old(self).wf(),
            rhs.wf(),
        ensures
            final(self).wf(),
            final(self)@ == old(self)@ + rhs@,
    {
        let sum = add_digits(&self.digits, &rhs.digits);
        self.digits = sum;
    }

    pub fn add_assign_u64(&mut self, x: u64)
        requires
            old(self).wf(),
        ensures
            final(self).wf(),
            final(self)@ == old(self)@ + x,
    {
        let xs = digits_from_u64(x);
        let sum = add_digits(&self.digits, &xs);
        self.digits = sum;
    }

    /// Subtraction; callers must have checked `rhs` does not exceed `self`.
    pub fn sub_assign(&mut self, rhs: &GameUInt)
        requires
            old(self).wf(),
            rhs.wf(),
            rhs@ <= old(self)@,
        ensures
            final(self).wf(),
            final(self)@ == old(self)@ - rhs@,
    {
        let diff = sub_digits(&self.digits, &rhs.digits);
        self.digits = diff;
    }

    pub fn mul(&self, rhs: &GameUInt) -> (r: GameUInt)
        requires
            self.wf(),
            rhs.wf(),
        ensures
            r.wf(),
            r@ == self@ * rhs@,
    {
        GameUInt { digits: mul_digits(&self.digits, &rhs.digits) }
    }

    pub fn lt(&self, rhs: &GameUInt) -> (r: bool)
        requires
            self.wf(),
            rhs.wf(),
        ensures
            r == (self@ < rhs@),
    {
        lt_digits(&self.digits, &rhs.digits)
    }

    /// Raise to a small power by repeated multiplication.
    pub fn pow(&self, exp: u32) -> (r: GameUInt)
        requires
            self.wf(),
        ensures
            r.wf(),
            r@ == nat_pow(self@, exp as nat),
    {
        let mut acc = GameUInt::one();
        let mut i: u32 = 0;
        while i < exp
            invariant
                i <= exp,
                self.wf(),
                acc.wf(),
                acc@ == nat_pow(self@, i as nat),
            decreases exp - i,
        {
            let next = acc.mul(self);
            proof {
                assert(nat_pow(self@, (i + 1) as nat) == nat_pow(self@, i as nat) * self@);
            }
            acc = next;
            i = i + 1;
        }
        acc
    }
}

pub open spec fn nat_pow(b: nat, e: nat) -> nat
    decreases e,
{
    if e == 0 {
        1
    } else {
        nat_pow(b, (e - 1) as nat) * b
    }
}

impl Clone for GameUInt {
    fn clone(&self) -> (r: Self)
        ensures
            r.spec_digits() == self.spec_digits(),
            r@ == self@,
            r.wf() == self.wf(),
    {
        let mut out: Vec<u8> = Vec::new();
        let mut i: usize = 0;
        while i < self.digits.len()
            invariant
                i <= self.digits.len(),
                out@ =~= self.digits@.take(i as int),
            decreases self.digits.len() - i,
        {
            out.push(self.digits[i]);
            i = i + 1;
        }
        proof {
            assert(out@ =~= self.digits@);
        }
        GameUInt { digits: out }
    }
}

impl PartialEq for GameUInt {
    fn eq(&self, other: &GameUInt) -> (r: bool) {
        if self.digits.len() != other.digits.len() {
            return false;
        }
        let mut i: usize = 0;
        while i < self.digits.len()
            invariant
                i <= self.digits.len(),
                self.digits@.len() == other.digits@.len(),
                forall|j: int| 0 <= j < i ==> self.digits@[j] == other.digits@[j],
            decreases self.digits.len() - i,
        {
            if self.digits[i] != other.digits[i] {
                return false;
            }
            i = i + 1;
        }
        proof {
            assert(self.digits@ =~= other.digits@);
        }
        true
    }
}

impl vstd::std_specs::cmp::PartialEqSpecImpl for GameUInt {
    open spec fn obeys_eq_spec() -> bool {
        true
    }

    open spec fn eq_spec(&self, other: &GameUInt) -> bool {
        self.spec_digits() == other.spec_digits()
    }
}

impl Eq for GameUInt {

}

impl Default for GameUInt {
    fn default() -> (r: GameUInt)
        ensures
            r.wf(),
            r@ == 0,
    {
        GameUInt { digits: Vec::new() }
    }
}

/// Append one decimal digit character.
pub(crate) fn push_digit(s: &mut String, d: u8)
    requires
        d < 10,
    ensures
        final(s)@ == old(s)@ + seq![digit_char(d)],
{
    if d == 0 {
        proof {
            reveal_strlit("0");
            assert(("0")@ =~= seq![digit_char(0)]);
        }
        s.append("0");
    } else if d == 1 {
        proof {
            reveal_strlit("1");
            assert(("1")@ =~= seq![digit_char(1)]);
        }
        s.append("1");
    } else if d == 2 {
        proof {
            reveal_strlit("2");
            assert(("2")@ =~= seq![digit_char(2)]);
        }
        s.append("2");
    } else if d == 3 {
        proof {
            reveal_strlit("3");
            assert(("3")@ =~= seq![digit_char(3)]);
        }
        s.append("3");
    } else if d == 4 {
        proof {
            reveal_strlit("4");
            assert(("4")@ =~= seq![digit_char(4)]);
        }
        s.append("4");
    } else if d == 5 {
        proof {
            reveal_strlit("5");
            assert(("5")@ =~= seq![digit_char(5)]);
        }
        s.append("5");
    } else if d == 6 {
        proof {
            reveal_strlit("6");
            assert(("6")@ =~= seq![digit_char(6)]);
        }
        s.append("6");
    } else if d == 7 {
        proof {
            reveal_strlit("7");
            assert(("7")@ =~= seq![digit_char(7)]);
        }
        s.append("7");
    } else if d == 8 {
        proof {
            reveal_strlit("8");
            assert(("8")@ =~= seq![digit_char(8)]);
        }
        s.append("8");
    } else {
        proof {
            reveal_strlit("9");
            assert(("9")@ =~= seq![digit_char(9)]);
        }
        s.append("9");
    }
}

/// The magnitude suffix for `m` steps of three digits.
fn magnitude_suffix(m: usize) -> (r: &'static str)
    requires
        m <= 10,
    ensures
        r@ == suffix_chars(m as nat),
{
    if m == 0 {
        proof {
            reveal_strlit("");
            assert(("")@ =~= Seq::<char>::empty());
        }
        ""
    } else if m == 1 {
        proof {
            reveal_strlit("k");
            assert(("k")@ =~= seq!['k']);
        }
        "k"
    } else if m == 2 {
        proof {
            reveal_strlit("M");
            assert(("M")@ =~= seq!['M']);
        }
        "M"
    } else if m == 3 {
        proof {
            reveal_strlit("G");
            assert(("G")@ =~= seq!['G']);
        }
        "G"
    } else if m == 4 {
        proof {
            reveal_strlit("T");
            assert(("T")@ =~= seq!['T']);
        }
        "T"
    } else if m == 5 {
        proof {
            reveal_strlit("P");
            assert(("P")@ =~= seq!['P']);
        }
        "P"
    } else if m == 6 {
        proof {
            reveal_strlit("E");
            assert(("E")@ =~= seq!['E']);
        }
        "E"
    } else if m == 7 {
        proof {
            reveal_strlit("Z");
            assert(("Z")@ =~= seq!['Z']);
        }
        "Z"
    } else if m == 8 {
        proof {
            reveal_strlit("Y");
            assert(("Y")@ =~= seq!['Y']);
        }
        "Y"
    } else if m == 9 {
        proof {
            reveal_strlit("R");
            assert(("R")@ =~= seq!['R']);
        }
        "R"
    } else {
        proof {
            reveal_strlit("Q");
            assert(("Q")@ =~= seq!['Q']);
        }
        "Q"
    }
}

impl GameUInt {
    /// The humanized rendering: plain digits up to three digits, then
    /// three significant digits and a magnitude suffix.
    pub fn to_display_string(&self) -> (s: String)
        requires
            self.wf(),
            self@ < display_bound(),
        ensures
            s@ == display_chars(self@),
    {
        let len = self.digits.len();
        proof {
            lemma_digits_of_value(self.digits@);
        }
        if len == 0 {
            let mut s = String::new();
            proof {
                reveal_strlit("0");
                assert(("0")@ =~= seq!['0']);
            }
            s.append("0");
            proof {
                assert(s@ =~= seq!['0']);
            }
            return s;
        }
        proof {
            lemma_digits_value_lower(self.digits@);
            crate::digits::lemma_pow10_positive((len - 1) as nat);
        }
        let ghost be = rev_digits(self.digits@);
        proof {
            assert(be =~= rev_digits(digits_of(self@)));
        }
        if len <= 3 {
            let mut s = String::new();
            let mut j: usize = 0;
            while j < len
                invariant
                    j <= len,
                    len == self.digits@.len(),
                    self.wf(),
                    be == rev_digits(self.digits@),
                    s@ =~= chars_of_be(be.take(j as int)),
                decreases len - j,
            {
                push_digit(&mut s, self.digits[len - 1 - j]);
                proof {
                    assert(be[j as int] == self.digits@[len - 1 - j as int]);
                    assert(chars_of_be(be.take(j + 1)) =~= chars_of_be(be.take(j as int)).push(
                        digit_char(be[j as int]),
                    ));
                }
                j = j + 1;
            }
            proof {
                assert(be.take(len as int) =~= be);
                assert(s@ =~= display_chars(self@));
            }
            return s;
        }
        // More than three digits: truncate to the three most significant.
        proof {
            if len > 33 {
                lemma_pow10_increases(33, (len - 1) as nat);
            }
            vstd::arithmetic::div_mod::lemma_fundamental_div_mod((len - 1) as int, 3);
        }
        let m = (len - 1) / 3;
        let int_len = len - 3 * m;
        proof {
            assert(1 <= int_len <= 3);
            assert(m <= 10);
        }
        let mut s = String::new();
        let mut j: usize = 0;
        while j < int_len
            invariant
                j <= int_len,
                int_len <= 3,
                3 < len,
                len == self.digits@.len(),
                self.wf(),
                be == rev_digits(self.digits@),
                s@ =~= chars_of_be(be.take(j as int)),
            decreases int_len - j,
        {
            push_digit(&mut s, self.digits[len - 1 - j]);
            proof {
                assert(be[j as int] == self.digits@[len - 1 - j as int]);
                assert(chars_of_be(be.take(j + 1)) =~= chars_of_be(be.take(j as int)).push(
                    digit_char(be[j as int]),
                ));
            }
            j = j + 1;
        }
        let ghost mant = be.take(3);
        let ghost frac = strip_trailing_zeros(mant.skip(int_len as int));
        proof {
            assert(mant.take(int_len as int) =~= be.take(int_len as int));
        }
        if int_len == 1 {
            let d1 = self.digits[len - 2];
            let d2 = self.digits[len - 3];
            proof {
                assert(be[1] == d1 && be[2] == d2);
                assert(mant.skip(1) =~= seq![d1, d2]);
            }
            if d2 != 0 {
                proof {
                    reveal_strlit(".");
                    assert((".")@ =~= seq!['.']);
                }
                s.append(".");
                push_digit(&mut s, d1);
                push_digit(&mut s, d2);
                proof {
                    assert(frac =~= seq![d1, d2]);
                    assert(chars_of_be(frac) =~= seq![digit_char(d1), digit_char(d2)]);
                }
            } else if d1 != 0 {
                proof {
                    reveal_strlit(".");
                    assert((".")@ =~= seq!['.']);
                }
                s.append(".");
                push_digit(&mut s, d1);
                proof {
                    assert(seq![d1, d2].drop_last() =~= seq![d1]);
                    assert(strip_trailing_zeros(seq![d1, d2]) == strip_trailing_zeros(seq![d1]));
                    assert(strip_trailing_zeros(seq![d1]) == seq![d1]);
                    assert(frac =~= seq![d1]);
                    assert(chars_of_be(frac) =~= seq![digit_char(d1)]);
                }
            } else {
                proof {
                    assert(seq![d1, d2].drop_last() =~= seq![d1]);
                    assert(strip_trailing_zeros(seq![d1, d2]) == strip_trailing_zeros(seq![d1]));
                    assert(seq![d1].drop_last() =~= Seq::<u8>::empty());
                    assert(strip_trailing_zeros(seq![d1]) == strip_trailing_zeros(
                        Seq::<u8>::empty(),
                    ));
                    assert(strip_trailing_zeros(Seq::<u8>::empty()) =~= Seq::<u8>::empty());
                    assert(frac =~= Seq::<u8>::empty());
                }
            }
        } else if int_len == 2 {
            let d2 = self.digits[len - 3];
            proof {
                assert(be[2] == d2);
                assert(mant.skip(2) =~= seq![d2]);
            }
            if d2 != 0 {
                proof {
                    reveal_strlit(".");
                    assert((".")@ =~= seq!['.']);
                }
                s.append(".");
                push_digit(&mut s, d2);
                proof {
                    assert(frac =~= seq![d2]);
                    assert(chars_of_be(frac) =~= seq![digit_char(d2)]);
                }
            } else {
                proof {
                    assert(seq![d2].drop_last() =~= Seq::<u8>::empty());
                    assert(strip_trailing_zeros(seq![d2]) == strip_trailing_zeros(
                        Seq::<u8>::empty(),
                    ));
                    assert(strip_trailing_zeros(Seq::<u8>::empty()) =~= Seq::<u8>::empty());
                    assert(frac =~= Seq::<u8>::empty());
                }
            }
        } else {
            proof {
                assert(mant.skip(3) =~= Seq::<u8>::empty());
                assert(frac =~= Seq::<u8>::empty());
            }
        }
        let suffix = magnitude_suffix(m);
        s.append(suffix);
        proof {
            assert(s@ =~= display_chars(self@));
        }
        s
    }
}

impl GameValue for GameUInt {
    open spec fn display_ready(&self) -> bool {
        self.wf() && self@ < display_bound()
    }

    open spec fn display_view(&self) -> Seq<char> {
        display_chars(self@)
    }

    fn to_string_hum(&self) -> (s: String) {
        self.to_display_string()
    }
}


/// Values up to three digits display as their plain decimal rendering.
pub proof fn lemma_display_plain(v: nat)
    requires
        v < 1000,
    ensures
        display_chars(v) == dec_chars(v),
        display_chars(v).len() == spec_digit_count(v),
{
    if v > 0 {
        lemma_digits_of_correct(v);
        if digits_of(v).len() > 3 {
            lemma_digits_value_lower(digits_of(v));
            lemma_pow10_increases(3, (digits_of(v).len() - 1) as nat);
            assert(pow10(3) == 1000) by {
                reveal_with_fuel(pow10, 4);
            }
        }
    }
}

/// Above three digits, the display recovers the digit count: the suffix
/// index and the number of integer digits before the point determine it
/// exactly, and the integer digits are the leading digits of the value.
pub proof fn lemma_display_digit_count(v: nat)
    requires
        1000 <= v < display_bound(),
    ensures
        ({
            let dc = spec_digit_count(v);
            let m = ((dc - 1) as nat) / 3;
            let int_len = dc - 3 * m;
            &&& dc > 3
            &&& 1 <= int_len <= 3
            &&& 1 <= m <= 10
            &&& dc == 3 * m + int_len
            &&& display_chars(v).take(int_len as int) == chars_of_be(
                rev_digits(digits_of(v)).take(int_len as int),
            )
            &&& display_chars(v).len() > int_len
            &&& display_chars(v).last() == suffix_chars(m)[0]
            &&& suffix_chars(m).len() == 1
        }),
{
    lemma_digits_of_correct(v);
    let ds = digits_of(v);
    let dc = ds.len();
    if dc <= 3 {
        lemma_digits_value_upper(ds);
        lemma_pow10_increases(dc, 3);
        assert(pow10(3) == 1000) by {
            reveal_with_fuel(pow10, 4);
        }
    }
    if dc > 33 {
        lemma_digits_value_lower(ds);
        lemma_pow10_increases(33, (dc - 1) as nat);
    }
    vstd::arithmetic::div_mod::lemma_fundamental_div_mod((dc - 1) as int, 3);
    let m = ((dc - 1) as nat) / 3;
    let int_len = (dc - 3 * m) as int;
    let be = rev_digits(ds);
    let mant = be.take(3);
    let frac = strip_trailing_zeros(mant.skip(int_len));
    let mid: Seq<char> = if frac.len() > 0 {
        seq!['.'] + chars_of_be(frac)
    } else {
        Seq::empty()
    };
    assert(display_chars(v) == chars_of_be(mant.take(int_len)) + mid + suffix_chars(m as nat));
    assert(mant.take(int_len) =~= be.take(int_len));
    assert(display_chars(v).take(int_len) =~= chars_of_be(be.take(int_len)));
    assert(display_chars(v).last() == suffix_chars(m as nat)[0]);
}

} // verus!
