//! Little-endian decimal digit vectors: the representation behind the
//! game's arbitrary-precision counters.
//!
//! A number is a `Vec<u8>` of decimal digits, least significant first,
//! with no zero in the most significant place (so zero is the empty
//! vector and every value has exactly one well-formed representation).

use vstd::prelude::*;

verus! {

/// Every entry is a decimal digit and the most significant digit is not zero.
pub open spec fn digits_wf(s: Seq<u8>) -> bool {
    &&& forall|i: int| 0 <= i < s.len() ==> s[i] < 10
    &&& s.len() > 0 ==> s[s.len() - 1] != 0
}

/// The number a little-endian digit sequence denotes.
pub open spec fn digits_value(s: Seq<u8>) -> nat
    decreases s.len(),
{
    if s.len() == 0 {
        0
    } else {
        (s[0] + 10 * digits_value(s.drop_first())) as nat
    }
}

pub open spec fn pow10(n: nat) -> nat
    decreases n,
{
    if n == 0 {
        1
    } else {
        10 * pow10((n - 1) as nat)
    }
}

/// The canonical little-endian digit sequence of a number.
pub open spec fn digits_of(n: nat) -> Seq<u8>
    decreases n,
{
    if n == 0 {
        Seq::empty()
    } else {
        seq![(n % 10) as u8] + digits_of(n / 10)
    }
}

pub proof fn lemma_pow10_positive(n: nat)
    ensures
        pow10(n) >= 1,
    decreases n,
{
    if n > 0 {
        lemma_pow10_positive((n - 1) as nat);
    }
}

pub proof fn lemma_pow10_increases(a: nat, b: nat)
    requires
        a <= b,
    ensures
        pow10(a) <= pow10(b),
    decreases b,
{
    if a < b {
        lemma_pow10_increases(a, (b - 1) as nat);
        lemma_pow10_positive((b - 1) as nat);
    }
}

/// Appending a digit at the most significant end adds `d * pow10(len)`.
pub proof fn lemma_digits_value_push(s: Seq<u8>, d: u8)
    ensures
        digits_value(s.push(d)) == digits_value(s) + d * pow10(s.len()),
    decreases s.len(),
{
    if s.len() == 0 {
        assert(s.push(d).drop_first() =~= Seq::<u8>::empty());
        assert(s.push(d)[0] == d);
        assert(digits_value(Seq::<u8>::empty()) == 0);
        assert(digits_value(s) == 0);
        assert(pow10(s.len()) == 1);
        assert(digits_value(s.push(d)) == d);
        assert(digits_value(s.push(d)) == digits_value(s) + d * pow10(s.len()));
    } else {
        assert(s.push(d).drop_first() =~= s.drop_first().push(d));
        lemma_digits_value_push(s.drop_first(), d);
        let vt = digits_value(s.drop_first());
        let p = pow10((s.len() - 1) as nat);
        assert(s.push(d)[0] == s[0]);
        assert(digits_value(s.push(d)) == s[0] + 10 * (vt + d * p));
        assert(10 * (vt + d * p) == 10 * vt + d * (10 * p)) by (nonlinear_arith);
        assert(pow10(s.len()) == 10 * p);
        assert(digits_value(s) == s[0] + 10 * vt);
        assert(digits_value(s.push(d)) == digits_value(s) + d * pow10(s.len()));
    }
}

/// A digit sequence is bounded by `pow10` of its length.
pub proof fn lemma_digits_value_upper(s: Seq<u8>)
    requires
        forall|i: int| 0 <= i < s.len() ==> s[i] < 10,
    ensures
        digits_value(s) < pow10(s.len()),
    decreases s.len(),
{
    if s.len() > 0 {
        lemma_digits_value_upper(s.drop_first());
    }
}

/// A well-formed, non-empty digit sequence reaches `pow10(len - 1)`.
pub proof fn lemma_digits_value_lower(s: Seq<u8>)
    requires
        digits_wf(s),
        s.len() > 0,
    ensures
        digits_value(s) >= pow10((s.len() - 1) as nat),
    decreases s.len(),
{
    if s.len() == 1 {
    } else {
        assert(digits_wf(s.drop_first()));
        lemma_digits_value_lower(s.drop_first());
    }
}

/// Two well-formed digit sequences with the same value are equal.
pub proof fn lemma_digits_value_injective(a: Seq<u8>, b: Seq<u8>)
    requires
        digits_wf(a),
        digits_wf(b),
        digits_value(a) == digits_value(b),
    ensures
        a =~= b,
    decreases a.len(),
{
    if a.len() == 0 {
        if b.len() > 0 {
            lemma_digits_value_lower(b);
            lemma_pow10_positive((b.len() - 1) as nat);
        }
    } else if b.len() == 0 {
        lemma_digits_value_lower(a);
        lemma_pow10_positive((a.len() - 1) as nat);
    } else {
        let v = digits_value(a);
        vstd::arithmetic::div_mod::lemma_fundamental_div_mod_converse(
            v as int,
            10,
            digits_value(a.drop_first()) as int,
            a[0] as int,
        );
        vstd::arithmetic::div_mod::lemma_fundamental_div_mod_converse(
            v as int,
            10,
            digits_value(b.drop_first()) as int,
            b[0] as int,
        );
        assert(a[0] == b[0]);
        assert(digits_wf(a.drop_first()));
        assert(digits_wf(b.drop_first()));
        lemma_digits_value_injective(a.drop_first(), b.drop_first());
        assert(a =~= seq![a[0]] + a.drop_first());
        assert(b =~= seq![b[0]] + b.drop_first());
    }
}

/// `digits_of` really is the canonical representation.
pub proof fn lemma_digits_of_correct(n: nat)
    ensures
        digits_wf(digits_of(n)),
        digits_value(digits_of(n)) == n,
    decreases n,
{
    if n > 0 {
        vstd::arithmetic::div_mod::lemma_fundamental_div_mod(n as int, 10);
        assert(n / 10 < n) by (nonlinear_arith)
            requires n > 0;
        lemma_digits_of_correct(n / 10);
        let s = digits_of(n);
        assert(s.drop_first() =~= digits_of(n / 10));
        if n / 10 == 0 {
            assert(s.len() == 1);
            assert(s[0] == n % 10);
            assert(n % 10 != 0);
        }
    }
}

/// The canonical form of the value of a well-formed sequence is that sequence.
pub proof fn lemma_digits_of_value(s: Seq<u8>)
    requires
        digits_wf(s),
    ensures
        digits_of(digits_value(s)) =~= s,
{
    lemma_digits_of_correct(digits_value(s));
    lemma_digits_value_injective(digits_of(digits_value(s)), s);
}

/// Every entry is a decimal digit; the most significant one may still be zero.
pub open spec fn all_digits(s: Seq<u8>) -> bool {
    forall|i: int| 0 <= i < s.len() ==> s[i] < 10
}

/// The first `i` digits, clamped to the sequence's length.
pub open spec fn clamp_take(s: Seq<u8>, i: int) -> Seq<u8> {
    if i < 0 {
        Seq::empty()
    } else if i <= s.len() {
        s.take(i)
    } else {
        s
    }
}

pub proof fn lemma_clamp_take_step(s: Seq<u8>, i: int)
    requires
        0 <= i,
    ensures
        i < s.len() ==> digits_value(clamp_take(s, i + 1)) == digits_value(clamp_take(s, i)) + s[i]
            * pow10(i as nat),
        i >= s.len() ==> digits_value(clamp_take(s, i + 1)) == digits_value(clamp_take(s, i)),
{
    if i < s.len() {
        assert(clamp_take(s, i + 1) =~= clamp_take(s, i).push(s[i]));
        assert(clamp_take(s, i).len() == i);
        lemma_digits_value_push(clamp_take(s, i), s[i]);
    } else {
        assert(clamp_take(s, i + 1) =~= clamp_take(s, i));
    }
}

pub proof fn lemma_clamp_take_all(s: Seq<u8>, i: int)
    requires
        i >= s.len(),
    ensures
        digits_value(clamp_take(s, i)) == digits_value(s),
{
    assert(clamp_take(s, i) =~= s);
}

/// Dropping a most-significant zero keeps the value.
pub proof fn lemma_digits_value_drop_last_zero(s: Seq<u8>)
    requires
        s.len() > 0,
        s[s.len() - 1] == 0,
    ensures
        digits_value(s.drop_last()) == digits_value(s),
{
    assert(s =~= s.drop_last().push(0));
    lemma_digits_value_push(s.drop_last(), 0);
}

/// Splitting a sequence splits its value at a power of ten.
pub proof fn lemma_digits_value_split(s: Seq<u8>, i: int)
    requires
        0 <= i <= s.len(),
    ensures
        digits_value(s) == digits_value(s.take(i)) + pow10(i as nat) * digits_value(s.skip(i)),
    decreases i,
{
    if i == 0 {
        assert(s.take(0) =~= Seq::<u8>::empty());
        assert(s.skip(0) =~= s);
        assert(digits_value(Seq::<u8>::empty()) == 0);
        assert(i as nat == 0);
        assert(pow10(i as nat) == 1);
        assert(digits_value(s) == digits_value(s.take(i)) + pow10(i as nat) * digits_value(
            s.skip(i),
        ));
    } else {
        let t = s.drop_first();
        lemma_digits_value_split(t, i - 1);
        assert(s.take(i).drop_first() =~= t.take(i - 1));
        assert(s.skip(i) =~= t.skip(i - 1));
        assert(s.take(i)[0] == s[0]);
        let vt = digits_value(t.take(i - 1));
        let p = pow10((i - 1) as nat);
        let vs = digits_value(t.skip(i - 1));
        assert(digits_value(t) == vt + p * vs);
        assert(digits_value(s) == s[0] + 10 * (vt + p * vs));
        assert(digits_value(s.take(i)) == s[0] + 10 * vt);
        assert(10 * (vt + p * vs) == 10 * vt + (10 * p) * vs) by (nonlinear_arith);
        assert(pow10(i as nat) == 10 * p);
        assert(digits_value(s) == digits_value(s.take(i)) + (10 * p) * vs);
        assert(digits_value(s) == digits_value(s.take(i)) + pow10(i as nat) * digits_value(
            s.skip(i),
        ));
    }
}

/// Strip most-significant zeros so the digits are well formed again.
pub fn normalize(v: &mut Vec<u8>)
    requires
        all_digits(old(v)@),
    ensures
        digits_wf(final(v)@),
        digits_value(final(v)@) == digits_value(old(v)@),
{
    while v.len() > 0 && v[v.len() - 1] == 0
        invariant
            all_digits(v@),
            digits_value(v@) == digits_value(old(v)@),
        decreases v.len(),
    {
        proof {
            lemma_digits_value_drop_last_zero(v@);
        }
        v.pop();
    }
}

/// Schoolbook addition of two digit vectors.
pub fn add_digits(a: &Vec<u8>, b: &Vec<u8>) -> (r: Vec<u8>)
    requires
        all_digits(a@),
        all_digits(b@),
    ensures
        digits_wf(r@),
        digits_value(r@) == digits_value(a@) + digits_value(b@),
{
    let n = if a.len() >= b.len() {
        a.len()
    } else {
        b.len()
    };
    let mut out: Vec<u8> = Vec::new();
    let mut carry: u8 = 0;
    let mut i: usize = 0;
    while i < n
        invariant
            i <= n,
            n == if a.len() >= b.len() {
                a.len()
            } else {
                b.len()
            },
            all_digits(a@),
            all_digits(b@),
            all_digits(out@),
            carry <= 1,
            out.len() == i,
            digits_value(out@) + carry * pow10(i as nat) == digits_value(clamp_take(a@, i as int))
                + digits_value(clamp_take(b@, i as int)),
        decreases n - i,
    {
        let da: u8 = if i < a.len() {
            a[i]
        } else {
            0
        };
        let db: u8 = if i < b.len() {
            b[i]
        } else {
            0
        };
        let s: u8 = da + db + carry;
        let d: u8 = s % 10;
        let c: u8 = s / 10;
        proof {
            let p = pow10(i as nat);
            lemma_digits_value_push(out@, d);
            lemma_clamp_take_step(a@, i as int);
            lemma_clamp_take_step(b@, i as int);
            assert(d + 10 * c == s);
            assert(d * p + c * (10 * p) == (d + 10 * c) * p) by (nonlinear_arith);
            assert(s * p == da * p + db * p + carry * p) by (nonlinear_arith)
                requires
                    s == da + db + carry,
            ;
        }
        out.push(d);
        carry = c;
        i = i + 1;
    }
    proof {
        lemma_clamp_take_all(a@, i as int);
        lemma_clamp_take_all(b@, i as int);
    }
    if carry > 0 {
        proof {
            lemma_digits_value_push(out@, carry);
        }
        out.push(carry);
    }
    normalize(&mut out);
    out
}

/// Schoolbook subtraction; the subtrahend must not exceed the minuend.
pub fn sub_digits(a: &Vec<u8>, b: &Vec<u8>) -> (r: Vec<u8>)
    requires
        digits_wf(a@),
        digits_wf(b@),
        digits_value(b@) <= digits_value(a@),
    ensures
        digits_wf(r@),
        digits_value(r@) == digits_value(a@) - digits_value(b@),
{
    let mut out: Vec<u8> = Vec::new();
    let mut borrow: u8 = 0;
    let mut i: usize = 0;
    while i < a.len()
        invariant
            i <= a.len(),
            digits_wf(a@),
            digits_wf(b@),
            all_digits(out@),
            borrow <= 1,
            out.len() == i,
            digits_value(out@) == digits_value(clamp_take(a@, i as int)) - digits_value(
                clamp_take(b@, i as int),
            ) + borrow * pow10(i as nat),
        decreases a.len() - i,
    {
        let da: u8 = a[i];
        let db: u8 = if i < b.len() {
            b[i]
        } else {
            0
        };
        let need: u8 = db + borrow;
        let (d, c): (u8, u8) = if da >= need {
            (da - need, 0)
        } else {
            (da + 10 - need, 1)
        };
        proof {
            let p = pow10(i as nat);
            lemma_digits_value_push(out@, d);
            lemma_clamp_take_step(a@, i as int);
            lemma_clamp_take_step(b@, i as int);
            assert(d * p == (da + 10 * c - db - borrow) * p) by (nonlinear_arith)
                requires
                    d == da + 10 * c - db - borrow,
            ;
            assert((da + 10 * c - db - borrow) * p == da * p + c * (10 * p) - db * p - borrow * p)
                by (nonlinear_arith);
        }
        out.push(d);
        borrow = c;
        i = i + 1;
    }
    proof {
        lemma_clamp_take_all(a@, i as int);
        if b.len() > i {
            lemma_digits_value_lower(b@);
            lemma_digits_value_upper(a@);
            lemma_pow10_increases(a@.len(), (b@.len() - 1) as nat);
        }
        lemma_clamp_take_all(b@, i as int);
        if borrow == 1 {
            lemma_digits_value_upper(out@);
        }
    }
    normalize(&mut out);
    out
}

/// Strict comparison of two well-formed digit vectors.
pub fn lt_digits(a: &Vec<u8>, b: &Vec<u8>) -> (r: bool)
    requires
        digits_wf(a@),
        digits_wf(b@),
    ensures
        r == (digits_value(a@) < digits_value(b@)),
{
    if a.len() != b.len() {
        proof {
            if a@.len() < b@.len() {
                lemma_digits_value_upper(a@);
                lemma_digits_value_lower(b@);
                lemma_pow10_increases(a@.len(), (b@.len() - 1) as nat);
            } else {
                lemma_digits_value_upper(b@);
                lemma_digits_value_lower(a@);
                lemma_pow10_increases(b@.len(), (a@.len() - 1) as nat);
            }
        }
        return a.len() < b.len();
    }
    let mut idx: usize = a.len();
    while idx > 0
        invariant
            idx <= a.len(),
            a.len() == b.len(),
            digits_wf(a@),
            digits_wf(b@),
            a@.skip(idx as int) =~= b@.skip(idx as int),
        decreases idx,
    {
        let j = idx - 1;
        if a[j] != b[j] {
            proof {
                lemma_digits_value_split(a@, j as int);
                lemma_digits_value_split(b@, j as int);
                assert(a@.skip(j as int).drop_first() =~= a@.skip(idx as int));
                assert(b@.skip(j as int).drop_first() =~= b@.skip(idx as int));
                let p = pow10(j as nat);
                let ta = digits_value(a@.take(j as int));
                let tb = digits_value(b@.take(j as int));
                let va = digits_value(a@.skip(j as int));
                let vb = digits_value(b@.skip(j as int));
                lemma_digits_value_upper(a@.take(j as int));
                lemma_digits_value_upper(b@.take(j as int));
                assert(a@.take(j as int).len() == j);
                assert(b@.take(j as int).len() == j);
                assert(va != vb);
                assert((va < vb) == (a@[j as int] < b@[j as int]));
                assert(va < vb ==> ta + p * va < tb + p * vb) by (nonlinear_arith)
                    requires
                        ta < p,
                ;
                assert(vb < va ==> tb + p * vb < ta + p * va) by (nonlinear_arith)
                    requires
                        tb < p,
                ;
            }
            return a[j] < b[j];
        }
        proof {
            assert(a@.skip(j as int) =~= seq![a@[j as int]] + a@.skip(idx as int));
            assert(b@.skip(j as int) =~= seq![b@[j as int]] + b@.skip(idx as int));
            assert(a@.skip(j as int) =~= b@.skip(j as int));
        }
        idx = j;
    }
    proof {
        assert(a@.skip(0) =~= a@);
        assert(b@.skip(0) =~= b@);
    }
    false
}

/// Multiply a digit vector by a single digit.
pub fn mul_digit(a: &Vec<u8>, d: u8) -> (r: Vec<u8>)
    requires
        all_digits(a@),
        d < 10,
    ensures
        digits_wf(r@),
        digits_value(r@) == digits_value(a@) * d,
{
    let mut out: Vec<u8> = Vec::new();
    let mut carry: u8 = 0;
    let mut i: usize = 0;
    proof {
        assert(clamp_take(a@, 0) =~= Seq::<u8>::empty());
        assert(digits_value(Seq::<u8>::empty()) == 0);
        assert(digits_value(Seq::<u8>::empty()) * d == 0) by (nonlinear_arith);
        assert(pow10(0) == 1);
    }
    while i < a.len()
        invariant
            i <= a.len(),
            all_digits(a@),
            d < 10,
            all_digits(out@),
            carry <= 9,
            out.len() == i,
            digits_value(out@) + carry * pow10(i as nat) == digits_value(clamp_take(a@, i as int))
                * d,
        decreases a.len() - i,
    {
        proof {
            assert(a@[i as int] < 10);
            assert(a@[i as int] * d <= 81) by (nonlinear_arith)
                requires
                    a@[i as int] < 10,
                    d < 10,
            ;
        }
        let prod: u8 = a[i] * d;
        let t: u8 = prod + carry;
        let dig: u8 = t % 10;
        let c: u8 = t / 10;
        proof {
            let p = pow10(i as nat);
            lemma_digits_value_push(out@, dig);
            lemma_clamp_take_step(a@, i as int);
            assert(dig + 10 * c == t);
            assert(c <= 9) by (nonlinear_arith)
                requires
                    c == t / 10,
                    t <= 90,
            ;
            assert(dig * p + c * (10 * p) == (dig + 10 * c) * p) by (nonlinear_arith);
            assert(t * p == (a@[i as int] * d) * p + carry * p) by (nonlinear_arith)
                requires
                    t == a@[i as int] * d + carry,
            ;
            assert((digits_value(clamp_take(a@, i as int)) + a@[i as int] * pow10(i as nat)) * d
                == digits_value(clamp_take(a@, i as int)) * d + (a@[i as int] * d) * pow10(
                i as nat,
            )) by (nonlinear_arith);
        }
        out.push(dig);
        carry = c;
        i = i + 1;
    }
    proof {
        lemma_clamp_take_all(a@, i as int);
    }
    if carry > 0 {
        proof {
            lemma_digits_value_push(out@, carry);
        }
        out.push(carry);
    }
    normalize(&mut out);
    out
}

/// Multiply by a power of ten by prepending zeros.
pub fn shift_digits(a: &Vec<u8>, k: usize) -> (r: Vec<u8>)
    requires
        all_digits(a@),
    ensures
        all_digits(r@),
        digits_value(r@) == digits_value(a@) * pow10(k as nat),
{
    let mut out: Vec<u8> = Vec::new();
    let mut i: usize = 0;
    while i < a.len()
        invariant
            i <= a.len(),
            all_digits(a@),
            out@ =~= a@.take(i as int),
        decreases a.len() - i,
    {
        out.push(a[i]);
        i = i + 1;
    }
    proof {
        assert(out@ =~= a@);
        assert(pow10(0) == 1);
        assert(digits_value(a@) * 1 == digits_value(a@)) by (nonlinear_arith);
    }
    let mut j: usize = 0;
    while j < k
        invariant
            j <= k,
            all_digits(out@),
            digits_value(out@) == digits_value(a@) * pow10(j as nat),
        decreases k - j,
    {
        proof {
            let v = digits_value(a@);
            let p = pow10(j as nat);
            assert(out@.insert(0, 0u8) =~= seq![0u8] + out@);
            assert(digits_value(seq![0u8] + out@) == 10 * digits_value(out@)) by {
                assert((seq![0u8] + out@).drop_first() =~= out@);
                assert((seq![0u8] + out@)[0] == 0);
            }
            assert(10 * (v * p) == v * (10 * p)) by (nonlinear_arith);
        }
        out.insert(0, 0);
        j = j + 1;
    }
    proof {
        if k == 0 {
            assert(digits_value(out@) == digits_value(a@) * pow10(0)) by {
                assert(pow10(0) == 1);
            }
        }
    }
    out
}

/// Schoolbook multiplication of two digit vectors.
pub fn mul_digits(a: &Vec<u8>, b: &Vec<u8>) -> (r: Vec<u8>)
    requires
        all_digits(a@),
        all_digits(b@),
    ensures
        digits_wf(r@),
        digits_value(r@) == digits_value(a@) * digits_value(b@),
{
    let mut acc: Vec<u8> = Vec::new();
    let mut j: usize = 0;
    proof {
        assert(digits_value(acc@) == 0);
        assert(clamp_take(b@, 0) =~= Seq::<u8>::empty());
        assert(digits_value(Seq::<u8>::empty()) == 0);
        assert(digits_value(a@) * digits_value(Seq::<u8>::empty()) == 0) by (nonlinear_arith);
    }
    while j < b.len()
        invariant
            j <= b.len(),
            all_digits(a@),
            all_digits(b@),
            all_digits(acc@),
            digits_value(acc@) == digits_value(a@) * digits_value(clamp_take(b@, j as int)),
        decreases b.len() - j,
    {
        let part = mul_digit(a, b[j]);
        let shifted = shift_digits(&part, j);
        let next = add_digits(&acc, &shifted);
        proof {
            let va = digits_value(a@);
            let vbj = digits_value(clamp_take(b@, j as int));
            let p = pow10(j as nat);
            let dj = b@[j as int];
            lemma_clamp_take_step(b@, j as int);
            assert((va * dj) * p == va * (dj * p)) by (nonlinear_arith);
            assert(va * (vbj + dj * p) == va * vbj + va * (dj * p)) by (nonlinear_arith);
        }
        acc = next;
        j = j + 1;
    }
    proof {
        lemma_clamp_take_all(b@, j as int);
        if acc@.len() == 0 {
        }
    }
    let mut result = acc;
    normalize(&mut result);
    result
}

/// The canonical digit vector of a machine integer.
pub fn digits_from_u64(x: u64) -> (r: Vec<u8>)
    ensures
        digits_wf(r@),
        digits_value(r@) == x,
{
    let mut out: Vec<u8> = Vec::new();
    let mut rem: u64 = x;
    proof {
        assert(digits_value(out@) == 0);
        assert(pow10(out@.len()) == 1);
    }
    while rem > 0
        invariant
            all_digits(out@),
            digits_value(out@) + rem * pow10(out@.len()) == x,
            rem == 0 && out@.len() > 0 ==> out@[out@.len() - 1] != 0,
        decreases rem,
    {
        let d: u8 = (rem % 10) as u8;
        let next: u64 = rem / 10;
        proof {
            let p = pow10(out@.len());
            lemma_digits_value_push(out@, d);
            assert(d + 10 * next == rem);
            assert(next < rem) by (nonlinear_arith)
                requires
                    next == rem / 10,
                    rem > 0,
            ;
            assert(d * p + next * (10 * p) == (d + 10 * next) * p) by (nonlinear_arith);
            if next == 0 {
                assert(d == rem);
            }
        }
        out.push(d);
        rem = next;
    }
    proof {
        assert(pow10(out@.len()) >= 1) by {
            lemma_pow10_positive(out@.len());
        }
    }
    out
}

/// The ASCII decimal rendering of a number, most significant digit
/// first; zero prints as a single `0`.
pub open spec fn dec_bytes(n: nat) -> Seq<u8> {
    if n == 0 {
        seq![48u8]
    } else {
        Seq::new(
            digits_of(n).len(),
            |i: int| (digits_of(n)[digits_of(n).len() - 1 - i] + 48) as u8,
        )
    }
}

/// Whether a byte is an ASCII decimal digit.
pub open spec fn is_dec_digit(b: u8) -> bool {
    48 <= b < 58
}

/// Shape facts about decimal renderings: never empty, all digits, and no
/// leading zero except for zero itself.
pub proof fn lemma_dec_bytes_shape(n: nat)
    ensures
        dec_bytes(n).len() >= 1,
        forall|i: int| 0 <= i < dec_bytes(n).len() ==> is_dec_digit(#[trigger] dec_bytes(n)[i]),
        n > 0 ==> dec_bytes(n)[0] != 48,
        n == 0 ==> dec_bytes(n) =~= seq![48u8],
        n > 0 ==> dec_bytes(n).len() == digits_of(n).len(),
{
    if n > 0 {
        lemma_digits_of_correct(n);
        lemma_digits_value_lower(digits_of(n));
        lemma_pow10_positive((digits_of(n).len() - 1) as nat);
    }
}

/// A decimal rendering names its number uniquely.
pub proof fn lemma_dec_bytes_injective(a: nat, b: nat)
    requires
        dec_bytes(a) == dec_bytes(b),
    ensures
        a == b,
{
    lemma_dec_bytes_shape(a);
    lemma_dec_bytes_shape(b);
    if a == 0 || b == 0 {
        if a != b {
            if a == 0 {
                assert(dec_bytes(b)[0] == 48);
            } else {
                assert(dec_bytes(a)[0] == 48);
            }
        }
    } else {
        lemma_digits_of_correct(a);
        lemma_digits_of_correct(b);
        assert(digits_of(a) =~= digits_of(b)) by {
            assert(forall|i: int|
                0 <= i < digits_of(a).len() ==> #[trigger] digits_of(a)[i] == dec_bytes(
                    a,
                )[digits_of(a).len() - 1 - i] - 48 && digits_of(b)[i] == dec_bytes(
                    b,
                )[digits_of(b).len() - 1 - i] - 48);
        }
    }
}

/// The decimal rendering of a well-formed digit vector, read back to
/// front: what an encoder writes out.
pub proof fn lemma_dec_bytes_of_digits(ds: Seq<u8>)
    requires
        digits_wf(ds),
    ensures
        ds.len() == 0 ==> dec_bytes(digits_value(ds)) =~= seq![48u8],
        ds.len() > 0 ==> dec_bytes(digits_value(ds)) =~= Seq::new(
            ds.len(),
            |i: int| (ds[ds.len() - 1 - i] + 48) as u8,
        ),
{
    lemma_digits_of_value(ds);
    if ds.len() == 0 {
    } else {
        lemma_digits_value_lower(ds);
        lemma_pow10_positive((ds.len() - 1) as nat);
    }
}

/// Two decimal runs at one position, each ending the digit run there,
/// are the same run and name the same number.
pub proof fn lemma_dec_bytes_align(buf: Seq<u8>, pos: int, a: nat, b: nat)
    requires
        0 <= pos,
        pos + dec_bytes(a).len() <= buf.len(),
        pos + dec_bytes(b).len() <= buf.len(),
        buf.subrange(pos, pos + dec_bytes(a).len()) == dec_bytes(a),
        buf.subrange(pos, pos + dec_bytes(b).len()) == dec_bytes(b),
        pos + dec_bytes(a).len() == buf.len() || !is_dec_digit(
            buf[pos + dec_bytes(a).len()],
        ),
        pos + dec_bytes(b).len() == buf.len() || !is_dec_digit(
            buf[pos + dec_bytes(b).len()],
        ),
    ensures
        a == b,
        dec_bytes(a).len() == dec_bytes(b).len(),
{
    lemma_dec_bytes_shape(a);
    lemma_dec_bytes_shape(b);
    let la = dec_bytes(a).len() as int;
    let lb = dec_bytes(b).len() as int;
    if la < lb {
        assert(buf[pos + la] == dec_bytes(b)[la]);
        assert(is_dec_digit(dec_bytes(b)[la]));
    } else if lb < la {
        assert(buf[pos + lb] == dec_bytes(a)[lb]);
        assert(is_dec_digit(dec_bytes(a)[lb]));
    }
    assert(la == lb);
    assert(dec_bytes(a) =~= dec_bytes(b)) by {
        assert(forall|i: int|
            0 <= i < la ==> dec_bytes(a)[i] == buf[pos + i] && dec_bytes(b)[i] == buf[pos + i]);
    }
    lemma_dec_bytes_injective(a, b);
}

} // verus!
