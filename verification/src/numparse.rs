//! Parsing decimal tokens from vendor output.
//!
//! A token is accepted exactly when it is an optional sign followed by
//! digits with exactly one decimal point among them (and at least one
//! digit), and its value fits the fixed-point range. Exponent notation is
//! not part of the vendor's output grammar and is rejected. Fractional
//! digits beyond the fixed-point resolution are truncated toward zero.

use vstd::prelude::*;

use crate::fixed::{iabs, Fix, SCALE};

verus! {

pub open spec fn is_digit(b: u8) -> bool {
    48 <= b && b <= 57
}

pub open spec fn digit_val(b: u8) -> int {
    b as int - 48
}

/// Value of a digit string, most significant first.
pub open spec fn int_val(s: Seq<u8>) -> int
    decreases s.len(),
{
    if s.len() == 0 {
        0
    } else {
        int_val(s.drop_last()) * 10 + digit_val(s.last())
    }
}

pub open spec fn all_digits(s: Seq<u8>) -> bool {
    forall|i: int| 0 <= i < s.len() ==> is_digit(#[trigger] s[i])
}

pub open spec fn pow10(k: nat) -> int
    decreases k,
{
    if k == 0 {
        1
    } else {
        10 * pow10((k - 1) as nat)
    }
}

/// Units contributed by the digits after the decimal point: the first
/// twelve digits, zero-extended to twelve.
pub open spec fn frac_units_of(s: Seq<u8>) -> int {
    if s.len() >= 12 {
        int_val(s.take(12))
    } else {
        int_val(s) * pow10((12 - s.len()) as nat)
    }
}

/// The token with any leading sign removed.
pub open spec fn body_of(t: Seq<u8>) -> Seq<u8> {
    if t.len() > 0 && (t[0] == 43 || t[0] == 45) {
        t.skip(1)
    } else {
        t
    }
}

pub open spec fn is_neg_token(t: Seq<u8>) -> bool {
    t.len() > 0 && t[0] == 45
}

/// Index of the first decimal point, or the length if there is none.
pub open spec fn first_dot(s: Seq<u8>) -> int
    decreases s.len(),
{
    if s.len() == 0 {
        0
    } else if s[0] == 46 {
        0
    } else {
        1 + first_dot(s.skip(1))
    }
}

/// Sign-free token grammar: digits, one decimal point, at least one digit.
pub open spec fn body_shape(s: Seq<u8>) -> bool {
    let d = first_dot(s);
    &&& d < s.len()
    &&& all_digits(s.take(d))
    &&& all_digits(s.skip(d + 1))
    &&& s.len() >= 2
}

/// The accepted token grammar.
pub open spec fn token_shape(t: Seq<u8>) -> bool {
    body_shape(body_of(t))
}

/// Unsigned units of a sign-free token.
pub open spec fn body_units(s: Seq<u8>) -> int {
    int_val(s.take(first_dot(s))) * SCALE + frac_units_of(s.skip(first_dot(s) + 1))
}

/// Signed units denoted by a token of the accepted grammar.
pub open spec fn token_units(t: Seq<u8>) -> int {
    if is_neg_token(t) {
        -body_units(body_of(t))
    } else {
        body_units(body_of(t))
    }
}

pub proof fn lemma_first_dot(s: Seq<u8>)
    ensures
        0 <= first_dot(s) <= s.len(),
        first_dot(s) < s.len() ==> s[first_dot(s)] == 46,
        forall|m: int| 0 <= m < first_dot(s) ==> s[m] != 46,
    decreases s.len(),
{
    if s.len() > 0 && s[0] != 46 {
        lemma_first_dot(s.skip(1));
        assert forall|m: int| 0 <= m < first_dot(s) implies s[m] != 46 by {
            if m > 0 {
                assert(s.skip(1)[m - 1] != 46);
            }
        }
    }
}

/// If a decimal point occurs at `d` and nowhere earlier, `d` is the first.
pub proof fn lemma_first_dot_at(s: Seq<u8>, d: int)
    requires
        0 <= d < s.len(),
        s[d] == 46,
        forall|m: int| 0 <= m < d ==> s[m] != 46,
    ensures
        first_dot(s) == d,
    decreases d,
{
    if d > 0 {
        assert forall|m: int| 0 <= m < d - 1 implies s.skip(1)[m] != 46 by {
            assert(s[m + 1] != 46);
        }
        lemma_first_dot_at(s.skip(1), d - 1);
    }
}

/// If there is no decimal point, the first-dot index is the length.
pub proof fn lemma_first_dot_none(s: Seq<u8>)
    requires
        forall|m: int| 0 <= m < s.len() ==> s[m] != 46,
    ensures
        first_dot(s) == s.len(),
    decreases s.len(),
{
    if s.len() > 0 {
        assert forall|m: int| 0 <= m < s.skip(1).len() implies s.skip(1)[m] != 46 by {
            assert(s[m + 1] != 46);
        }
        lemma_first_dot_none(s.skip(1));
    }
}

pub proof fn lemma_int_val_nonneg(s: Seq<u8>)
    requires
        all_digits(s),
    ensures
        int_val(s) >= 0,
    decreases s.len(),
{
    if s.len() > 0 {
        assert(all_digits(s.drop_last()));
        lemma_int_val_nonneg(s.drop_last());
    }
}

/// A digit string's value is below `10^len`.
pub proof fn lemma_int_val_bound(s: Seq<u8>)
    requires
        all_digits(s),
    ensures
        0 <= int_val(s) < pow10(s.len()),
    decreases s.len(),
{
    if s.len() > 0 {
        assert(all_digits(s.drop_last()));
        lemma_int_val_bound(s.drop_last());
        let p = pow10((s.len() - 1) as nat);
        assert(int_val(s.drop_last()) * 10 + 10 <= p * 10) by (nonlinear_arith)
            requires int_val(s.drop_last()) < p;
    }
}

/// Appending one digit multiplies by ten and adds it.
pub proof fn lemma_int_val_snoc(s: Seq<u8>, j: int)
    requires
        0 <= j < s.len(),
    ensures
        int_val(s.take(j + 1)) == int_val(s.take(j)) * 10 + digit_val(s[j]),
{
    assert(s.take(j + 1).drop_last() =~= s.take(j));
    assert(s.take(j + 1).last() == s[j]);
}

/// A longer digit prefix denotes at least as large a value.
pub proof fn lemma_int_val_prefix_le(s: Seq<u8>, j: int, k: int)
    requires
        all_digits(s),
        0 <= j <= k <= s.len(),
    ensures
        int_val(s.take(j)) <= int_val(s.take(k)),
    decreases k - j,
{
    if j < k {
        lemma_int_val_prefix_le(s, j, k - 1);
        lemma_int_val_snoc(s, k - 1);
        assert(all_digits(s.take(k - 1)));
        lemma_int_val_nonneg(s.take(k - 1));
    }
}

pub proof fn lemma_pow10_pos(k: nat)
    ensures
        pow10(k) >= 1,
    decreases k,
{
    if k > 0 {
        lemma_pow10_pos((k - 1) as nat);
    }
}

/// Units of the fractional part are nonnegative and below one whole unit.
pub proof fn lemma_frac_units_bound(s: Seq<u8>)
    requires
        all_digits(s),
    ensures
        0 <= frac_units_of(s) < SCALE,
{
    lemma_pow10_table();
    if s.len() >= 12 {
        assert(all_digits(s.take(12)));
        lemma_int_val_bound(s.take(12));
    } else {
        lemma_int_val_bound(s);
        let p = pow10((12 - s.len()) as nat);
        lemma_pow10_pos((12 - s.len()) as nat);
        assert(pow10(s.len()) * pow10((12 - s.len()) as nat) == pow10(12nat)) by {
            lemma_pow10_mul(s.len(), (12 - s.len()) as nat);
        }
        assert(int_val(s) * p >= 0 && (int_val(s) + 1) * p <= pow10(s.len()) * p)
            by (nonlinear_arith)
            requires 0 <= int_val(s), int_val(s) < pow10(s.len()), p >= 1;
        assert((int_val(s) + 1) * p == int_val(s) * p + p) by (nonlinear_arith);
    }
}

/// Powers of ten are monotone.
pub proof fn lemma_pow10_le(a: nat, b: nat)
    requires
        a <= b,
    ensures
        pow10(a) <= pow10(b),
    decreases b,
{
    if a < b {
        lemma_pow10_le(a, (b - 1) as nat);
        lemma_pow10_pos((b - 1) as nat);
    }
}

/// Digits of a prefix of a digit prefix.
pub proof fn lemma_all_digits_take(s: Seq<u8>, j: int, k: int)
    requires
        0 <= j <= k <= s.len(),
        all_digits(s.take(k)),
    ensures
        all_digits(s.take(j)),
{
    assert forall|m: int| 0 <= m < j implies is_digit(#[trigger] s.take(j)[m]) by {
        assert(s.take(k)[m] == s.take(j)[m]);
    }
}

pub proof fn lemma_pow10_mul(a: nat, b: nat)
    ensures
        pow10(a) * pow10(b) == pow10(a + b),
    decreases a,
{
    if a == 0 {
        assert(1 * pow10(b) == pow10(b)) by (nonlinear_arith);
    } else {
        lemma_pow10_mul((a - 1) as nat, b);
        assert((10 * pow10((a - 1) as nat)) * pow10(b) == 10 * (pow10((a - 1) as nat) * pow10(b)))
            by (nonlinear_arith);
    }
}

/// The small powers of ten, spelled out for direct use.
pub proof fn lemma_pow10_table()
    ensures
        pow10(0) == 1,
        pow10(1) == 10,
        pow10(2) == 100,
        pow10(3) == 1000,
        pow10(4) == 10000,
        pow10(5) == 100000,
        pow10(6) == 1000000,
        pow10(7) == 10000000,
        pow10(8) == 100000000,
        pow10(9) == 1000000000,
        pow10(10) == 10000000000,
        pow10(11) == 100000000000,
        pow10(12) == 1000000000000,
{
    assert(pow10(0) == 1);
    assert(pow10(1) == 10);
    assert(pow10(2) == 100);
    assert(pow10(3) == 1000);
    assert(pow10(4) == 10000);
    assert(pow10(5) == 100000);
    assert(pow10(6) == 1000000);
    assert(pow10(7) == 10000000);
    assert(pow10(8) == 100000000);
    assert(pow10(9) == 1000000000);
    assert(pow10(10) == 10000000000);
    assert(pow10(11) == 100000000000);
    assert(pow10(12) == 1000000000000);
}

/// `10^k` for `k <= 12`.
fn pow10_u64(k: usize) -> (r: u64)
    requires
        k <= 12,
    ensures
        r as int == pow10(k as nat),
{
    proof {
        lemma_pow10_table();
    }
    if k == 0 {
        1
    } else if k == 1 {
        10
    } else if k == 2 {
        100
    } else if k == 3 {
        1000
    } else if k == 4 {
        10000
    } else if k == 5 {
        100000
    } else if k == 6 {
        1000000
    } else if k == 7 {
        10000000
    } else if k == 8 {
        100000000
    } else if k == 9 {
        1000000000
    } else if k == 10 {
        10000000000
    } else if k == 11 {
        100000000000
    } else {
        1000000000000
    }
}

/// Parse one whitespace-delimited token as a fixed-point decimal.
///
/// Returns a value exactly when the token matches the decimal grammar and
/// its magnitude fits; this is the analogue of accepting only
/// floating-point-looking tokens that contain a decimal point.
pub fn parse_float(data: &[u8]) -> (r: Option<Fix>)
    ensures
        r is Some <==> token_shape(data@) && iabs(token_units(data@)) <= i64::MAX as int,
        r matches Some(f) ==> f.units as int == token_units(data@),
{
    let n = data.len();
    let mut i: usize = 0;
    let mut neg = false;
    if n > 0 && (*vstd::slice::slice_index_get(data, 0) == 43 || *vstd::slice::slice_index_get(
        data,
        0,
    ) == 45) {
        neg = *vstd::slice::slice_index_get(data, 0) == 45;
        i = 1;
    }
    let ghost b = body_of(data@);
    proof {
        assert(neg == is_neg_token(data@));
        assert(b =~= data@.skip(i as int));
    }
    // integer part, up to the decimal point
    let mut acc: u64 = 0;
    let mut j: usize = i;
    while j < n && *vstd::slice::slice_index_get(data, j) != 46
        invariant
            i <= j <= n,
            n == data@.len(),
            b == body_of(data@),
            b == data@.skip(i as int),
            i <= 1,
            neg == is_neg_token(data@),
            all_digits(b.take(j - i)),
            forall|m: int| 0 <= m < j - i ==> b[m] != 46,
            acc as int == int_val(b.take(j - i)),
            acc <= 9223372,
        decreases n - j,
    {
        let c = *vstd::slice::slice_index_get(data, j);
        if !(c >= 48 && c <= 57) {
            proof {
                assert(b[j - i] == c);
                if token_shape(data@) {
                    lemma_first_dot(b);
                    let d = first_dot(b);
                    assert(d < b.len() && b[d] == 46);
                    assert(d != j - i);
                    assert(!(d < j - i));
                    // the scanned byte sits left of the dot, so it must be a digit
                    assert(b.take(d)[j - i] == c);
                    assert(is_digit(b.take(d)[j - i]));
                    assert(false);
                }
            }
            return None;
        }
        proof {
            lemma_int_val_snoc(b, j - i);
        }
        acc = acc * 10 + ((c - 48) as u64);
        j = j + 1;
        proof {
            assert forall|m: int| 0 <= m < j - i implies b[m] != 46 by {
                if m == j - i - 1 {
                    assert(b[m] == c);
                }
            }
            assert(all_digits(b.take(j - i))) by {
                assert forall|m: int| 0 <= m < j - i implies is_digit(#[trigger] b.take(j - i)[m]) by {
                    if m < j - i - 1 {
                        assert(b.take(j - 1 - i)[m] == b.take(j - i)[m]);
                    } else {
                        assert(b.take(j - i)[m] == c);
                    }
                }
            }
        }
        if acc > 9223372 {
            proof {
                if token_shape(data@) {
                    lemma_first_dot(b);
                    let d = first_dot(b);
                    assert(d < b.len() && b[d] == 46);
                    assert(!(d < j - i));
                    assert(all_digits(b.take(d)));
                    lemma_int_val_prefix_le(b.take(d), j - i, d);
                    assert(b.take(d).take(j - i) =~= b.take(j - i));
                    assert(b.take(d).take(d) =~= b.take(d));
                    assert(int_val(b.take(d)) >= acc as int);
                    assert(all_digits(b.skip(d + 1)));
                    lemma_frac_units_bound(b.skip(d + 1));
                    assert(int_val(b.take(d)) * SCALE >= 9223373 * (SCALE as int))
                        by (nonlinear_arith)
                        requires int_val(b.take(d)) >= 9223373;
                    assert(body_units(b) > i64::MAX as int);
                    assert(iabs(token_units(data@)) > i64::MAX as int);
                }
            }
            return None;
        }
    }
    if j == n {
        // no decimal point
        proof {
            lemma_first_dot_none(b);
            assert(!token_shape(data@));
        }
        return None;
    }
    let dotpos = j;
    proof {
        assert(b[dotpos - i] == 46);
        lemma_first_dot_at(b, dotpos - i);
    }
    if dotpos == i && dotpos + 1 == n {
        // a lone decimal point carries no digits
        proof {
            assert(b.len() < 2);
            assert(!token_shape(data@));
        }
        return None;
    }
    // fractional part
    let mut fu: u64 = 0;
    let mut k: usize = 0;
    j = dotpos + 1;
    let ghost fpart = b.skip((dotpos - i + 1) as int);
    proof {
        assert(fpart =~= data@.skip(dotpos + 1));
        lemma_pow10_table();
    }
    while j < n
        invariant
            dotpos + 1 <= j <= n,
            i <= dotpos < n,
            i <= 1,
            n == data@.len(),
            b == body_of(data@),
            b == data@.skip(i as int),
            neg == is_neg_token(data@),
            first_dot(b) == dotpos - i,
            all_digits(b.take(dotpos - i)),
            acc as int == int_val(b.take(dotpos - i)),
            acc <= 9223372,
            dotpos > i || n > dotpos + 1,
            fpart == b.skip(dotpos - i + 1),
            fpart == data@.skip(dotpos + 1),
            fpart.len() == n - dotpos - 1,
            all_digits(fpart.take(j - dotpos - 1)),
            k == if j - dotpos - 1 <= 12 { j - dotpos - 1 } else { 12int },
            fu as int == int_val(fpart.take(k as int)),
            fu < 1000000000000,
        decreases n - j,
    {
        let c = *vstd::slice::slice_index_get(data, j);
        if !(c >= 48 && c <= 57) {
            proof {
                assert(fpart[j - dotpos - 1] == c);
                if token_shape(data@) {
                    assert(all_digits(b.skip(first_dot(b) + 1)));
                    assert(is_digit(fpart[j - dotpos - 1]));
                    assert(false);
                }
            }
            return None;
        }
        if k < 12 {
            proof {
                lemma_int_val_snoc(fpart, k as int);
                lemma_int_val_bound(fpart.take(k as int));
            }
            fu = fu * 10 + ((c - 48) as u64);
            k = k + 1;
        }
        j = j + 1;
        proof {
            assert forall|m: int| 0 <= m < j - dotpos - 1 implies is_digit(
                #[trigger] fpart.take(j - dotpos - 1)[m],
            ) by {
                if m < j - dotpos - 2 {
                    assert(fpart.take(j - dotpos - 2)[m] == fpart.take(j - dotpos - 1)[m]);
                } else {
                    assert(fpart.take(j - dotpos - 1)[m] == c);
                }
            }
            assert(fu as int == int_val(fpart.take(k as int))) by {
                if k <= 12 && j - dotpos - 2 < 12 {
                    assert(fpart.take(k as int).drop_last() =~= fpart.take(k - 1));
                    assert(fpart.take(k as int).last() == fpart[k - 1]);
                }
            }
            assert(fu < 1000000000000) by {
                lemma_all_digits_take(fpart, k as int, j - dotpos - 1);
                lemma_int_val_bound(fpart.take(k as int));
                lemma_pow10_le(k as nat, 12nat);
                lemma_pow10_table();
            }
        }
    }
    proof {
        assert(fpart.take(fpart.len() as int) =~= fpart);
        lemma_int_val_bound(fpart.take(k as int));
    }
    let mult = pow10_u64(12 - k);
    proof {
        lemma_pow10_mul(k as nat, (12 - k) as nat);
        lemma_pow10_pos((12 - k) as nat);
        assert(int_val(fpart.take(k as int)) * pow10((12 - k) as nat) + pow10((12 - k) as nat) <=
        pow10(k as nat) * pow10((12 - k) as nat)) by (nonlinear_arith)
            requires
                int_val(fpart.take(k as int)) < pow10(k as nat),
                pow10((12 - k) as nat) >= 1,
        ;
        assert(int_val(fpart.take(k as int)) * pow10((12 - k) as nat) >= 0) by (nonlinear_arith)
            requires int_val(fpart.take(k as int)) >= 0, pow10((12 - k) as nat) >= 1;
        lemma_pow10_table();
    }
    let fscaled = fu * mult;
    proof {
        // fscaled equals the fractional units of the whole fractional part
        if fpart.len() >= 12 {
            assert(k == 12);
            assert(fscaled as int == frac_units_of(fpart));
        } else {
            assert(k == fpart.len());
            assert(fpart.take(k as int) =~= fpart);
            assert(fscaled as int == frac_units_of(fpart));
        }
        assert((fscaled as int) < (SCALE as int)) by {
            lemma_frac_units_bound(fpart);
        }
    }
    let mag: u64 = acc * 1000000000000u64 + fscaled;
    proof {
        assert(b.take(dotpos - i) =~= b.take(first_dot(b)));
        assert(mag as int == body_units(b));
        assert(body_shape(b)) by {
            assert(first_dot(b) < b.len());
            assert(b.len() >= 2);
        }
        assert(token_shape(data@));
    }
    if mag > 9223372036854775807u64 {
        proof {
            assert(iabs(token_units(data@)) > i64::MAX as int);
        }
        return None;
    }
    let units: i64 = if neg {
        -(mag as i64)
    } else {
        mag as i64
    };
    proof {
        assert(units as int == token_units(data@));
        assert(iabs(token_units(data@)) <= i64::MAX as int);
    }
    Some(Fix { units })
}

} // verus!
