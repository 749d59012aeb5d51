//! Decimal rendering of integers, for report texts and canonical forms.

use vstd::prelude::*;
use vstd::string::StringExecFns;

verus! {

/// The decimal digit character for a value below ten.
pub open spec fn dec_digit(n: nat) -> char {
    if n == 0 { '0' } else if n == 1 { '1' } else if n == 2 { '2' } else if n == 3 { '3' }
    else if n == 4 { '4' } else if n == 5 { '5' } else if n == 6 { '6' } else if n == 7 { '7' }
    else if n == 8 { '8' } else { '9' }
}

/// The decimal rendering of a natural number, most significant digit
/// first, without leading zeros (except for zero itself).
pub open spec fn dec_nat(n: nat) -> Seq<char>
    decreases n,
{
    if n < 10 {
        seq![dec_digit(n)]
    } else {
        dec_nat(n / 10).push(dec_digit(n % 10))
    }
}

/// The decimal rendering of a signed value: a minus sign for negative
/// values, then the magnitude.
pub open spec fn dec_int(n: int) -> Seq<char> {
    if n < 0 {
        seq!['-'] + dec_nat((-n) as nat)
    } else {
        dec_nat(n as nat)
    }
}

/// The single-character string for a decimal digit.
fn dec_digit_str(d: u64) -> (r: &'static str)
    requires
        d < 10,
    ensures
        r@ == seq![dec_digit(d as nat)],
{
    proof {
        reveal_strlit("0");
        reveal_strlit("1");
        reveal_strlit("2");
        reveal_strlit("3");
        reveal_strlit("4");
        reveal_strlit("5");
        reveal_strlit("6");
        reveal_strlit("7");
        reveal_strlit("8");
        reveal_strlit("9");
    }
    let r = if d == 0 { "0" } else if d == 1 { "1" } else if d == 2 { "2" } else if d == 3 { "3" }
    else if d == 4 { "4" } else if d == 5 { "5" } else if d == 6 { "6" } else if d == 7 { "7" }
    else if d == 8 { "8" } else { "9" };
    proof {
        assert(r@ =~= seq![dec_digit(d as nat)]);
    }
    r
}

/// Render an unsigned value in decimal.
pub fn u64_to_dec(n: u64) -> (r: String)
    ensures
        r@ == dec_nat(n as nat),
    decreases n,
{
    if n < 10 {
        dec_digit_str(n).to_owned()
    } else {
        let prefix = u64_to_dec(n / 10);
        let r = prefix.concat(dec_digit_str(n % 10));
        proof {
            assert(r@ =~= dec_nat((n / 10) as nat).push(dec_digit((n % 10) as nat)));
        }
        r
    }
}

/// Render a signed value in decimal.
pub fn i64_to_dec(n: i64) -> (r: String)
    ensures
        r@ == dec_int(n as int),
{
    if n >= 0 {
        let r = u64_to_dec(n as u64);
        proof {
            assert(r@ =~= dec_int(n as int));
        }
        r
    } else {
        let magnitude: u64 = ((-(n as i128)) as u64);
        let sign = String::from_str("-");
        proof {
            reveal_strlit("-");
        }
        let r = sign.concat(u64_to_dec(magnitude).as_str());
        proof {
            assert(sign@ =~= seq!['-']);
            assert(r@ =~= dec_int(n as int));
        }
        r
    }
}


/// Powers of ten.
pub open spec fn pow10(k: nat) -> nat
    decreases k,
{
    if k == 0 {
        1
    } else {
        10 * pow10((k - 1) as nat)
    }
}

/// A value below the k-th power of ten renders in at most k digits.
pub proof fn lemma_dec_nat_len(n: nat, k: nat)
    requires
        k >= 1,
        n < pow10(k),
    ensures
        dec_nat(n).len() <= k,
    decreases k,
{
    if n >= 10 {
        assert(n / 10 < pow10((k - 1) as nat)) by {
            assert(pow10(k) == 10 * pow10((k - 1) as nat));
        }
        lemma_dec_nat_len(n / 10, (k - 1) as nat);
    }
}

/// Any 64-bit value renders in at most twenty digits.
pub proof fn lemma_dec_nat_len64(n: nat)
    requires
        n < 0x10000000000000000,
    ensures
        dec_nat(n).len() <= 20,
{
    assert(pow10(20) == 100000000000000000000) by {
        reveal_with_fuel(pow10, 21);
    }
    lemma_dec_nat_len(n, 20);
}

/// Any signed 64-bit value renders in at most twenty-one characters.
pub proof fn lemma_dec_int_len64(n: int)
    requires
        -0x8000000000000000 <= n < 0x8000000000000000,
    ensures
        dec_int(n).len() <= 21,
{
    if n < 0 {
        lemma_dec_nat_len64((-n) as nat);
    } else {
        lemma_dec_nat_len64(n as nat);
    }
}


/// Whether a character is a decimal digit.
pub open spec fn is_digit_char(c: char) -> bool {
    c == '0' || c == '1' || c == '2' || c == '3' || c == '4' || c == '5' || c == '6' || c == '7'
        || c == '8' || c == '9'
}

/// A decimal rendering is never empty.
pub proof fn lemma_dec_nat_len_pos(n: nat)
    ensures
        dec_nat(n).len() >= 1,
    decreases n,
{
    if n >= 10 {
        lemma_dec_nat_len_pos(n / 10);
    }
}

/// Every character of a decimal rendering is a digit.
pub proof fn lemma_dec_nat_digits(n: nat)
    ensures
        forall|i: int| 0 <= i < dec_nat(n).len() ==> is_digit_char(#[trigger] dec_nat(n)[i]),
    decreases n,
{
    if n < 10 {
        assert(dec_nat(n)[0] == dec_digit(n));
    } else {
        lemma_dec_nat_digits(n / 10);
        assert forall|i: int| 0 <= i < dec_nat(n).len() implies is_digit_char(
            #[trigger] dec_nat(n)[i],
        ) by {
            if i < dec_nat(n).len() - 1 {
                assert(dec_nat(n)[i] == dec_nat(n / 10)[i]);
            } else {
                assert(dec_nat(n)[i] == dec_digit(n % 10));
            }
        }
    }
}

/// Distinct values below ten have distinct digit characters.
pub proof fn lemma_dec_digit_injective(m: nat, n: nat)
    requires
        m < 10,
        n < 10,
        dec_digit(m) == dec_digit(n),
    ensures
        m == n,
{
}

/// Law: the decimal rendering of naturals is injective — equal renderings
/// come from equal values.
pub proof fn lemma_dec_nat_injective(a: nat, b: nat)
    requires
        dec_nat(a) == dec_nat(b),
    ensures
        a == b,
    decreases a,
{
    lemma_dec_nat_len_pos(a);
    lemma_dec_nat_len_pos(b);
    if a < 10 && b < 10 {
        assert(dec_nat(a)[0] == dec_digit(a));
        assert(dec_nat(b)[0] == dec_digit(b));
        lemma_dec_digit_injective(a, b);
    } else if a < 10 {
        lemma_dec_nat_len_pos(b / 10);
        assert(dec_nat(b).len() >= 2);
        assert(false);
    } else if b < 10 {
        lemma_dec_nat_len_pos(a / 10);
        assert(dec_nat(a).len() >= 2);
        assert(false);
    } else {
        assert(dec_nat(a).last() == dec_digit(a % 10));
        assert(dec_nat(b).last() == dec_digit(b % 10));
        lemma_dec_digit_injective(a % 10, b % 10);
        assert(dec_nat(a).drop_last() =~= dec_nat(a / 10));
        assert(dec_nat(b).drop_last() =~= dec_nat(b / 10));
        lemma_dec_nat_injective(a / 10, b / 10);
    }
}

/// Law: the decimal rendering of signed values is injective.
pub proof fn lemma_dec_int_injective(a: int, b: int)
    requires
        dec_int(a) == dec_int(b),
    ensures
        a == b,
{
    if a >= 0 && b >= 0 {
        lemma_dec_nat_injective(a as nat, b as nat);
    } else if a < 0 && b < 0 {
        assert((seq!['-'] + dec_nat((-a) as nat)).drop_first() =~= dec_nat((-a) as nat));
        assert((seq!['-'] + dec_nat((-b) as nat)).drop_first() =~= dec_nat((-b) as nat));
        lemma_dec_nat_injective((-a) as nat, (-b) as nat);
    } else if a < 0 {
        lemma_dec_nat_digits(b as nat);
        lemma_dec_nat_len_pos(b as nat);
        assert(dec_int(a)[0] == '-');
        assert(is_digit_char(dec_int(b)[0]));
        assert(false);
    } else {
        lemma_dec_nat_digits(a as nat);
        lemma_dec_nat_len_pos(a as nat);
        assert(dec_int(b)[0] == '-');
        assert(is_digit_char(dec_int(a)[0]));
        assert(false);
    }
}

} // verus!


