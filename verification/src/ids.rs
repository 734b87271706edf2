//! Loan identifiers: a fixed textual prefix followed by the decimal value of
//! the store's counter.  The decimal rendering is written and verified here,
//! together with the injectivity facts that make identifiers unique.

use vstd::prelude::*;

verus! {

/// The character for one decimal digit.
pub open spec fn spec_digit(d: nat) -> char
    recommends
        d < 10,
{
    if d == 0 {
        '0'
    } else if d == 1 {
        '1'
    } else if d == 2 {
        '2'
    } else if d == 3 {
        '3'
    } else if d == 4 {
        '4'
    } else if d == 5 {
        '5'
    } else if d == 6 {
        '6'
    } else if d == 7 {
        '7'
    } else if d == 8 {
        '8'
    } else {
        '9'
    }
}

/// The decimal rendering of `n`, most significant digit first, without
/// leading zeros (`0` itself renders as `"0"`).
pub open spec fn spec_decimal(n: nat) -> Seq<char>
    decreases n,
{
    if n < 10 {
        seq![spec_digit(n)]
    } else {
        spec_decimal(n / 10).push(spec_digit(n % 10))
    }
}

/// The identifier minted for counter value `n`: the prefix `"loan_"`
/// followed by the decimal rendering of `n`.
pub open spec fn spec_loan_id(n: nat) -> Seq<char> {
    "loan_"@ + spec_decimal(n)
}

/// A one-character string slice for the digit `d`.
fn digit_str(d: u64) -> (r: &'static str)
    requires
        d < 10,
    ensures
        r@ == seq![spec_digit(d as nat)],
{
    proof {
        reveal_strlit("0");
        reveal_strlit("1");
        reveal_strlit("2");
        reveal_strlit("3");
        reveal_strlit("4");
        reveal_strlit("5");
        reveal_strlit("6");
        reveal_strlit("7");
        reveal_strlit("8");
        reveal_strlit("9");
    }
    let r = match d {
        0 => "0",
        1 => "1",
        2 => "2",
        3 => "3",
        4 => "4",
        5 => "5",
        6 => "6",
        7 => "7",
        8 => "8",
        _ => "9",
    };
    proof {
        assert(r@ =~= seq![spec_digit(d as nat)]);
    }
    r
}

/// The decimal rendering of `n` as a `String`.
pub fn decimal_string(n: u64) -> (r: String)
    ensures
        r@ == spec_decimal(n as nat),
    decreases n,
{
    if n < 10 {
        String::from_str(digit_str(n))
    } else {
        proof {
            assert(n as nat / 10 < n as nat) by (nonlinear_arith)
                requires
                    n >= 10,
            ;
        }
        let mut prefix = decimal_string(n / 10);
        prefix.append(digit_str(n % 10));
        proof {
            assert(prefix@ =~= spec_decimal(n as nat));
        }
        prefix
    }
}

/// The identifier string for counter value `n`.
pub fn make_loan_id(n: u64) -> (r: String)
    ensures
        r@ == spec_loan_id(n as nat),
{
    let mut id = String::from_str("loan_");
    let digits = decimal_string(n);
    id.append(digits.as_str());
    id
}

/// The decimal rendering is never empty, and has at least two characters
/// once `n` has two digits.
pub proof fn lemma_decimal_len(n: nat)
    ensures
        spec_decimal(n).len() >= 1,
        n >= 10 ==> spec_decimal(n).len() >= 2,
    decreases n,
{
    if n >= 10 {
        assert(n / 10 < n) by (nonlinear_arith)
            requires
                n >= 10,
        ;
        lemma_decimal_len(n / 10);
    }
}

/// Distinct numbers have distinct decimal renderings.
pub proof fn lemma_decimal_injective(m: nat, n: nat)
    requires
        spec_decimal(m) == spec_decimal(n),
    ensures
        m == n,
    decreases m,
{
    lemma_decimal_len(m);
    lemma_decimal_len(n);
    if m < 10 && n < 10 {
        assert(seq![spec_digit(m)][0] == spec_digit(m));
        assert(seq![spec_digit(n)][0] == spec_digit(n));
        assert(spec_decimal(m)[0] == spec_decimal(n)[0]);
        assert(spec_digit(m) == spec_digit(n));
        assert(m == n);
    } else if m < 10 && n >= 10 {
        assert(spec_decimal(m).len() == 1);
        assert(false);
    } else if m >= 10 && n < 10 {
        assert(spec_decimal(n).len() == 1);
        assert(false);
    } else {
        let a = spec_decimal(m / 10);
        let b = spec_decimal(n / 10);
        assert(a.push(spec_digit(m % 10)).drop_last() =~= a);
        assert(b.push(spec_digit(n % 10)).drop_last() =~= b);
        assert(a == b);
        assert(spec_digit(m % 10) == a.push(spec_digit(m % 10)).last());
        assert(spec_digit(n % 10) == b.push(spec_digit(n % 10)).last());
        assert(spec_digit(m % 10) == spec_digit(n % 10));
        assert(m % 10 == n % 10);
        assert(m / 10 < m) by (nonlinear_arith)
            requires
                m >= 10,
        ;
        lemma_decimal_injective(m / 10, n / 10);
        assert(m == 10 * (m / 10) + m % 10) by (nonlinear_arith);
        assert(n == 10 * (n / 10) + n % 10) by (nonlinear_arith);
    }
}

/// Distinct counter values mint distinct identifiers.
pub proof fn lemma_loan_id_injective(m: nat, n: nat)
    requires
        spec_loan_id(m) == spec_loan_id(n),
    ensures
        m == n,
{
    let p = "loan_"@;
    assert((p + spec_decimal(m)).skip(p.len() as int) =~= spec_decimal(m));
    assert((p + spec_decimal(n)).skip(p.len() as int) =~= spec_decimal(n));
    assert(spec_decimal(m) == spec_decimal(n));
    lemma_decimal_injective(m, n);
}

} // verus!
