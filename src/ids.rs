use vstd::prelude::*;

verus! {

/// The character of a decimal digit.
pub open spec fn digit_char(d: nat) -> char {
    if d == 0 {
        '0'
    } else if d == 1 {
        '1'
    } else if d == 2 {
        '2'
    } else if d == 3 {
        '3'
    } else if d == 4 {
        '4'
    } else if d == 5 {
        '5'
    } else if d == 6 {
        '6'
    } else if d == 7 {
        '7'
    } else if d == 8 {
        '8'
    } else {
        '9'
    }
}

/// The decimal notation of a natural number, without leading zeros.
pub open spec fn decimal(n: nat) -> Seq<char>
    decreases n,
{
    if n < 10 {
        seq![digit_char(n)]
    } else {
        decimal(n / 10).push(digit_char(n % 10))
    }
}

/// Relies on `usize`'s `Display` (through `to_string`): plain decimal
/// notation without sign, padding or leading zeros.
#[verifier::external_body]
pub(crate) fn decimal_text(n: usize) -> (r: String)
    ensures
        r@ == decimal(n as nat),
{
    n.to_string()
}

proof fn lemma_decimal_nonempty(n: nat)
    ensures
        decimal(n).len() >= 1,
    decreases n,
{
    if n >= 10 {
        lemma_decimal_nonempty(n / 10);
    }
}

/// Distinct numbers have distinct decimal notations.
pub proof fn lemma_decimal_injective(a: nat, b: nat)
    requires
        decimal(a) == decimal(b),
    ensures
        a == b,
    decreases a,
{
    if a < 10 && b < 10 {
        assert(decimal(a)[0] == digit_char(a));
        assert(decimal(b)[0] == digit_char(b));
    } else if a < 10 {
        lemma_decimal_nonempty(b / 10);
        assert(decimal(b).len() >= 2);
    } else if b < 10 {
        lemma_decimal_nonempty(a / 10);
        assert(decimal(a).len() >= 2);
    } else {
        let da = decimal(a);
        let db = decimal(b);
        assert(da.last() == digit_char(a % 10));
        assert(db.last() == digit_char(b % 10));
        assert(da.drop_last() == decimal(a / 10));
        assert(db.drop_last() == decimal(b / 10));
        lemma_decimal_injective(a / 10, b / 10);
        assert(a % 10 == b % 10);
        assert(a == 10 * (a / 10) + a % 10) by (nonlinear_arith);
        assert(b == 10 * (b / 10) + b % 10) by (nonlinear_arith);
    }
}

/// A prefix followed by a number's decimal notation.
pub open spec fn tagged(prefix: Seq<char>, n: nat) -> Seq<char> {
    prefix + decimal(n)
}

/// Names with one prefix are equal only for equal numbers.
pub proof fn lemma_tagged_injective(prefix: Seq<char>, a: nat, b: nat)
    requires
        tagged(prefix, a) == tagged(prefix, b),
    ensures
        a == b,
{
    let ta = tagged(prefix, a);
    let tb = tagged(prefix, b);
    assert(decimal(a) == ta.subrange(prefix.len() as int, ta.len() as int));
    assert(decimal(b) == tb.subrange(prefix.len() as int, tb.len() as int));
    lemma_decimal_injective(a, b);
}

/// Builds `prefix` followed by the decimal notation of `n`.
pub fn tagged_text(prefix: &str, n: usize) -> (r: String)
    ensures
        r@ == tagged(prefix@, n as nat),
{
    let digits = decimal_text(n);
    String::from_str(prefix).concat(digits.as_str())
}

} // verus!
