use vstd::prelude::*;
use vstd::string::StringExecFns;
use vstd::arithmetic::div_mod::lemma_div_denominator;

verus! {

/// The decimal digits of `n`, most significant first.
pub open spec fn spec_decimal(n: nat) -> Seq<u8>
    decreases n,
{
    if n < 10 { seq![n as u8] } else { spec_decimal(n / 10).push((n % 10) as u8) }
}

pub open spec fn pow10(k: nat) -> nat
    decreases k,
{
    if k == 0 { 1 } else { 10 * pow10((k - 1) as nat) }
}

pub proof fn lemma_decimal_digits(n: nat, k: nat)
    requires
        k >= 1,
        n < pow10(k),
    ensures
        1 <= spec_decimal(n).len() <= k,
        forall|i: int| 0 <= i < spec_decimal(n).len() ==> #[trigger] spec_decimal(n)[i] < 10,
    decreases n,
{
    if n >= 10 {
        assert(k >= 2) by {
            if k == 1 {
                assert(pow10(1) == 10) by { reveal_with_fuel(pow10, 2); }
            }
        }
        assert(n / 10 < pow10((k - 1) as nat)) by (nonlinear_arith)
            requires n < 10 * pow10((k - 1) as nat);
        lemma_decimal_digits(n / 10, (k - 1) as nat);
        let d = spec_decimal(n);
        assert forall|i: int| 0 <= i < d.len() implies #[trigger] d[i] < 10 by {
            if i < d.len() - 1 {
                assert(d[i] == spec_decimal(n / 10)[i]);
            }
        }
    }
}

/// Every power of ten is positive.
pub proof fn lemma_pow10_positive(k: nat)
    ensures
        pow10(k) >= 1,
    decreases k,
{
    if k > 0 {
        lemma_pow10_positive((k - 1) as nat);
    }
}

/// The decimal digits run from the most significant: digit `i` of `n` is
/// `n / 10^(len - 1 - i)` modulo ten.
pub proof fn lemma_decimal_digit_value(n: nat, i: int)
    requires
        0 <= i < spec_decimal(n).len(),
    ensures
        spec_decimal(n)[i] as int == (n / pow10((spec_decimal(n).len() - 1 - i) as nat)) % 10,
    decreases n,
{
    let len = spec_decimal(n).len();
    if n < 10 {
        assert(pow10(0) == 1);
        assert(n / 1 == n);
        assert(spec_decimal(n)[0] as int == n);
    } else if i == len - 1 {
        assert(pow10(0) == 1);
        assert(n / 1 == n);
        assert(spec_decimal(n)[i] as int == n % 10);
    } else {
        let rest = spec_decimal(n / 10);
        assert(rest.len() == len - 1);
        assert(spec_decimal(n)[i] == rest[i]);
        lemma_decimal_digit_value(n / 10, i);
        let k = (len - 2 - i) as nat;
        assert(rest[i] as int == ((n / 10) as nat / pow10(k)) % 10);
        lemma_pow10_positive(k);
        lemma_div_denominator(n as int, 10, pow10(k) as int);
        assert(pow10((k + 1) as nat) == 10 * pow10(k));
        assert((len - 1 - i) as nat == (k + 1) as nat);
        assert(((n / 10) as nat / pow10(k)) == n / pow10((k + 1) as nat));
    }
}

pub proof fn lemma_decimal_len_u64(n: u64)
    ensures
        1 <= spec_decimal(n as nat).len() <= 20,
        forall|i: int| 0 <= i < spec_decimal(n as nat).len() ==> #[trigger] spec_decimal(n as nat)[i] < 10,
{
    assert(pow10(20) == 100_000_000_000_000_000_000) by { reveal_with_fuel(pow10, 21); }
    lemma_decimal_digits(n as nat, 20);
}

/// The decimal digits of `n`, most significant first.
pub fn decimal_digits(n: u64) -> (d: Vec<u8>)
    ensures
        d@ == spec_decimal(n as nat),
    decreases n,
{
    if n < 10 {
        let mut v: Vec<u8> = Vec::new();
        v.push(n as u8);
        assert(v@ =~= spec_decimal(n as nat));
        v
    } else {
        let mut v = decimal_digits(n / 10);
        v.push((n % 10) as u8);
        v
    }
}

pub open spec fn digit_char(d: u8) -> char {
    (d + 48) as char
}

/// The decimal text of `n`.
pub open spec fn spec_decimal_text(n: nat) -> Seq<char> {
    spec_decimal(n).map_values(|d: u8| digit_char(d))
}

fn append_digit(text: &mut String, d: u8)
    requires
        d < 10,
    ensures
        final(text)@ == old(text)@.push(digit_char(d)),
{
    let lit = match d {
        0 => "0",
        1 => "1",
        2 => "2",
        3 => "3",
        4 => "4",
        5 => "5",
        6 => "6",
        7 => "7",
        8 => "8",
        _ => "9",
    };
    proof {
        reveal_strlit("0");
        reveal_strlit("1");
        reveal_strlit("2");
        reveal_strlit("3");
        reveal_strlit("4");
        reveal_strlit("5");
        reveal_strlit("6");
        reveal_strlit("7");
        reveal_strlit("8");
        reveal_strlit("9");
        assert(lit@ =~= seq![digit_char(d)]);
    }
    text.append(lit);
}

/// Appends the decimal text of `n` to `text`.
pub fn append_decimal(text: &mut String, n: u64)
    ensures
        final(text)@ == old(text)@ + spec_decimal_text(n as nat),
{
    let digits = decimal_digits(n);
    proof { lemma_decimal_len_u64(n); }
    let ghost start = text@;
    let mut i: usize = 0;
    while i < digits.len()
        invariant
            digits@ == spec_decimal(n as nat),
            forall|k: int| 0 <= k < digits@.len() ==> #[trigger] digits@[k] < 10,
            i <= digits@.len(),
            text@ == start + digits@.subrange(0, i as int).map_values(|d: u8| digit_char(d)),
        decreases digits@.len() - i,
    {
        let ghost before = text@;
        append_digit(text, digits[i]);
        proof {
            assert(digits@.subrange(0, i + 1).map_values(|d: u8| digit_char(d))
                =~= digits@.subrange(0, i as int).map_values(|d: u8| digit_char(d)).push(digit_char(digits@[i as int])));
        }
        i = i + 1;
    }
    assert(digits@.subrange(0, i as int) =~= digits@);
}

} // verus!
