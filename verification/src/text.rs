//! Comparing texts and writing numbers.
use vstd::prelude::*;

verus! {

/// Whether two texts consist of the same characters.
pub fn same_text(a: &str, b: &str) -> (same: bool)
    ensures
        same == (a@ == b@),
{
    a.to_owned() == b.to_owned()
}

/// The decimal digit `d`.
pub open spec fn digit(d: nat) -> char {
    ('0' as int + d) as char
}

/// The number `n` in decimal notation, without leading zeros.
pub open spec fn decimal(n: nat) -> Seq<char>
    decreases n,
{
    if n < 10 {
        seq![digit(n)]
    } else {
        decimal(n / 10).push(digit(n % 10))
    }
}

/// The text of one decimal digit.
fn digit_text(d: u8) -> (text: &'static str)
    requires
        d < 10,
    ensures
        text@ == seq![digit(d as nat)],
{
    proof {
        reveal_strlit("0");
        reveal_strlit("1");
        reveal_strlit("2");
        reveal_strlit("3");
        reveal_strlit("4");
        reveal_strlit("5");
        reveal_strlit("6");
        reveal_strlit("7");
        reveal_strlit("8");
        reveal_strlit("9");
    }
    match d {
        0 => "0",
        1 => "1",
        2 => "2",
        3 => "3",
        4 => "4",
        5 => "5",
        6 => "6",
        7 => "7",
        8 => "8",
        _ => "9",
    }
}

/// Appends `n` to `s` in decimal notation.
pub fn push_decimal(s: &mut String, n: u128)
    ensures
        final(s)@ == old(s)@ + decimal(n as nat),
    decreases n,
{
    if n >= 10 {
        push_decimal(s, n / 10);
    }
    let d: u8 = (n % 10) as u8;
    s.append(digit_text(d));
}

/// Decimal notation gives the digits of a number, each at its place, without leading zeros: the
/// digit that has `k` digits behind it is the one of the `k`-th power of ten.
pub proof fn law_decimal_gives_digits(n: nat)
    ensures
        decimal(n).len() >= 1,
        n < vstd::arithmetic::power::pow(10, decimal(n).len()),
        decimal(n).len() > 1 ==> vstd::arithmetic::power::pow(10, (decimal(n).len() - 1) as nat)
            <= n,
        forall|i: int|
            0 <= i < decimal(n).len() ==> #[trigger] decimal(n)[i] as int == '0' as int + (n as int
                / vstd::arithmetic::power::pow(10, (decimal(n).len() - 1 - i) as nat)) % 10,
    decreases n,
{
    vstd::arithmetic::power::lemma_pow0(10);
    vstd::arithmetic::power::lemma_pow1(10);
    if n >= 10 {
        let front = decimal(n / 10);
        let all = decimal(n);
        law_decimal_gives_digits(n / 10);
        assert(vstd::arithmetic::power::pow(10, all.len()) == 10 * vstd::arithmetic::power::pow(
            10,
            front.len(),
        )) by {
            reveal(vstd::arithmetic::power::pow);
        }
        assert(vstd::arithmetic::power::pow(10, front.len()) == 10 * vstd::arithmetic::power::pow(
            10,
            (front.len() - 1) as nat,
        )) by {
            reveal(vstd::arithmetic::power::pow);
        }
        assert forall|i: int| 0 <= i < all.len() implies #[trigger] all[i] as int == '0' as int + (
        n as int / vstd::arithmetic::power::pow(10, (all.len() - 1 - i) as nat)) % 10 by {
            if i < front.len() {
                assert(all[i] == front[i]);
                let k = (front.len() - 1 - i) as nat;
                vstd::arithmetic::power::lemma_pow_positive(10, k);
                assert(vstd::arithmetic::power::pow(10, k + 1) == 10
                    * vstd::arithmetic::power::pow(10, k)) by {
                    reveal(vstd::arithmetic::power::pow);
                }
                vstd::arithmetic::div_mod::lemma_div_denominator(
                    n as int,
                    10,
                    vstd::arithmetic::power::pow(10, k),
                );
            } else {
                assert(n as int / 1 == n as int);
            }
        }
    } else {
        assert(n as int / 1 == n as int);
    }
}

/// Different numbers are written differently.
pub proof fn law_decimal_is_injective(a: nat, b: nat)
    ensures
        decimal(a) == decimal(b) ==> a == b,
    decreases a,
{
    if decimal(a) == decimal(b) {
        if a < 10 && b >= 10 {
            assert(decimal(b / 10).len() >= 1) by {
                law_decimal_gives_digits(b / 10);
            }
        } else if a >= 10 && b < 10 {
            assert(decimal(a / 10).len() >= 1) by {
                law_decimal_gives_digits(a / 10);
            }
        } else if a >= 10 && b >= 10 {
            assert(decimal(a).drop_last() =~= decimal(a / 10));
            assert(decimal(b).drop_last() =~= decimal(b / 10));
            assert(decimal(a).last() == digit(a % 10));
            assert(decimal(b).last() == digit(b % 10));
            law_decimal_is_injective(a / 10, b / 10);
        } else {
            assert(decimal(a)[0] == decimal(b)[0]);
        }
    }
}

} // verus!
