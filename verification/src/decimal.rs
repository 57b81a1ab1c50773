//! Writing integers in decimal, as `Display` does for Rust's integer types.

use vstd::prelude::*;

verus! {

/// The character of the decimal digit `d`.
pub open spec fn digit_char(d: nat) -> char {
    ('0' as nat + d) as char
}

/// The decimal digits of `n`, most significant first, without leading zeros
/// ("0" for zero).
pub open spec fn nat_decimal(n: nat) -> Seq<char>
    decreases n,
{
    if n < 10 {
        seq![digit_char(n)]
    } else {
        nat_decimal(n / 10) + seq![digit_char(n % 10)]
    }
}

/// The decimal text of `i`: its digits, after a minus sign when it is negative.
pub open spec fn int_decimal(i: int) -> Seq<char> {
    if i < 0 {
        seq!['-'] + nat_decimal((-i) as nat)
    } else {
        nat_decimal(i as nat)
    }
}

/// Whether `c` is one of the characters '0' to '9'.
pub open spec fn is_digit(c: char) -> bool {
    '0' <= c <= '9'
}

/// The number that the digit characters `s` stand for, read in base ten.
pub open spec fn decimal_value(s: Seq<char>) -> int
    decreases s.len(),
{
    if s.len() == 0 {
        0
    } else {
        decimal_value(s.drop_last()) * 10 + (s.last() as int - '0' as int)
    }
}

/// The decimal text of a natural number is a non-empty run of digits with
/// no leading zero, and reading it back in base ten gives the number.
pub proof fn law_nat_decimal_reads_back(n: nat)
    ensures
        nat_decimal(n).len() >= 1,
        forall|k: int| 0 <= k < nat_decimal(n).len() ==> is_digit(#[trigger] nat_decimal(n)[k]),
        decimal_value(nat_decimal(n)) == n,
        n > 0 ==> nat_decimal(n)[0] != '0',
        n == 0 ==> nat_decimal(n) == seq!['0'],
    decreases n,
{
    if n >= 10 {
        let q = (n / 10) as nat;
        let r = (n % 10) as nat;
        law_nat_decimal_reads_back(q);
        let t = nat_decimal(n);
        assert(t == nat_decimal(q) + seq![digit_char(r)]);
        assert(t.drop_last() =~= nat_decimal(q));
        assert(q * 10 + r == n) by (nonlinear_arith)
            requires
                q == n / 10,
                r == n % 10,
        ;
        assert forall|k: int| 0 <= k < t.len() implies is_digit(#[trigger] t[k]) by {
            if k < t.len() - 1 {
                assert(t[k] == nat_decimal(q)[k]);
            }
        }
        assert(q > 0);
        assert(t[0] == nat_decimal(q)[0]);
        assert(t.last() == digit_char(r));
        assert(digit_char(r) as int == '0' as int + r);
        assert(decimal_value(t) == decimal_value(nat_decimal(q)) * 10 + r);
    } else {
        let t = nat_decimal(n);
        assert(t.last() == digit_char(n));
        assert(digit_char(n) as int == '0' as int + n);
        assert(t.drop_last() =~= Seq::<char>::empty());
        assert(decimal_value(t.drop_last()) == 0);
    }
}

/// The decimal text of an integer: a minus sign exactly when it is negative,
/// then the digits of its magnitude, which read back as that magnitude.
pub proof fn law_int_decimal_reads_back(i: int)
    ensures
        i < 0 ==> int_decimal(i)[0] == '-' && int_decimal(i).drop_first() == nat_decimal(
            (-i) as nat,
        ) && decimal_value(int_decimal(i).drop_first()) == -i,
        i >= 0 ==> decimal_value(int_decimal(i)) == i && forall|k: int|
            0 <= k < int_decimal(i).len() ==> is_digit(#[trigger] int_decimal(i)[k]),
{
    if i < 0 {
        law_nat_decimal_reads_back((-i) as nat);
        assert((seq!['-'] + nat_decimal((-i) as nat)).drop_first() =~= nat_decimal((-i) as nat));
    } else {
        law_nat_decimal_reads_back(i as nat);
    }
}

/// The one-character text of the digit `d`.
fn digit_str(d: u64) -> (r: &'static str)
    requires
        d < 10,
    ensures
        r@ == seq![digit_char(d as nat)],
{
    proof {
        reveal_strlit("0");
        reveal_strlit("1");
        reveal_strlit("2");
        reveal_strlit("3");
        reveal_strlit("4");
        reveal_strlit("5");
        reveal_strlit("6");
        reveal_strlit("7");
        reveal_strlit("8");
        reveal_strlit("9");
    }
    match d {
        0 => "0",
        1 => "1",
        2 => "2",
        3 => "3",
        4 => "4",
        5 => "5",
        6 => "6",
        7 => "7",
        8 => "8",
        _ => "9",
    }
}

/// Appends the decimal digits of `n` to `s`.
fn push_nat_decimal(s: &mut String, n: u64)
    ensures
        final(s)@ == old(s)@ + nat_decimal(n as nat),
    decreases n,
{
    if n >= 10 {
        push_nat_decimal(s, n / 10);
    }
    s.append(digit_str(n % 10));
    proof {
        if n >= 10 {
            assert(old(s)@ + nat_decimal((n / 10) as nat) + seq![digit_char((n % 10) as nat)]
                =~= old(s)@ + nat_decimal(n as nat));
        } else {
            assert(n % 10 == n);
        }
    }
}

/// Appends the decimal text of `i` to `s`.
pub fn push_i32_decimal(s: &mut String, i: i32)
    ensures
        final(s)@ == old(s)@ + int_decimal(i as int),
{
    if i < 0 {
        s.append("-");
        proof {
            reveal_strlit("-");
        }
        let m: u64 = (0 - (i as i64)) as u64;
        push_nat_decimal(s, m);
        assert(s@ =~= old(s)@ + int_decimal(i as int));
    } else {
        push_nat_decimal(s, i as u64);
    }
}

} // verus!
