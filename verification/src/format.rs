//! Decimal and debug notations of integers, as `to_string` and `{:?}`
//! write them.
use vstd::prelude::*;

verus! {

/// The character of a decimal digit.
pub open spec fn digit_char(d: int) -> char {
    if d == 0 {
        '0'
    } else if d == 1 {
        '1'
    } else if d == 2 {
        '2'
    } else if d == 3 {
        '3'
    } else if d == 4 {
        '4'
    } else if d == 5 {
        '5'
    } else if d == 6 {
        '6'
    } else if d == 7 {
        '7'
    } else if d == 8 {
        '8'
    } else {
        '9'
    }
}

/// The decimal notation of a natural number, as `to_string` writes it.
pub open spec fn decimal(n: nat) -> Seq<char>
    decreases n,
{
    if n < 10 {
        seq![digit_char(n as int)]
    } else {
        decimal(n / 10).push(digit_char((n % 10) as int))
    }
}

fn digit_str(d: u64) -> (s: &'static str)
    requires
        d < 10,
    ensures
        s@ == seq![digit_char(d as int)],
{
    proof {
        reveal_strlit("0");
        reveal_strlit("1");
        reveal_strlit("2");
        reveal_strlit("3");
        reveal_strlit("4");
        reveal_strlit("5");
        reveal_strlit("6");
        reveal_strlit("7");
        reveal_strlit("8");
        reveal_strlit("9");
    }
    let s = if d == 0 {
        "0"
    } else if d == 1 {
        "1"
    } else if d == 2 {
        "2"
    } else if d == 3 {
        "3"
    } else if d == 4 {
        "4"
    } else if d == 5 {
        "5"
    } else if d == 6 {
        "6"
    } else if d == 7 {
        "7"
    } else if d == 8 {
        "8"
    } else {
        "9"
    };
    assert(s@ =~= seq![digit_char(d as int)]);
    s
}

/// The decimal notation of `n`.
pub fn decimal_string(n: u64) -> (s: String)
    ensures
        s@ == decimal(n as nat),
    decreases n,
{
    if n < 10 {
        String::from_str(digit_str(n))
    } else {
        let mut s = decimal_string(n / 10);
        s.append(digit_str(n % 10));
        s
    }
}

/// The decimal notation of an integer, with a leading `-` when negative.
pub open spec fn int_decimal(x: int) -> Seq<char> {
    if x < 0 {
        seq!['-'] + decimal((-x) as nat)
    } else {
        decimal(x as nat)
    }
}

/// The decimal notation of `x`.
pub fn int_string(x: i64) -> (s: String)
    ensures
        s@ == int_decimal(x as int),
{
    if x < 0 {
        proof {
            reveal_strlit("-");
        }
        let magnitude: u64 = (-(x + 1)) as u64 + 1;
        let mut s = String::from_str("-");
        let digits = decimal_string(magnitude);
        s.append(digits.as_str());
        s
    } else {
        decimal_string(x as u64)
    }
}

/// The elements of a list of integers, separated by `, `.
pub open spec fn joined_decimals(s: Seq<i64>) -> Seq<char>
    decreases s.len(),
{
    if s.len() == 0 {
        Seq::empty()
    } else if s.len() == 1 {
        int_decimal(s[0] as int)
    } else {
        joined_decimals(s.drop_last()) + seq![',', ' '] + int_decimal(s.last() as int)
    }
}

/// The debug notation of a list of integers, as `{:?}` writes it:
/// `[2, 3, 4]`.
pub open spec fn dims_debug(s: Seq<i64>) -> Seq<char> {
    seq!['['] + joined_decimals(s) + seq![']']
}

/// The debug notation of `dims`.
pub fn dims_debug_string(dims: &[i64]) -> (s: String)
    ensures
        s@ == dims_debug(dims@),
{
    proof {
        reveal_strlit("[");
        reveal_strlit("]");
        reveal_strlit(", ");
    }
    let mut s = String::from_str("[");
    let mut i: usize = 0;
    while i < dims.len()
        invariant
            i <= dims.len(),
            s@ == seq!['['] + joined_decimals(dims@.take(i as int)),
        decreases dims.len() - i,
    {
        proof {
            reveal_strlit(", ");
        }
        if i > 0 {
            s.append(", ");
        }
        let item = int_string(dims[i]);
        s.append(item.as_str());
        proof {
            let t = dims@.take(i + 1);
            assert(t.drop_last() =~= dims@.take(i as int));
            assert(t.last() == dims@[i as int]);
            if i == 0 {
                assert(dims@.take(0) =~= Seq::<i64>::empty());
                assert(s@ =~= seq!['['] + joined_decimals(t));
            } else {
                assert(s@ =~= seq!['['] + joined_decimals(t));
            }
        }
        i += 1;
    }
    assert(dims@.take(dims.len() as int) =~= dims@);
    s.append("]");
    s
}

} // verus!
