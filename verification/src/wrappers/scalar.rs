//! Scalars: the trimming of the decimal notation of floats.
use vstd::prelude::*;

verus! {

/// `s` without its trailing occurrences of `c`.
pub open spec fn trim_end_char(s: Seq<char>, c: char) -> Seq<char>
    decreases s.len(),
{
    if s.len() > 0 && s.last() == c {
        trim_end_char(s.drop_last(), c)
    } else {
        s
    }
}

/// A decimal notation without the zeros that end its fractional part, nor
/// a dot left alone: `1.500` becomes `1.5` and `100.000` becomes `100`. A
/// notation without a dot is kept as it is.
pub open spec fn trimmed_float(s: Seq<char>) -> Seq<char> {
    if s.contains('.') {
        trim_end_char(trim_end_char(s, '0'), '.')
    } else {
        s
    }
}

/// Trims the zeros ending the fractional part of a decimal notation, and
/// the dot when nothing follows it.
pub fn trim_float_zeros(s: &str) -> (r: &str)
    ensures
        r@ == trimmed_float(s@),
{
    let n = s.unicode_len();
    let mut has_dot = false;
    let mut i: usize = 0;
    while i < n
        invariant
            n == s@.len(),
            i <= n,
            has_dot == exists|j: int| 0 <= j < i && s@[j] == '.',
        decreases n - i,
    {
        if s.get_char(i) == '.' {
            has_dot = true;
        }
        i += 1;
    }
    if !has_dot {
        assert(!s@.contains('.'));
        return s;
    }
    let mut end: usize = n;
    assert(s@.take(n as int) =~= s@);
    loop
        invariant
            n == s@.len(),
            end <= n,
            trim_end_char(s@, '0') == trim_end_char(s@.take(end as int), '0'),
        ensures
            trim_end_char(s@, '0') == s@.take(end as int),
            end <= n,
        decreases end,
    {
        if end == 0 {
            assert(s@.take(0).len() == 0);
            break;
        }
        if s.get_char(end - 1) != '0' {
            assert(s@.take(end as int).last() == s@[end - 1]);
            break;
        }
        proof {
            assert(s@.take(end as int).drop_last() =~= s@.take(end - 1));
        }
        end -= 1;
    }
    let ghost zeros_trimmed = s@.take(end as int);
    loop
        invariant
            n == s@.len(),
            end <= n,
            trim_end_char(zeros_trimmed, '.') == trim_end_char(s@.take(end as int), '.'),
        ensures
            trim_end_char(zeros_trimmed, '.') == s@.take(end as int),
            end <= n,
        decreases end,
    {
        if end == 0 {
            assert(s@.take(0).len() == 0);
            break;
        }
        if s.get_char(end - 1) != '.' {
            assert(s@.take(end as int).last() == s@[end - 1]);
            break;
        }
        proof {
            assert(s@.take(end as int).drop_last() =~= s@.take(end - 1));
        }
        end -= 1;
    }
    s.substring_char(0, end)
}

} // verus!
