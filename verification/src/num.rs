use vstd::prelude::*;

verus! {

/// An ASCII decimal digit byte.
pub open spec fn is_digit(b: u8) -> bool {
    48 <= b && b <= 57
}

pub open spec fn all_digits(s: Seq<u8>) -> bool {
    forall|j: int| 0 <= j < s.len() ==> is_digit(s[j])
}

/// The value of a sequence of ASCII digit bytes read as a decimal numeral.
pub open spec fn digits_val(s: Seq<u8>) -> int
    decreases s.len(),
{
    if s.len() == 0 {
        0
    } else {
        digits_val(s.drop_last()) * 10 + (s.last() - 48)
    }
}

/// The digit part of a signed decimal literal: everything after one leading
/// `+` or `-`, or the whole sequence when there is none.
pub open spec fn int_digits(s: Seq<u8>) -> Seq<u8> {
    if s.len() > 0 && (s[0] == 43 || s[0] == 45) {
        s.skip(1)
    } else {
        s
    }
}

pub open spec fn int_sign(s: Seq<u8>) -> int {
    if s.len() > 0 && s[0] == 45 {
        -1
    } else {
        1
    }
}

/// The integer a signed decimal literal denotes.
pub open spec fn spec_int_value(s: Seq<u8>) -> int {
    int_sign(s) * digits_val(int_digits(s))
}

/// A valid `i32` literal: an optional sign, then at least one digit, and a
/// value within the range of `i32`.
pub open spec fn is_i32_literal(s: Seq<u8>) -> bool {
    &&& int_digits(s).len() > 0
    &&& all_digits(int_digits(s))
    &&& -2147483648 <= spec_int_value(s) <= 2147483647
}

proof fn lemma_digits_nonneg(s: Seq<u8>)
    requires
        all_digits(s),
    ensures
        digits_val(s) >= 0,
    decreases s.len(),
{
    if s.len() > 0 {
        lemma_digits_nonneg(s.drop_last());
    }
}

proof fn lemma_digits_prefix(s: Seq<u8>, m: int)
    requires
        all_digits(s),
        0 <= m <= s.len(),
    ensures
        digits_val(s) >= digits_val(s.take(m)),
    decreases s.len(),
{
    if m == s.len() {
        assert(s.take(m) =~= s);
    } else {
        assert(s.drop_last().take(m) =~= s.take(m));
        lemma_digits_prefix(s.drop_last(), m);
        lemma_digits_nonneg(s.drop_last());
    }
}

/// Parses a signed decimal `i32` literal: an optional `+` or `-`, then one
/// or more digits, the value within range; anything else is rejected.
pub fn parse_i32(s: &Vec<u8>) -> (r: Option<i32>)
    ensures
        match r {
            Some(v) => is_i32_literal(s@) && v == spec_int_value(s@),
            None => !is_i32_literal(s@),
        },
{
    let ghost d = int_digits(s@);
    let mut i: usize = 0;
    let mut neg = false;
    if s.len() > 0 && (s[0] == 43 || s[0] == 45) {
        neg = s[0] == 45;
        i = 1;
        proof {
            assert(d =~= s@.skip(1));
        }
    } else {
        proof {
            assert(d =~= s@.skip(0));
            assert(d =~= s@);
        }
    }
    let start = i;
    if i >= s.len() {
        return None;
    }
    let mut acc: i64 = 0;
    while i < s.len()
        invariant
            start <= i <= s.len(),
            d == int_digits(s@),
            d == s@.skip(start as int),
            d.len() == s.len() - start,
            neg <==> int_sign(s@) == -1,
            all_digits(d.take(i - start)),
            0 <= acc <= 2147483648,
            acc == digits_val(d.take(i - start)),
        decreases s.len() - i,
    {
        let ghost k = i - start;
        let b = s[i];
        proof {
            assert(d[k as int] == s@[i as int]);
        }
        if b < 48 || b > 57 {
            proof {
                assert(!is_digit(d[k as int]));
                assert(!all_digits(d));
            }
            return None;
        }
        let digit: i64 = (b - 48) as i64;
        let next: i64 = acc * 10 + digit;
        proof {
            assert(d.take(k + 1).drop_last() =~= d.take(k as int));
            assert(d.take(k + 1).last() == d[k as int]);
            assert(digits_val(d.take(k + 1)) == acc * 10 + (d[k as int] - 48));
            assert(digits_val(d.take(k + 1)) == next);
        }
        if next > 2147483648 {
            proof {
                if all_digits(d) {
                    lemma_digits_prefix(d, k + 1);
                    assert(digits_val(d) > 2147483648);
                    assert(spec_int_value(s@) == int_sign(s@) * digits_val(d));
                    if int_sign(s@) == 1 {
                        assert(spec_int_value(s@) > 2147483647);
                    } else {
                        assert(int_sign(s@) == -1);
                        assert(spec_int_value(s@) == -1 * digits_val(d));
                        assert(spec_int_value(s@) < -2147483648);
                    }
                }
            }
            return None;
        }
        acc = next;
        i = i + 1;
    }
    proof {
        assert(d.take(d.len() as int) =~= d);
    }
    if neg {
        let v: i64 = -acc;
        Some(v as i32)
    } else {
        if acc > 2147483647 {
            return None;
        }
        Some(acc as i32)
    }
}

} // verus!
