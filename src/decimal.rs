use vstd::prelude::*;

use crate::text::{find_from, first_from, lemma_first_from};

verus! {

/// An ASCII decimal digit.
pub open spec fn is_digit(c: char) -> bool {
    '0' <= c && c <= '9'
}

/// Text made of decimal digits only.
pub open spec fn all_digits(s: Seq<char>) -> bool {
    forall|i: int| 0 <= i < s.len() ==> is_digit(#[trigger] s[i])
}

/// The number that a run of decimal digits spells.
pub open spec fn digits_value(s: Seq<char>) -> int
    decreases s.len(),
{
    if s.len() == 0 {
        0
    } else {
        digits_value(s.drop_last()) * 10 + (s.last() as int - '0' as int)
    }
}

/// Ten to the power `n`.
pub open spec fn pow10(n: nat) -> int
    decreases n,
{
    if n == 0 {
        1
    } else {
        10 * pow10((n - 1) as nat)
    }
}

/// Digits before the point (all of `s` when it has none).
pub open spec fn whole_part(s: Seq<char>) -> Seq<char> {
    s.subrange(0, first_from(s, '.', 0))
}

/// Digits after the point (empty when it has none).
pub open spec fn fraction_part(s: Seq<char>) -> Seq<char> {
    let p = first_from(s, '.', 0);
    if p < s.len() {
        s.subrange(p + 1, s.len() as int)
    } else {
        Seq::empty()
    }
}

/// Decimal text: digits, at most one point, and at least one digit.
pub open spec fn is_decimal(s: Seq<char>) -> bool {
    &&& all_digits(whole_part(s))
    &&& all_digits(fraction_part(s))
    &&& whole_part(s).len() + fraction_part(s).len() > 0
}

/// `n`, but at most three.
pub open spec fn min3(n: int) -> int {
    if n < 3 {
        n
    } else {
        3
    }
}

/// The value of decimal text in thousandths, digits past the third after
/// the point dropped.
pub open spec fn milli_value(s: Seq<char>) -> int {
    let f = fraction_part(s);
    let k = min3(f.len() as int);
    digits_value(whole_part(s)) * 1000 + digits_value(f.subrange(0, k)) * pow10((3 - k) as nat)
}

/// What `parse_milli` returns: the value when the text is decimal and the
/// value fits in a `u64`.
pub open spec fn decimal_milli(s: Seq<char>) -> Option<u64> {
    if is_decimal(s) && milli_value(s) <= u64::MAX {
        Some(milli_value(s) as u64)
    } else {
        None
    }
}

/// Digits spell a number that is not negative.
pub proof fn lemma_digits_value_nonneg(s: Seq<char>)
    requires
        all_digits(s),
    ensures
        digits_value(s) >= 0,
    decreases s.len(),
{
    if s.len() > 0 {
        assert(all_digits(s.drop_last())) by {
            assert forall|i: int| 0 <= i < s.drop_last().len() implies is_digit(
                #[trigger] s.drop_last()[i],
            ) by {
                assert(s.drop_last()[i] == s[i]);
            }
        }
        lemma_digits_value_nonneg(s.drop_last());
        assert(is_digit(s[s.len() - 1]));
    }
}

fn digit_of(c: char) -> (r: u128)
    requires
        is_digit(c),
    ensures
        r as int == c as int - '0' as int,
        r < 10,
{
    (c as u32 - '0' as u32) as u128
}

/// Reads decimal text such as `45.2` or `12` in thousandths (`45200`,
/// `12000`).
pub fn parse_milli(t: &Vec<char>) -> (r: Option<u64>)
    ensures
        r == decimal_milli(t@),
{
    let ghost s = t@;
    let p = find_from(t, '.', 0);
    proof {
        lemma_first_from(s, '.', 0);
    }
    let ghost wp = whole_part(s);
    let ghost fp = fraction_part(s);
    // whole part
    let mut w: u128 = 0;
    let mut big = false;
    let mut i: usize = 0;
    while i < p
        invariant
            p as int == first_from(s, '.', 0),
            p <= s.len(),
            s == t@,
            wp == s.subrange(0, p as int),
            i <= p,
            all_digits(s.subrange(0, i as int)),
            !big ==> w as int == digits_value(s.subrange(0, i as int)) && w <= u64::MAX,
            big ==> digits_value(s.subrange(0, i as int)) > u64::MAX,
        decreases p - i,
    {
        let c = t[i];
        if !(c >= '0' && c <= '9') {
            proof {
                assert(wp[i as int] == c);
                assert(!is_digit(wp[i as int]));
                assert(!all_digits(wp));
            }
            return None;
        }
        let ghost prev = s.subrange(0, i as int);
        let ghost next = s.subrange(0, i + 1);
        proof {
            assert(next.drop_last() =~= prev);
            assert(all_digits(next)) by {
                assert forall|j: int| 0 <= j < next.len() implies is_digit(#[trigger] next[j]) by {
                    if j < i {
                        assert(next[j] == prev[j]);
                    }
                }
            }
            lemma_digits_value_nonneg(prev);
        }
        let d = digit_of(c);
        if !big {
            w = w * 10 + d;
            if w > u64::MAX as u128 {
                big = true;
            }
        }
        i = i + 1;
    }
    assert(s.subrange(0, p as int) == wp);
    // fraction part
    let mut f: u128 = 0;
    let mut k: usize = 0;
    let mut j: usize = if p < t.len() {
        p + 1
    } else {
        t.len()
    };
    let ghost start = j as int;
    proof {
        if p < s.len() {
            assert(fp == s.subrange(start, s.len() as int));
        } else {
            assert(fp =~= s.subrange(start, s.len() as int));
        }
    }
    while j < t.len()
        invariant
            s == t@,
            0 <= start <= j <= s.len(),
            fp == s.subrange(start, s.len() as int),
            fp == fraction_part(s),
            k as int == min3(j - start),
            all_digits(fp.subrange(0, j - start)),
            f as int == digits_value(fp.subrange(0, k as int)),
            k == 0 ==> f == 0,
            k == 1 ==> f < 10,
            k == 2 ==> f < 100,
            f < 1000,
        decreases t.len() - j,
    {
        let c = t[j];
        let ghost n = j - start;
        if !(c >= '0' && c <= '9') {
            proof {
                assert(fp[n] == c);
                assert(!is_digit(fp[n]));
                assert(!all_digits(fp));
            }
            return None;
        }
        proof {
            let next = fp.subrange(0, n + 1);
            assert(all_digits(next)) by {
                assert forall|m: int| 0 <= m < next.len() implies is_digit(#[trigger] next[m]) by {
                    if m < n {
                        assert(next[m] == fp.subrange(0, n)[m]);
                    }
                }
            }
        }
        if k < 3 {
            proof {
                let prev = fp.subrange(0, k as int);
                let next = fp.subrange(0, k + 1);
                assert(next.drop_last() =~= prev);
            }
            f = f * 10 + digit_of(c);
            k = k + 1;
        }
        j = j + 1;
    }
    assert(fp.subrange(0, fp.len() as int) =~= fp);
    if p == 0 && t.len() <= 1 {
        return None;
    }
    if big {
        proof {
            lemma_digits_value_nonneg(fp.subrange(0, k as int));
            assert(pow10((3 - k) as nat) >= 1) by {
                reveal_with_fuel(pow10, 4);
            }
            assert(digits_value(fp.subrange(0, k as int)) * pow10((3 - k) as nat) >= 0)
                by (nonlinear_arith)
                requires
                    digits_value(fp.subrange(0, k as int)) >= 0,
                    pow10((3 - k) as nat) >= 1,
            ;
        }
        return None;
    }
    let scale: u128 = if k == 0 {
        1000
    } else if k == 1 {
        100
    } else if k == 2 {
        10
    } else {
        1
    };
    proof {
        reveal_with_fuel(pow10, 4);
    }
    let total: u128 = w * 1000 + f * scale;
    if total > u64::MAX as u128 {
        None
    } else {
        Some(total as u64)
    }
}

} // verus!
