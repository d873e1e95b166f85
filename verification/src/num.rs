//! Unsigned integer parsing in a given radix, with the semantics of
//! `from_str_radix` for unsigned types: an optional `+` sign followed by
//! one or more digits of the radix, the value fitting in the target type.
use vstd::prelude::*;


verus! {

/// Value of a character as a digit (`0-9`, then `a-z`/`A-Z` for 10..35),
/// or -1 for any other character.
pub open spec fn digit_val(c: char) -> int {
    if '0' <= c && c <= '9' {
        (c as int) - ('0' as int)
    } else if 'a' <= c && c <= 'z' {
        (c as int) - ('a' as int) + 10
    } else if 'A' <= c && c <= 'Z' {
        (c as int) - ('A' as int) + 10
    } else {
        -1
    }
}

/// `c` is a digit in radix `r`.
pub open spec fn is_digit(c: char, r: nat) -> bool {
    0 <= digit_val(c) && digit_val(c) < r
}

/// Every character of `s` is a digit in radix `r`.
pub open spec fn all_digits(s: Seq<char>, r: nat) -> bool {
    forall|i: int| 0 <= i < s.len() ==> is_digit(#[trigger] s[i], r)
}

/// Numeric value of the digit string `s` in radix `r` (most significant first).
pub open spec fn digits_value(s: Seq<char>, r: nat) -> nat
    decreases s.len(),
{
    if s.len() == 0 {
        0
    } else {
        (digits_value(s.drop_last(), r) * r + digit_val(s.last())) as nat
    }
}

/// The digits part of `s`: one leading `+` is dropped when more follows.
pub open spec fn unsigned_digits(s: Seq<char>) -> Seq<char> {
    if s.len() > 1 && s[0] == '+' {
        s.drop_first()
    } else {
        s
    }
}

/// What `from_str_radix` gives for an unsigned type whose maximum is `max`:
/// `Some(value)` on a well-formed string whose value fits, `None` otherwise.
pub open spec fn radix_parse(s: Seq<char>, r: nat, max: nat) -> Option<nat> {
    let d = unsigned_digits(s);
    if d.len() > 0 && all_digits(d, r) && digits_value(d, r) <= max {
        Some(digits_value(d, r))
    } else {
        None
    }
}

/// Digit value of one character, or `radix` itself when it is no digit.
fn digit_of(c: char, radix: u32) -> (d: u32)
    requires
        2 <= radix <= 36,
    ensures
        is_digit(c, radix as nat) ==> d == digit_val(c),
        !is_digit(c, radix as nat) ==> d == radix,
{
    let v: u32 = if '0' <= c && c <= '9' {
        (c as u32) - ('0' as u32)
    } else if 'a' <= c && c <= 'z' {
        (c as u32) - ('a' as u32) + 10
    } else if 'A' <= c && c <= 'Z' {
        (c as u32) - ('A' as u32) + 10
    } else {
        radix
    };
    if v < radix {
        v
    } else {
        radix
    }
}

proof fn lemma_value_prefix_le(s: Seq<char>, k: int, r: nat)
    requires
        0 <= k <= s.len(),
        r >= 1,
        all_digits(s, r),
    ensures
        digits_value(s.take(k), r) <= digits_value(s, r),
    decreases s.len() - k,
{
    if k < s.len() {
        let p = s.drop_last();
        assert(all_digits(p, r)) by {
            assert forall|i: int| 0 <= i < p.len() implies is_digit(#[trigger] p[i], r) by {
                assert(p[i] == s[i]);
            }
        }
        lemma_value_prefix_le(p, k, r);
        assert(p.take(k) =~= s.take(k));
        assert(is_digit(s[s.len() - 1], r));
        assert(digits_value(p, r) * r >= digits_value(p, r)) by (nonlinear_arith)
            requires
                r >= 1,
        ;
    } else {
        assert(s.take(k) =~= s);
    }
}

proof fn lemma_overflow_check(acc: nat, d: nat, r: nat, max: nat)
    requires
        2 <= r,
        d <= max,
    ensures
        (acc > (max - d) / (r as int)) <==> (acc * r + d > max),
{
    let q = (max - d) / (r as int);
    assert(q * r <= max - d) by (nonlinear_arith)
        requires
            q == (max - d) / (r as int),
            r >= 2,
            max - d >= 0,
    ;
    assert((q + 1) * r > max - d) by (nonlinear_arith)
        requires
            q == (max - d) / (r as int),
            r >= 2,
            max - d >= 0,
    ;
    if acc > q {
        assert(acc * r >= (q + 1) * r) by (nonlinear_arith)
            requires
                acc >= q + 1,
                r >= 2,
        ;
    } else {
        assert(acc * r <= q * r) by (nonlinear_arith)
            requires
                acc <= q,
                r >= 2,
                q >= 0,
        ;
    }
}

/// Parse `v[i..j]` as an unsigned number in `radix` bounded by `max`, as
/// `from_str_radix` does.
pub fn parse_radix_range(v: &Vec<char>, i: usize, j: usize, radix: u32, max: u64) -> (res:
    Option<u64>)
    requires
        i <= j <= v.len(),
        2 <= radix <= 36,
        max >= 36,
    ensures
        match res {
            Some(x) => radix_parse(v@.subrange(i as int, j as int), radix as nat, max as nat)
                == Some(x as nat),
            None => radix_parse(v@.subrange(i as int, j as int), radix as nat, max as nat) is None,
        },
{
    let ghost s = v@.subrange(i as int, j as int);
    let ghost r = radix as nat;
    let mut start = i;
    if j - i > 1 && v[i] == '+' {
        start = i + 1;
    }
    let ghost d = unsigned_digits(s);
    assert(d =~= v@.subrange(start as int, j as int));
    if start == j {
        return None;
    }
    let mut acc: u64 = 0;
    let mut k = start;
    while k < j
        invariant
            i <= start <= k <= j <= v.len(),
            start < j,
            2 <= radix <= 36,
            max >= 36,
            r == radix as nat,
            d == v@.subrange(start as int, j as int),
            s == v@.subrange(i as int, j as int),
            d == unsigned_digits(s),
            all_digits(d.take(k - start), r),
            acc as nat == digits_value(d.take(k - start), r),
            acc <= max,
        decreases j - k,
    {
        let dg = digit_of(v[k], radix);
        let ghost idx = k - start;
        assert(d[idx] == v@[k as int]);
        if dg == radix {
            assert(!is_digit(d[idx], r));
            assert(!all_digits(d, r));
            return None;
        }
        assert(d.take(idx + 1).drop_last() =~= d.take(idx));
        assert(d.take(idx + 1).last() == d[idx]);
        proof {
            lemma_overflow_check(acc as nat, dg as nat, r, max as nat);
        }
        if acc > (max - dg as u64) / (radix as u64) {
            proof {
                assert(digits_value(d.take(idx + 1), r) == digits_value(d.take(idx), r) * r
                    + digit_val(d[idx]));
                assert(digits_value(d.take(idx + 1), r) > max);
                if all_digits(d, r) {
                    lemma_value_prefix_le(d, idx + 1, r);
                }
            }
            return None;
        }
        assert(acc * radix + dg <= max);
        acc = acc * (radix as u64) + (dg as u64);
        k += 1;
        assert(all_digits(d.take(k - start), r)) by {
            assert forall|m: int| 0 <= m < k - start implies is_digit(
                #[trigger] d.take(k - start)[m],
                r,
            ) by {
                if m < idx {
                    assert(d.take(k - start)[m] == d.take(idx)[m]);
                }
            }
        }
    }
    assert(d.take(j - start) =~= d);
    Some(acc)
}

/// `str::parse::<u32>()` / `u32::from_str_radix(s, 10)` semantics.
pub open spec fn spec_decimal_u32(s: Seq<char>) -> Option<nat> {
    radix_parse(s, 10, u32::MAX as nat)
}

/// `u64::from_str_radix(s, 16)` semantics.
pub open spec fn spec_hex_u64(s: Seq<char>) -> Option<nat> {
    radix_parse(s, 16, u64::MAX as nat)
}

} // verus!
