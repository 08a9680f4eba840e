use vstd::prelude::*;
use crate::model::{is_digit, digit_value, digits_value, numeral_body, is_numeral, parsed_numeral};

verus! {

/// The value of a digit string never shrinks when more digits follow: the
/// value of a prefix is at most the value of the whole string.
proof fn lemma_digits_value_prefix(s: Seq<char>, radix: nat, k: int)
    requires
        1 <= radix,
        0 <= k <= s.len(),
    ensures
        digits_value(s.take(k), radix) <= digits_value(s, radix),
    decreases s.len(),
{
    if k < s.len() {
        assert(s.take(k) =~= s.drop_last().take(k));
        lemma_digits_value_prefix(s.drop_last(), radix, k);
        assert(digits_value(s.drop_last(), radix) * radix >= digits_value(s.drop_last(), radix))
            by (nonlinear_arith)
            requires
                radix >= 1,
        ;
    } else {
        assert(s.take(k) =~= s);
    }
}

/// The digit value of `c` in the given radix, exactly when `c` is a digit of
/// that radix.
fn digit_of(c: char, radix: u64) -> (r: Option<u64>)
    requires
        radix == 10 || radix == 16,
    ensures
        match r {
            Some(d) => is_digit(c, radix as nat) && d as nat == digit_value(c) && d < radix,
            None => !is_digit(c, radix as nat),
        },
{
    if '0' <= c && c <= '9' {
        Some((c as u32 - '0' as u32) as u64)
    } else if radix == 16 && 'a' <= c && c <= 'f' {
        Some((c as u32 - 'a' as u32 + 10) as u64)
    } else if radix == 16 && 'A' <= c && c <= 'F' {
        Some((c as u32 - 'A' as u32 + 10) as u64)
    } else {
        None
    }
}

/// Parse `l[from..]` as an unsigned numeral of the given radix, succeeding
/// exactly when the text is an optional `+` followed by one or more digits
/// whose value is at most `max`.  This is the behaviour `from_str_radix` has
/// for unsigned integer types.
pub fn parse_numeral(l: &Vec<char>, from: usize, radix: u64, max: u64) -> (r: Option<u64>)
    requires
        from <= l@.len(),
        radix == 10 || radix == 16,
    ensures
        match r {
            Some(v) => parsed_numeral(l@.skip(from as int), radix as nat, max as nat) == Some(
                v as nat,
            ) && v <= max,
            None => parsed_numeral(l@.skip(from as int), radix as nat, max as nat) is None,
        },
{
    let ghost s = l@.skip(from as int);
    let n = l.len();
    let mut j = from;
    if j < n && l[j] == '+' {
        j = j + 1;
    }
    proof {
        assert(numeral_body(s) =~= l@.skip(j as int));
    }
    let start = j;
    let ghost body = l@.skip(start as int);
    if start == n {
        proof {
            assert(!is_numeral(s, radix as nat));
        }
        return None;
    }
    let mut acc: u64 = 0;
    while j < n
        invariant
            start <= j <= n,
            n == l@.len(),
            s == l@.skip(from as int),
            body == l@.skip(start as int),
            numeral_body(s) == body,
            radix == 10 || radix == 16,
            forall|t: int| 0 <= t < j - start ==> #[trigger] is_digit(body[t], radix as nat),
            acc as nat == digits_value(body.take(j - start), radix as nat),
            acc <= max,
        decreases n - j,
    {
        let ghost k = j - start;
        match digit_of(l[j], radix) {
            None => {
                proof {
                    assert(body[k] == l@[j as int]);
                    assert(!is_numeral(s, radix as nat));
                }
                return None;
            },
            Some(d) => {
                let wide: u128 = (acc as u128) * (radix as u128) + (d as u128);
                proof {
                    vstd::arithmetic::mul::lemma_mul_upper_bound(
                        acc as int,
                        u64::MAX as int,
                        radix as int,
                        16,
                    );
                    assert(body.take(k + 1).drop_last() =~= body.take(k));
                    assert(body.take(k + 1).last() == l@[j as int]);
                    assert(digits_value(body.take(k + 1), radix as nat) == wide as nat);
                }
                if wide > max as u128 {
                    proof {
                        if is_numeral(s, radix as nat) {
                            lemma_digits_value_prefix(body, radix as nat, k + 1);
                        }
                    }
                    return None;
                }
                acc = wide as u64;
            },
        }
        j = j + 1;
    }
    proof {
        assert(body.take(n - start) =~= body);
        assert(is_numeral(s, radix as nat));
    }
    Some(acc)
}

} // verus!
