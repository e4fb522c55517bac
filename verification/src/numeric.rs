//! Fixed-point parsing of numeric telemetry fields.
//!
//! A field is numeric when it is an optionally signed decimal literal:
//! digits with at most one decimal point and at least one digit. Its
//! value is carried as a signed fixed-point integer scaled by 1000
//! (milli-units), truncated after the third fractional digit and clamped
//! to the `i64` range. Everything else — exponents, infinities, words —
//! is not numeric and is skipped by the schema parser.

use vstd::prelude::*;
use crate::text::find_byte;

verus! {

/// ASCII decimal digit.
pub open spec fn is_digit(b: u8) -> bool {
    48 <= b <= 57
}

/// Numeric value of one ASCII digit.
pub open spec fn digit_val(b: u8) -> int {
    b - 48
}

/// Value of a digit string read in base 10.
pub open spec fn digits_val(s: Seq<u8>) -> int
    decreases s.len(),
{
    if s.len() == 0 {
        0
    } else {
        digits_val(s.drop_last()) * 10 + digit_val(s.last())
    }
}

/// The field carries a leading `+` or `-`.
pub open spec fn has_sign(s: Seq<u8>) -> bool {
    s.len() > 0 && (s[0] == 43 || s[0] == 45)
}

/// The field carries a leading `-`.
pub open spec fn is_negative(s: Seq<u8>) -> bool {
    s.len() > 0 && s[0] == 45
}

/// The field without its sign byte.
pub open spec fn num_body(s: Seq<u8>) -> Seq<u8> {
    if has_sign(s) {
        s.subrange(1, s.len() as int)
    } else {
        s
    }
}

/// An unsigned decimal body: at most one `.`, everything else digits,
/// and at least one digit.
pub open spec fn body_ok(g: Seq<u8>) -> bool {
    let d = find_byte(g, 46);
    &&& forall|i: int| 0 <= i < g.len() && i != d ==> is_digit(g[i])
    &&& g.len() > if d < g.len() { 1int } else { 0int }
}

/// Multiplier that pads a fraction of `k` digits out to three digits.
pub open spec fn frac_pad(k: int) -> int {
    if k >= 3 {
        1
    } else if k == 2 {
        10
    } else if k == 1 {
        100
    } else {
        1000
    }
}

/// Value of an unsigned decimal body in milli-units, the fraction
/// truncated after three digits.
pub open spec fn body_value(g: Seq<u8>) -> int {
    let d = find_byte(g, 46);
    if d == g.len() {
        digits_val(g) * 1000
    } else {
        let fr = g.subrange(d + 1 as int, g.len() as int);
        let fr3 = if fr.len() >= 3 {
            fr.subrange(0, 3)
        } else {
            fr
        };
        digits_val(g.subrange(0, d as int)) * 1000 + digits_val(fr3) * frac_pad(fr.len() as int)
    }
}

/// The field parses as a number.
pub open spec fn field_is_numeric(f: Seq<u8>) -> bool {
    body_ok(num_body(f))
}

/// Signed mathematical value of a numeric field, in milli-units.
pub open spec fn field_value(f: Seq<u8>) -> int {
    if is_negative(f) {
        -body_value(num_body(f))
    } else {
        body_value(num_body(f))
    }
}

/// `x` clamped to the `i64` range.
pub open spec fn clamp_i64(x: int) -> i64 {
    if x < i64::MIN {
        i64::MIN
    } else if x > i64::MAX {
        i64::MAX
    } else {
        x as i64
    }
}

/// Stored fixed-point value of a numeric field.
pub open spec fn field_fixed(f: Seq<u8>) -> i64 {
    clamp_i64(field_value(f))
}

/// Digit strings have non-negative value.
proof fn lemma_digits_val_nonneg(s: Seq<u8>)
    requires
        forall|i: int| 0 <= i < s.len() ==> is_digit(s[i]),
    ensures
        digits_val(s) >= 0,
    decreases s.len(),
{
    if s.len() > 0 {
        lemma_digits_val_nonneg(s.drop_last());
    }
}

/// Executable digit test.
pub fn digit_byte(b: u8) -> (r: bool)
    ensures
        r == is_digit(b),
{
    48 <= b && b <= 57
}

/// Parse a trimmed field as a fixed-point number in milli-units.
///
/// Returns `Some` exactly on numeric fields, with the value truncated to
/// three fractional digits and clamped to the `i64` range.
pub fn parse_field(f: &[u8]) -> (r: Option<i64>)
    ensures
        r is Some <==> field_is_numeric(f@),
        field_is_numeric(f@) ==> r == Some(field_fixed(f@)),
{
    let n = f.len();
    let neg = n > 0 && f[0] == 45;
    let signed = n > 0 && (f[0] == 43 || f[0] == 45);
    let start: usize = if signed {
        1
    } else {
        0
    };
    let ghost g = num_body(f@);
    proof {
        assert(g =~= f@.subrange(start as int, n as int));
    }

    // integer part: scan digits, saturating at i64::MAX
    let cap: i128 = i64::MAX as i128;
    let mut j = start;
    let mut acc: i128 = 0;
    while j < n && digit_byte(f[j])
        invariant
            start <= j <= n == f@.len(),
            g == f@.subrange(start as int, n as int),
            forall|k: int| start <= k < j ==> is_digit(f@[k]),
            cap == i64::MAX as i128,
            0 <= acc <= cap,
            digits_val(g.subrange(0, j - start)) <= cap ==> acc == digits_val(
                g.subrange(0, j - start),
            ),
            digits_val(g.subrange(0, j - start)) > cap ==> acc == cap,
        decreases n - j,
    {
        let d = (f[j] - 48) as i128;
        proof {
            let pre = g.subrange(0, j - start);
            let post = g.subrange(0, j + 1 - start);
            assert(post.drop_last() =~= pre);
            assert(post.last() == f@[j as int]);
            lemma_digits_val_nonneg(pre);
            if digits_val(pre) > cap {
                assert(digits_val(post) == digits_val(pre) * 10 + digit_val(f@[j as int]));
                assert(digits_val(pre) * 10 >= digits_val(pre)) by (nonlinear_arith)
                    requires
                        digits_val(pre) >= 0,
                ;
            }
        }
        let step = acc * 10 + d;
        acc = if step > cap {
            cap
        } else {
            step
        };
        j = j + 1;
    }
    let ghost int_digits = j - start;
    let ghost d_pos = find_byte(g, 46);

    let mut fr: i128 = 0;
    let mut fr_len: usize = 0;
    if j < n {
        // the scan stopped on a non-digit byte: it must be the sole dot
        if f[j] != 46 {
            proof {
                crate::text::lemma_find_byte(g, 46);
                if field_is_numeric(f@) {
                    // every non-dot byte is a digit, but f[j] is neither
                    assert(g[j - start] == f@[j as int]);
                    assert(j - start != d_pos ==> is_digit(g[j - start]));
                    assert(d_pos < g.len() ==> g[d_pos as int] == 46);
                }
            }
            return None;
        }
        proof {
            crate::text::lemma_find_byte_is(g, 46, j - start);
        }
        // fraction: every remaining byte must be a digit; the first
        // three carry value
        let mut k = j + 1;
        while k < n
            invariant
                j + 1 <= k <= n == f@.len(),
                g == f@.subrange(start as int, n as int),
                g == num_body(f@),
                d_pos == find_byte(g, 46),
                d_pos == j - start,
                start <= j < n,
                forall|m: int| j + 1 <= m < k ==> is_digit(f@[m]),
                fr_len == if k - (j + 1) >= 3 {
                    3int
                } else {
                    k - (j + 1)
                },
                0 <= fr,
                fr < if fr_len == 0 {
                    1i128
                } else if fr_len == 1 {
                    10i128
                } else if fr_len == 2 {
                    100i128
                } else {
                    1000i128
                },
                fr == digits_val(g.subrange(j + 1 - start, j + 1 - start + fr_len)),
            decreases n - k,
        {
            if !digit_byte(f[k]) {
                proof {
                    crate::text::lemma_find_byte(g, 46);
                    if field_is_numeric(f@) {
                        assert(g[k - start] == f@[k as int]);
                        assert(k - start != d_pos ==> is_digit(g[k - start]));
                    }
                }
                return None;
            }
            if fr_len < 3 {
                proof {
                    let pre = g.subrange(j + 1 - start, j + 1 - start + fr_len);
                    let post = g.subrange(j + 1 - start, j + 1 - start + fr_len + 1);
                    assert(post.drop_last() =~= pre);
                    assert(post.last() == f@[k as int]);
                }
                fr = fr * 10 + ((f[k] - 48) as i128);
                fr_len = fr_len + 1;
            }
            k = k + 1;
        }
    } else {
        proof {
            crate::text::lemma_find_byte_is(g, 46, g.len() as int);
        }
    }

    // validity: at least one digit, and a dot demands more than one byte
    if n - start == 0 {
        return None;
    }
    if j == start && j < n && n - start == 1 {
        // the body is a sole dot
        return None;
    }
    proof {
        assert forall|i: int| 0 <= i < g.len() && i != d_pos implies is_digit(g[i]) by {
            assert(g[i] == f@[i + start]);
        }
        if j < n {
            assert(d_pos == j - start);
            assert(g.len() >= 2);
        } else {
            assert(d_pos == g.len());
            assert(g.len() > 0);
        }
        assert(body_ok(g));
        assert(field_is_numeric(f@));
    }

    // combine integer part, fraction and sign, clamping to i64
    let pad: i128 = if fr_len >= 3 {
        1
    } else if fr_len == 2 {
        10
    } else if fr_len == 1 {
        100
    } else {
        1000
    };
    let total: i128 = acc * 1000 + fr * pad;
    proof {
        let iv = digits_val(g.subrange(0, int_digits));
        let bv = body_value(g);
        lemma_digits_val_nonneg(g.subrange(0, int_digits));
        if j < n {
            let frs = g.subrange(j + 1 - start, g.len() as int);
            assert(frs.len() == n - j - 1);
            let fr3 = if frs.len() >= 3 {
                frs.subrange(0, 3)
            } else {
                frs
            };
            assert(fr3 =~= g.subrange(j + 1 - start, j + 1 - start + fr_len));
            assert(g.subrange(0, d_pos as int) == g.subrange(0, int_digits));
            assert(bv == iv * 1000 + fr * pad);
        } else {
            assert(g.subrange(0, int_digits) =~= g);
            assert(bv == iv * 1000);
        }
        assert(fr * pad <= 999) by {
            assert(fr <= 9 ==> fr * 100 <= 900);
            assert(fr <= 99 ==> fr * 10 <= 990);
        }
        assert(fr * pad >= 0) by {
            assert(fr >= 0 ==> fr * 10 >= 0 && fr * 100 >= 0 && fr * 1000 >= 0);
        }
        if iv <= cap {
            assert(acc == iv);
            assert(total == bv);
        } else {
            assert(acc == cap);
            // the true value is at least as large as the saturated one,
            // and both land beyond i64::MAX
            assert(iv * 1000 >= (cap + 1) * 1000) by (nonlinear_arith)
                requires
                    iv >= cap + 1,
            ;
            assert(bv > cap);
            assert(total >= cap * 1000);
            assert(total > cap);
        }
        // total is body_value(g), or both exceed i64::MAX
        assert(body_value(g) > i64::MAX <==> total > i64::MAX);
        if body_value(g) <= i64::MAX {
            assert(total == body_value(g));
        }
    }

    let big: i128 = 9223372036854775807i128;
    if neg {
        if total > big {
            Some(i64::MIN)
        } else {
            proof {
                assert(total == body_value(g));
                assert(field_value(f@) == -total);
            }
            Some(-(total as i64))
        }
    } else {
        if total > big {
            Some(i64::MAX)
        } else {
            Some(total as i64)
        }
    }
}

} // verus!
