use vstd::prelude::*;
use vstd::string::StrSliceExecFns;
use vstd::string::StringExecFns;

verus! {

/// Whether `c` is a decimal digit.
pub open spec fn is_digit(c: char) -> bool {
    '0' <= c && c <= '9'
}

/// The numeric value of a decimal digit.
pub open spec fn digit_val(c: char) -> int {
    c as int - '0' as int
}

/// The decimal digit with value `d`.
pub open spec fn digit_char(d: int) -> char {
    ('0' as int + d) as char
}

/// Whether every character of `s` is a decimal digit.
pub open spec fn all_digits(s: Seq<char>) -> bool {
    forall|i: int| 0 <= i < s.len() ==> is_digit(s[i])
}

/// The value of a string of decimal digits, most significant first.
pub open spec fn dec_val(s: Seq<char>) -> int
    decreases s.len(),
{
    if s.len() == 0 {
        0
    } else {
        dec_val(s.drop_last()) * 10 + digit_val(s.last())
    }
}

pub proof fn lemma_dec_val_nonneg(s: Seq<char>)
    requires
        all_digits(s),
    ensures
        dec_val(s) >= 0,
    decreases s.len(),
{
    if s.len() > 0 {
        assert(all_digits(s.drop_last()));
        lemma_dec_val_nonneg(s.drop_last());
    }
}

/// The value of a digit string dominates the value of any of its prefixes.
pub proof fn lemma_dec_val_prefix(s: Seq<char>, i: int)
    requires
        all_digits(s),
        0 <= i <= s.len(),
    ensures
        dec_val(s.take(i)) <= dec_val(s),
    decreases s.len() - i,
{
    if i == s.len() {
        assert(s.take(i) =~= s);
    } else {
        assert(s.take(i + 1).drop_last() =~= s.take(i));
        assert(all_digits(s.take(i)));
        lemma_dec_val_nonneg(s.take(i));
        assert(dec_val(s.take(i + 1)) == dec_val(s.take(i)) * 10 + digit_val(s[i]));
        assert(dec_val(s.take(i)) <= dec_val(s.take(i + 1)));
        lemma_dec_val_prefix(s, i + 1);
    }
}

/// The digits of `s` from index `from` on, read as a decimal number.
/// `None` when the digit run is empty, holds a non-digit, or exceeds
/// `u128::MAX`.
pub fn parse_digits(s: &str, from: usize) -> (r: Option<u128>)
    requires
        from <= s@.len(),
    ensures
        ({
            let body = s@.skip(from as int);
            match r {
                Some(v) => body.len() > 0 && all_digits(body) && dec_val(body) == v as int,
                None => !(body.len() > 0 && all_digits(body) && dec_val(body) <= u128::MAX),
            }
        }),
{
    let ghost body = s@.skip(from as int);
    let len = s.unicode_len();
    if from == len {
        return None;
    }
    let mut acc: u128 = 0;
    let mut i: usize = from;
    while i < len
        invariant
            from <= i <= len,
            len == s@.len(),
            from < len,
            body == s@.skip(from as int),
            all_digits(body.take(i - from)),
            acc as int == dec_val(body.take(i - from)),
        decreases len - i,
    {
        let c = s.get_char(i);
        proof {
            assert(body[i - from] == s@[i as int]);
        }
        if c < '0' || c > '9' {
            proof {
                assert(!is_digit(body[i - from]));
            }
            return None;
        }
        let d: u128 = (c as u32 as u128) - 48;
        proof {
            assert(d as int == digit_val(body[i - from]));
        }
        if acc > (u128::MAX - d) / 10 {
            proof {
                let part = body.take(i - from + 1);
                assert(part.drop_last() =~= body.take(i - from));
                assert(dec_val(part) == acc as int * 10 + d);
                assert(acc as int * 10 + d > u128::MAX) by {
                    assert(acc as int >= (u128::MAX - d) / 10 + 1);
                    assert(((u128::MAX - d) / 10 + 1) * 10 == ((u128::MAX - d) / 10) * 10 + 10)
                        by (nonlinear_arith);
                    assert(acc as int * 10 >= ((u128::MAX - d) / 10 + 1) * 10)
                        by (nonlinear_arith)
                        requires
                            acc as int >= (u128::MAX - d) / 10 + 1,
                    ;
                    assert(((u128::MAX - d) / 10) * 10 + (u128::MAX - d) % 10 == u128::MAX - d);
                }
                if all_digits(body) {
                    lemma_dec_val_prefix(body, i - from + 1);
                    assert(dec_val(body) > u128::MAX);
                }
            }
            return None;
        }
        proof {
            assert(body.take(i - from + 1).drop_last() =~= body.take(i - from));
        }
        acc = acc * 10 + d;
        i += 1;
    }
    proof {
        assert(body.take(i - from) =~= body);
    }
    Some(acc)
}

/// A decimal integer literal as Rust's integer `FromStr` grammar reads it:
/// an optional sign (`-` only when the target type admits negatives,
/// signalled by `min < 0`) followed by one or more decimal digits, the
/// whole value lying in `[min, max]`.
pub open spec fn spec_parse_int(s: Seq<char>, min: int, max: int) -> Option<int> {
    if s.len() > 0 && s[0] == '-' {
        if min < 0 && s.len() > 1 && all_digits(s.drop_first()) && -dec_val(s.drop_first())
            >= min {
            Some(-dec_val(s.drop_first()))
        } else {
            None
        }
    } else {
        let body = if s.len() > 0 && s[0] == '+' {
            s.drop_first()
        } else {
            s
        };
        if body.len() > 0 && all_digits(body) && dec_val(body) <= max {
            Some(dec_val(body))
        } else {
            None
        }
    }
}

/// Parse `s` as a decimal integer within `[min, max]`.
pub fn parse_int(s: &str, min: i128, max: i128) -> (r: Option<i128>)
    requires
        min <= 0 < max,
    ensures
        match r {
            Some(v) => spec_parse_int(s@, min as int, max as int) == Some(v as int) && min <= v
                <= max,
            None => spec_parse_int(s@, min as int, max as int) is None,
        },
{
    let len = s.unicode_len();
    if len == 0 {
        return None;
    }
    let first = s.get_char(0);
    if first == '-' {
        if min >= 0 {
            return None;
        }
        proof {
            assert(s@.skip(1) =~= s@.drop_first());
        }
        match parse_digits(s, 1) {
            None => {
                proof {
                    if s@.drop_first().len() > 0 && all_digits(s@.drop_first())
                        && -dec_val(s@.drop_first()) >= min {
                        lemma_dec_val_nonneg(s@.drop_first());
                    }
                }
                None
            },
            Some(mag) => {
                if mag == 0 {
                    return Some(0);
                }
                let bound: u128 = ((-(min + 1)) as u128) + 1;
                proof {
                    assert(bound as int == -(min as int));
                }
                if mag > bound {
                    return None;
                }
                let v: i128 = -((mag - 1) as i128) - 1;
                proof {
                    assert(v as int == -(mag as int));
                }
                Some(v)
            },
        }
    } else {
        let start: usize = if first == '+' {
            1
        } else {
            0
        };
        let ghost body = if s@[0] == '+' {
            s@.drop_first()
        } else {
            s@
        };
        proof {
            assert(s@.skip(start as int) =~= body);
        }
        match parse_digits(s, start) {
            None => None,
            Some(v) => {
                if v <= (max as u128) {
                    Some(v as i128)
                } else {
                    None
                }
            },
        }
    }
}

/// The decimal digits of the non-negative number `n`, no leading zeros
/// except for `n == 0` itself.
pub open spec fn dec_digits(n: int) -> Seq<char>
    decreases n,
{
    if n < 10 {
        seq![digit_char(n)]
    } else {
        dec_digits(n / 10).push(digit_char(n % 10))
    }
}

/// The decimal rendering of `v`: a `-` sign for negatives, then the digits.
pub open spec fn dec_repr(v: int) -> Seq<char> {
    if v < 0 {
        seq!['-'] + dec_digits(-v)
    } else {
        dec_digits(v)
    }
}

/// The one-character string slice holding the digit `d`.
fn digit_str(d: u128) -> (r: &'static str)
    requires
        d < 10,
    ensures
        r@ =~= seq![digit_char(d as int)],
{
    proof {
        reveal_strlit("0");
        reveal_strlit("1");
        reveal_strlit("2");
        reveal_strlit("3");
        reveal_strlit("4");
        reveal_strlit("5");
        reveal_strlit("6");
        reveal_strlit("7");
        reveal_strlit("8");
        reveal_strlit("9");
    }
    if d == 0 {
        "0"
    } else if d == 1 {
        "1"
    } else if d == 2 {
        "2"
    } else if d == 3 {
        "3"
    } else if d == 4 {
        "4"
    } else if d == 5 {
        "5"
    } else if d == 6 {
        "6"
    } else if d == 7 {
        "7"
    } else {
        if d == 8 {
            "8"
        } else {
            "9"
        }
    }
}

/// The decimal digits of `n` as an owned string.
pub fn render_digits(n: u128) -> (r: String)
    ensures
        r@ == dec_digits(n as int),
    decreases n,
{
    if n < 10 {
        let r = digit_str(n).to_owned();
        proof {
            assert(r@ =~= dec_digits(n as int));
        }
        r
    } else {
        let mut r = render_digits(n / 10);
        r.append(digit_str(n % 10));
        proof {
            assert(r@ =~= dec_digits(n as int));
        }
        r
    }
}

/// The decimal rendering of `v` as an owned string.
pub fn render_i128(v: i128) -> (r: String)
    ensures
        r@ == dec_repr(v as int),
{
    if v >= 0 {
        render_digits(v as u128)
    } else {
        let mag: u128 = ((-(v + 1)) as u128) + 1;
        proof {
            assert(mag as int == -(v as int));
            reveal_strlit("-");
        }
        let mut r: String = "-".to_owned();
        let digits = render_digits(mag);
        r.append(digits.as_str());
        proof {
            assert(r@ =~= dec_repr(v as int));
        }
        r
    }
}

} // verus!
