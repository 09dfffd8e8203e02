use vstd::prelude::*;

verus! {

pub open spec fn is_digit(c: char) -> bool {
    '0' <= c && c <= '9'
}

pub open spec fn digit_value(c: char) -> int {
    (c as int) - ('0' as int)
}

pub open spec fn all_digits(s: Seq<char>) -> bool {
    forall|i: int| 0 <= i < s.len() ==> is_digit(#[trigger] s[i])
}

/// The number that a string of decimal digits denotes.
pub open spec fn digits_value(s: Seq<char>) -> int
    decreases s.len(),
{
    if s.len() == 0 {
        0
    } else {
        digits_value(s.drop_last()) * 10 + digit_value(s.last())
    }
}

/// What `str::parse::<i64>` gives: an optional `+` or `-`, then one or more
/// ASCII digits, and a value inside the range of `i64`.
pub open spec fn spec_parse_i64(s: Seq<char>) -> Option<i64> {
    let negative = s.len() > 0 && s[0] == '-';
    let signed = s.len() > 0 && (s[0] == '-' || s[0] == '+');
    let body = if signed {
        s.drop_first()
    } else {
        s
    };
    if body.len() == 0 || !all_digits(body) {
        None
    } else {
        let v = if negative {
            -digits_value(body)
        } else {
            digits_value(body)
        };
        if i64::MIN <= v && v <= i64::MAX {
            Some(v as i64)
        } else {
            None
        }
    }
}

proof fn lemma_digits_value_nonneg(s: Seq<char>)
    requires
        all_digits(s),
    ensures
        digits_value(s) >= 0,
    decreases s.len(),
{
    if s.len() > 0 {
        lemma_digits_value_nonneg(s.drop_last());
    }
}

/// A digit string is worth at least as much as any of its prefixes.
proof fn lemma_prefix_le(s: Seq<char>, k: int)
    requires
        all_digits(s),
        0 <= k <= s.len(),
    ensures
        digits_value(s.take(k)) <= digits_value(s),
    decreases s.len(),
{
    if k < s.len() {
        assert(s.drop_last().take(k) =~= s.take(k));
        lemma_prefix_le(s.drop_last(), k);
        lemma_digits_value_nonneg(s.drop_last());
    } else {
        assert(s.take(k) =~= s);
    }
}

/// The characters of a string slice, in order.
pub fn chars_of(s: &str) -> (r: Vec<char>)
    ensures
        r@ == s@,
{
    let n: usize = s.unicode_len();
    let mut v: Vec<char> = Vec::new();
    let mut i: usize = 0;
    while i < n
        invariant
            n == s@.len(),
            i <= n,
            v@ == s@.take(i as int),
        decreases n - i,
    {
        let c = s.get_char(i);
        v.push(c);
        i = i + 1;
        assert(v@ =~= s@.take(i as int));
    }
    assert(s@.take(n as int) =~= s@);
    v
}

/// Parses a decimal integer as `str::parse::<i64>` does.
pub fn parse_i64(s: &str) -> (r: Option<i64>)
    ensures
        r == spec_parse_i64(s@),
{
    let cs = chars_of(s);
    let n: usize = cs.len();
    if n == 0 {
        return None;
    }
    let mut negative = false;
    let mut start: usize = 0;
    if cs[0] == '-' {
        negative = true;
        start = 1;
    } else if cs[0] == '+' {
        start = 1;
    }
    if start == n {
        return None;
    }
    let ghost body = if start == 1 {
        s@.drop_first()
    } else {
        s@
    };
    assert(body =~= s@.subrange(start as int, n as int));
    let bound: u64 = 9223372036854775808;
    let mut magnitude: u64 = 0;
    let mut i: usize = start;
    while i < n
        invariant
            cs@ == s@,
            n == cs@.len(),
            n > 0,
            start <= 1,
            negative == (s@[0] == '-'),
            (start == 1) == (s@[0] == '-' || s@[0] == '+'),
            start < n,
            start <= i <= n,
            body == cs@.subrange(start as int, n as int),
            body == (if start == 1 {
                s@.drop_first()
            } else {
                s@
            }),
            all_digits(body.take(i - start)),
            magnitude == digits_value(body.take(i - start)),
            magnitude <= bound,
            bound == 9223372036854775808u64,
        decreases n - i,
    {
        let c = cs[i];
        let k: usize = i - start;
        assert(body[k as int] == c);
        if !('0' <= c && c <= '9') {
            assert(!all_digits(body));
            return None;
        }
        let d: u64 = ((c as u32) - ('0' as u32)) as u64;
        assert(body.take(k + 1).drop_last() =~= body.take(k as int));
        assert(body.take(k + 1).last() == c);
        assert(d == digit_value(c));
        assert(digits_value(body.take(k + 1)) == magnitude * 10 + d);
        if magnitude > (bound - d) / 10 {
            proof {
                assert(magnitude * 10 + d > bound) by (nonlinear_arith)
                    requires
                        magnitude > (bound - d) / 10,
                        d <= 9,
                        bound > 9,
                ;
                if all_digits(body) {
                    lemma_prefix_le(body, k + 1);
                }
            }
            return None;
        }
        proof {
            assert(magnitude * 10 + d <= bound) by (nonlinear_arith)
                requires
                    magnitude <= (bound - d) / 10,
                    d <= 9,
                    bound > 9,
            ;
            assert(all_digits(body.take(k + 1))) by {
                assert forall|j: int| 0 <= j < body.take(k + 1).len() implies is_digit(
                    #[trigger] body.take(k + 1)[j],
                ) by {
                    if j < k {
                        assert(body.take(k + 1)[j] == body.take(k as int)[j]);
                    }
                }
            }
        }
        magnitude = magnitude * 10 + d;
        i = i + 1;
    }
    assert(body.take(n - start) =~= body);
    if negative {
        if magnitude == bound {
            Some(-9223372036854775807i64 - 1)
        } else {
            Some(-(magnitude as i64))
        }
    } else {
        if magnitude > 9223372036854775807u64 {
            None
        } else {
            Some(magnitude as i64)
        }
    }
}


/// The character of a decimal digit.
pub open spec fn digit_char(d: int) -> char {
    if d == 0 {
        '0'
    } else if d == 1 {
        '1'
    } else if d == 2 {
        '2'
    } else if d == 3 {
        '3'
    } else if d == 4 {
        '4'
    } else if d == 5 {
        '5'
    } else if d == 6 {
        '6'
    } else if d == 7 {
        '7'
    } else if d == 8 {
        '8'
    } else {
        '9'
    }
}

/// A natural number written in decimal, without leading zeros.
pub open spec fn decimal_text(n: nat) -> Seq<char>
    decreases n,
{
    if n < 10 {
        seq![digit_char(n as int)]
    } else {
        decimal_text(n / 10).push(digit_char((n % 10) as int))
    }
}

fn digit_str(d: u64) -> (r: &'static str)
    requires
        d < 10,
    ensures
        r@ == seq![digit_char(d as int)],
{
    proof {
        reveal_strlit("0");
        reveal_strlit("1");
        reveal_strlit("2");
        reveal_strlit("3");
        reveal_strlit("4");
        reveal_strlit("5");
        reveal_strlit("6");
        reveal_strlit("7");
        reveal_strlit("8");
        reveal_strlit("9");
    }
    let r = if d == 0 {
        "0"
    } else if d == 1 {
        "1"
    } else if d == 2 {
        "2"
    } else if d == 3 {
        "3"
    } else if d == 4 {
        "4"
    } else if d == 5 {
        "5"
    } else if d == 6 {
        "6"
    } else if d == 7 {
        "7"
    } else if d == 8 {
        "8"
    } else {
        "9"
    };
    assert(r@ =~= seq![digit_char(d as int)]);
    r
}

/// Appends `n` written in decimal.
pub fn push_decimal(text: &mut String, n: u64)
    ensures
        final(text)@ == old(text)@ + decimal_text(n as nat),
    decreases n,
{
    if n >= 10 {
        push_decimal(text, n / 10);
    }
    text.append(digit_str(n % 10));
    assert(final(text)@ =~= old(text)@ + decimal_text(n as nat));
}


proof fn lemma_digit_char(d: int)
    requires
        0 <= d < 10,
    ensures
        is_digit(digit_char(d)),
        digit_value(digit_char(d)) == d,
{
}

proof fn lemma_decimal_text_digits(n: nat)
    ensures
        all_digits(decimal_text(n)),
        digits_value(decimal_text(n)) == n,
        decimal_text(n).len() >= 1,
    decreases n,
{
    if n < 10 {
        lemma_digit_char(n as int);
        assert(decimal_text(n).drop_last() =~= Seq::<char>::empty());
        assert(digits_value(decimal_text(n)) == digits_value(Seq::<char>::empty()) * 10 + digit_value(digit_char(n as int)));
    } else {
        lemma_digit_char((n % 10) as int);
        lemma_decimal_text_digits(n / 10);
        let t = decimal_text(n);
        assert(t.drop_last() =~= decimal_text(n / 10));
        assert(forall|i: int| 0 <= i < t.len() - 1 ==> t[i] == decimal_text(n / 10)[i]);
        assert(t.last() == digit_char((n % 10) as int));
        assert(digits_value(t) == digits_value(decimal_text(n / 10)) * 10 + (n % 10));
        assert((n / 10) * 10 + (n % 10) == n) by (nonlinear_arith);
    }
}

/// Writing a number in decimal and parsing the text gives the number back.
pub proof fn lemma_parse_decimal_text(n: u64)
    requires
        n <= i64::MAX,
    ensures
        spec_parse_i64(decimal_text(n as nat)) == Some(n as i64),
{
    lemma_decimal_text_digits(n as nat);
    let t = decimal_text(n as nat);
    assert(is_digit(t[0]));
}

} // verus!
