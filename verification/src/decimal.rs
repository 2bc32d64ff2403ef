//! Decimal text of 64-bit signed integers.
//!
//! Wallet ids travel through the wallet selector as text: they are written
//! with [`format_i64`] and read back with [`parse_i64`], which accepts exactly
//! what `str::parse::<i64>` accepts.

use vstd::prelude::*;
use vstd::string::*;

verus! {

/// The character of a decimal digit `d` (0 to 9).
pub open spec fn digit_char(d: int) -> char {
    (d + 48) as char
}

/// Whether `c` is one of `0` to `9`.
pub open spec fn is_digit(c: char) -> bool {
    48 <= (c as int) <= 57
}

/// The value of a decimal digit character.
pub open spec fn digit_value(c: char) -> int {
    (c as int) - 48
}

/// Every character of `s` is a decimal digit.
pub open spec fn all_digits(s: Seq<char>) -> bool {
    forall|i: int| 0 <= i < s.len() ==> #[trigger] is_digit(s[i])
}

/// The number that a string of decimal digits denotes (leading zeros allowed).
pub open spec fn digits_value(s: Seq<char>) -> int
    decreases s.len(),
{
    if s.len() == 0 {
        0
    } else {
        digits_value(s.drop_last()) * 10 + digit_value(s.last())
    }
}

/// The shortest decimal digits of `n`: no leading zero, and `0` for zero.
pub open spec fn digits_of(n: nat) -> Seq<char>
    decreases n,
{
    if n < 10 {
        seq![digit_char(n as int)]
    } else {
        digits_of(n / 10).push(digit_char((n % 10) as int))
    }
}

/// The decimal text of `n`: a minus sign for a negative number, then its digits.
pub open spec fn decimal_text(n: int) -> Seq<char> {
    if n < 0 {
        seq!['-'] + digits_of((-n) as nat)
    } else {
        digits_of(n as nat)
    }
}

/// What reading `s` as an `i64` gives: an optional `+` or `-`, then one or more
/// decimal digits, whose value must fit in an `i64`; anything else is no number.
pub open spec fn parsed_i64(s: Seq<char>) -> Option<int> {
    let signed = s.len() > 0 && (s[0] == '-' || s[0] == '+');
    let negative = s.len() > 0 && s[0] == '-';
    let body = if signed { s.drop_first() } else { s };
    if body.len() == 0 || !all_digits(body) {
        None
    } else {
        let v = if negative { -digits_value(body) } else { digits_value(body) };
        if i64::MIN <= v <= i64::MAX { Some(v) } else { None }
    }
}

proof fn lemma_digits_of_shape(n: nat)
    ensures
        digits_of(n).len() > 0,
        all_digits(digits_of(n)),
        digits_value(digits_of(n)) == n,
        digits_of(n)[0] != '-',
        digits_of(n)[0] != '+',
        n > 0 ==> digits_of(n)[0] != '0',
        digits_of(n).len() > 1 ==> n >= 10,
    decreases n,
{
    if n >= 10 {
        lemma_digits_of_shape(n / 10);
        let s = digits_of(n);
        assert(s.drop_last() =~= digits_of(n / 10));
        assert forall|i: int| 0 <= i < s.len() implies #[trigger] is_digit(s[i]) by {
            if i < s.len() - 1 {
                assert(s[i] == digits_of(n / 10)[i]);
            }
        }
        assert(s[0] == digits_of(n / 10)[0]);
        assert(s.last() == digit_char((n % 10) as int));
        assert(digits_value(s) == digits_value(s.drop_last()) * 10 + digit_value(s.last()));
        assert(n == (n / 10) * 10 + n % 10);
        assert(digit_value(digit_char((n % 10) as int)) == n % 10);
        assert(digits_value(s) == n);
    } else {
        let s = digits_of(n);
        assert(s.drop_last() =~= Seq::<char>::empty());
        assert(digits_value(s.drop_last()) == 0);
        assert(digit_value(digit_char(n as int)) == n);
        assert(digits_value(s) == n);
    }
}

proof fn lemma_digits_value_prefix(s: Seq<char>, k: int)
    requires
        all_digits(s),
        0 <= k <= s.len(),
    ensures
        0 <= digits_value(s.take(k)) <= digits_value(s),
    decreases s.len(),
{
    if k == s.len() {
        assert(s.take(k) =~= s);
        if s.len() > 0 {
            lemma_digits_value_prefix(s.drop_last(), k - 1);
            assert(s.drop_last().take(k - 1) =~= s.drop_last());
            assert(is_digit(s[s.len() - 1]));
        }
    } else {
        let t = s.drop_last();
        assert(all_digits(t)) by {
            assert forall|i: int| 0 <= i < t.len() implies #[trigger] is_digit(t[i]) by {
                assert(t[i] == s[i]);
            }
        }
        lemma_digits_value_prefix(t, k);
        assert(t.take(k) =~= s.take(k));
        lemma_digits_value_prefix(t, t.len() as int);
        assert(t.take(t.len() as int) =~= t);
        assert(is_digit(s[s.len() - 1]));
    }
}

/// Writing an integer as decimal text and reading it back gives the integer:
/// a wallet id survives its trip through the wallet selector.
pub proof fn lemma_decimal_round_trip(n: i64)
    ensures
        parsed_i64(decimal_text(n as int)) == Some(n as int),
{
    if n < 0 {
        let m = (-n) as nat;
        lemma_digits_of_shape(m);
        let s = decimal_text(n as int);
        assert(s.drop_first() =~= digits_of(m));
    } else {
        lemma_digits_of_shape(n as nat);
    }
}

/// The decimal text of `n` denotes `n` digit by digit: for `n >= 0` it is one
/// or more digits whose value is `n`, for `n < 0` a minus sign followed by such
/// digits of `-n`; and no number is written with a leading zero.
pub proof fn lemma_decimal_text_denotes(n: int)
    ensures
        n >= 0 ==> ({
            let t = decimal_text(n);
            &&& t.len() > 0
            &&& all_digits(t)
            &&& digits_value(t) == n
            &&& (t.len() > 1 ==> t[0] != '0')
        }),
        n < 0 ==> ({
            let t = decimal_text(n);
            &&& t.len() > 1
            &&& t[0] == '-'
            &&& all_digits(t.drop_first())
            &&& digits_value(t.drop_first()) == -n
            &&& (t.len() > 2 ==> t[1] != '0')
        }),
{
    if n < 0 {
        let m = (-n) as nat;
        lemma_digits_of_shape(m);
        let t = decimal_text(n);
        assert(t.drop_first() =~= digits_of(m));
        assert(t[1] == digits_of(m)[0]);
    } else {
        lemma_digits_of_shape(n as nat);
        if n == 0 {
            assert(digits_of(0).len() == 1);
        }
    }
}

/// Reading one or more digits, with an optional sign in front, gives the
/// number that the digits denote (negated after `-`) when it fits in an
/// `i64`, and no number when it does not.
pub proof fn lemma_parse_reads_digits(d: Seq<char>)
    requires
        d.len() > 0,
        all_digits(d),
    ensures
        digits_value(d) <= i64::MAX ==> parsed_i64(d) == Some(digits_value(d)),
        digits_value(d) <= i64::MAX ==> parsed_i64(seq!['+'] + d) == Some(digits_value(d)),
        digits_value(d) > i64::MAX ==> parsed_i64(d) is None,
        digits_value(d) > i64::MAX ==> parsed_i64(seq!['+'] + d) is None,
        digits_value(d) <= -(i64::MIN as int) ==> parsed_i64(seq!['-'] + d) == Some(-digits_value(d)),
        digits_value(d) > -(i64::MIN as int) ==> parsed_i64(seq!['-'] + d) is None,
{
    lemma_digits_value_prefix(d, 0);
    assert(d.take(0) =~= Seq::<char>::empty());
    assert(is_digit(d[0]));
    assert((seq!['+'] + d).drop_first() =~= d);
    assert((seq!['-'] + d).drop_first() =~= d);
}

/// A string whose body (what follows an optional leading sign) is empty or
/// holds a character other than a digit is no number.
pub proof fn lemma_parse_refuses_non_digits(s: Seq<char>, i: int)
    requires
        ({
            let body = if s.len() > 0 && (s[0] == '-' || s[0] == '+') { s.drop_first() } else { s };
            0 <= i < body.len() && !is_digit(body[i])
        }),
    ensures
        parsed_i64(s) is None,
{
}

/// Two integers with the same decimal text are equal.
pub proof fn lemma_decimal_text_injective(a: i64, b: i64)
    requires
        decimal_text(a as int) == decimal_text(b as int),
    ensures
        a == b,
{
    lemma_decimal_round_trip(a);
    lemma_decimal_round_trip(b);
}

fn digit_text(d: u64) -> (t: &'static str)
    requires
        d < 10,
    ensures
        t@ == seq![digit_char(d as int)],
{
    if d == 0 {
        proof { reveal_strlit("0"); }
        "0"
    } else if d == 1 {
        proof { reveal_strlit("1"); }
        "1"
    } else if d == 2 {
        proof { reveal_strlit("2"); }
        "2"
    } else if d == 3 {
        proof { reveal_strlit("3"); }
        "3"
    } else if d == 4 {
        proof { reveal_strlit("4"); }
        "4"
    } else if d == 5 {
        proof { reveal_strlit("5"); }
        "5"
    } else if d == 6 {
        proof { reveal_strlit("6"); }
        "6"
    } else if d == 7 {
        proof { reveal_strlit("7"); }
        "7"
    } else if d == 8 {
        proof { reveal_strlit("8"); }
        "8"
    } else {
        proof { reveal_strlit("9"); }
        "9"
    }
}

fn append_digits(s: &mut String, m: u64)
    ensures
        final(s)@ == old(s)@ + digits_of(m as nat),
    decreases m,
{
    if m >= 10 {
        append_digits(s, m / 10);
    }
    s.append(digit_text(m % 10));
    assert(s@ =~= old(s)@ + digits_of(m as nat));
}

/// The decimal text of `n`, as `n.to_string()` writes it.
pub fn format_i64(n: i64) -> (r: String)
    ensures
        r@ == decimal_text(n as int),
        n >= 0 ==> r@.len() > 0 && all_digits(r@) && digits_value(r@) == n && (r@.len() > 1
            ==> r@[0] != '0'),
        n < 0 ==> r@.len() > 1 && r@[0] == '-' && all_digits(r@.drop_first()) && digits_value(
            r@.drop_first(),
        ) == -n && (r@.len() > 2 ==> r@[1] != '0'),
{
    proof {
        lemma_decimal_text_denotes(n as int);
    }
    let mut s = String::new();
    let m: u64 = if n < 0 {
        proof { reveal_strlit("-"); }
        s.append("-");
        ((-(n + 1)) as u64) + 1
    } else {
        n as u64
    };
    append_digits(&mut s, m);
    s
}

/// Reads `s` as an `i64` as `str::parse::<i64>` does: `None` exactly where
/// that call gives an error.
pub fn parse_i64(s: &str) -> (r: Option<i64>)
    ensures
        match r {
            Some(v) => parsed_i64(s@) == Some(v as int),
            None => parsed_i64(s@) is None,
        },
        ({
            let signed = s@.len() > 0 && (s@[0] == '-' || s@[0] == '+');
            let body = if signed { s@.drop_first() } else { s@ };
            let value = if s@.len() > 0 && s@[0] == '-' {
                -digits_value(body)
            } else {
                digits_value(body)
            };
            &&& r is Some <==> (body.len() > 0 && all_digits(body) && i64::MIN <= value
                <= i64::MAX)
            &&& r matches Some(v) ==> v == value
        }),
{
    let n = s.unicode_len();
    if n == 0 {
        return None;
    }
    let first = s.get_char(0);
    let negative = first == '-';
    let start: usize = if first == '-' || first == '+' { 1 } else { 0 };
    let ghost body = if start == 1 { s@.drop_first() } else { s@ };
    assert(body =~= s@.subrange(start as int, n as int));
    if start == n {
        return None;
    }
    let limit: u64 = if negative { 9223372036854775808 } else { 9223372036854775807 };
    let mut acc: u64 = 0;
    let mut i: usize = start;
    while i < n
        invariant
            n == s@.len(),
            start <= i <= n,
            start < n,
            body =~= s@.subrange(start as int, n as int),
            body == (if s@[0] == '-' || s@[0] == '+' { s@.drop_first() } else { s@ }),
            negative == (s@[0] == '-'),
            all_digits(body.take(i - start)),
            acc as int == digits_value(body.take(i - start)),
            acc <= limit,
            limit == (if negative { 9223372036854775808u64 } else { 9223372036854775807u64 }),
        decreases n - i,
    {
        let c = s.get_char(i);
        let ghost k: int = i - start;
        assert(body[k] == c);
        assert(body.take(k + 1).drop_last() =~= body.take(k));
        let code: u32 = c as u32;
        if !(code >= 48 && code <= 57) {
            assert(!is_digit(body[k]));
            assert(!all_digits(body));
            return None;
        }
        let d: u64 = (code - 48) as u64;
        if acc > (limit - d) / 10 {
            proof {
                let lim = limit as int;
                let dd = d as int;
                let a = acc as int;
                assert(a * 10 + dd > lim) by (nonlinear_arith)
                    requires
                        a > (lim - dd) / 10,
                        0 <= dd <= 9,
                        lim >= 9,
                ;
                assert(digits_value(body.take(k + 1)) == a * 10 + dd);
                if all_digits(body) {
                    lemma_digits_value_prefix(body, k + 1);
                }
            }
            return None;
        }
        proof {
            let lim = limit as int;
            let dd = d as int;
            let a = acc as int;
            assert(a * 10 + dd <= lim) by (nonlinear_arith)
                requires
                    a <= (lim - dd) / 10,
                    0 <= dd <= 9,
                    lim >= 9,
            ;
            assert(all_digits(body.take(k + 1))) by {
                assert forall|j: int| 0 <= j < k + 1 implies #[trigger] is_digit(
                    body.take(k + 1)[j],
                ) by {
                    if j < k {
                        assert(body.take(k + 1)[j] == body.take(k)[j]);
                    }
                }
            }
        }
        acc = acc * 10 + d;
        i = i + 1;
    }
    assert(body.take(n - start) =~= body);
    if negative {
        if acc == 9223372036854775808 {
            Some(i64::MIN)
        } else {
            Some(-(acc as i64))
        }
    } else {
        Some(acc as i64)
    }
}

} // verus!
