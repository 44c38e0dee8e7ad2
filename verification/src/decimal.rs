//! Decimal text of integers: what `{}` prints for an integer, and what
//! `str::parse` accepts for `i64` and `usize`.
use vstd::prelude::*;
use vstd::string::*;

verus! {

/// The character of decimal digit `d`, for `0 <= d <= 9`.
pub open spec fn digit_char(d: int) -> char {
    seq!['0', '1', '2', '3', '4', '5', '6', '7', '8', '9'][d]
}

/// `c` is an ASCII decimal digit.
pub open spec fn is_digit(c: char) -> bool {
    '0' <= c <= '9'
}

/// The value of decimal digit `c`.
pub open spec fn digit_value(c: char) -> int {
    c as int - '0' as int
}

/// Every character of `s` is a decimal digit.
pub open spec fn all_digits(s: Seq<char>) -> bool {
    forall|k: int| 0 <= k < s.len() ==> is_digit(#[trigger] s[k])
}

/// The number that the digits `s` spell, most significant first.
pub open spec fn digits_value(s: Seq<char>) -> int
    decreases s.len(),
{
    if s.len() == 0 {
        0
    } else {
        digits_value(s.drop_last()) * 10 + digit_value(s.last())
    }
}

/// The shortest decimal digits of `n`, as `{}` prints a non-negative integer.
pub open spec fn decimal_nat(n: nat) -> Seq<char>
    decreases n,
{
    if n < 10 {
        seq![digit_char(n as int)]
    } else {
        decimal_nat(n / 10) + seq![digit_char((n % 10) as int)]
    }
}

/// The decimal text of `i`, as `{}` prints an integer: a minus sign before
/// the digits of a negative number.
pub open spec fn decimal(i: int) -> Seq<char> {
    if i < 0 {
        seq!['-'] + decimal_nat((-i) as nat)
    } else {
        decimal_nat(i as nat)
    }
}

/// The number a non-empty run of digits spells; `None` for anything else.
pub open spec fn digits_number(b: Seq<char>) -> Option<int> {
    if b.len() > 0 && all_digits(b) {
        Some(digits_value(b))
    } else {
        None
    }
}

/// The integer that integer text `s` denotes before any range check: an
/// optional `+` (or, when `signed`, `-`) and then one or more digits.
pub open spec fn integer_text(s: Seq<char>, signed: bool) -> Option<int> {
    if s.len() > 0 && s[0] == '+' {
        digits_number(s.drop_first())
    } else if signed && s.len() > 0 && s[0] == '-' {
        match digits_number(s.drop_first()) {
            Some(v) => Some(-v),
            None => None,
        }
    } else {
        digits_number(s)
    }
}

/// What `s.parse::<i64>()` gives: the value, or `None` for an error.
pub open spec fn i64_text(s: Seq<char>) -> Option<i64> {
    match integer_text(s, true) {
        Some(v) => if i64::MIN <= v <= i64::MAX {
            Some(v as i64)
        } else {
            None
        },
        None => None,
    }
}

/// What `s.parse::<usize>()` gives: the value, or `None` for an error.
pub open spec fn usize_text(s: Seq<char>) -> Option<usize> {
    match integer_text(s, false) {
        Some(v) => if 0 <= v <= usize::MAX {
            Some(v as usize)
        } else {
            None
        },
        None => None,
    }
}

/// Digit characters and their values agree.
pub proof fn lemma_digit_char(d: int)
    requires
        0 <= d <= 9,
    ensures
        is_digit(digit_char(d)),
        digit_value(digit_char(d)) == d,
{
    assert(d == 0 || d == 1 || d == 2 || d == 3 || d == 4 || d == 5 || d == 6 || d == 7 || d == 8
        || d == 9);
}

/// The decimal digits of `n` are a non-empty run of digits that spells `n`.
pub proof fn lemma_decimal_nat(n: nat)
    ensures
        decimal_nat(n).len() > 0,
        all_digits(decimal_nat(n)),
        digits_value(decimal_nat(n)) == n,
    decreases n,
{
    if n < 10 {
        lemma_digit_char(n as int);
        assert(decimal_nat(n).drop_last() =~= Seq::<char>::empty());
        assert(digits_value(Seq::<char>::empty()) == 0);
    } else {
        lemma_decimal_nat(n / 10);
        lemma_digit_char((n % 10) as int);
        let s = decimal_nat(n);
        assert(s.drop_last() =~= decimal_nat(n / 10));
        assert(s.last() == digit_char((n % 10) as int));
        assert(n == (n / 10) * 10 + n % 10) by (nonlinear_arith);
        assert forall|k: int| 0 <= k < s.len() implies is_digit(#[trigger] s[k]) by {
            if k < s.len() - 1 {
                assert(s[k] == decimal_nat(n / 10)[k]);
            }
        }
    }
}

/// Decimal text is never empty.
pub proof fn lemma_decimal_nonempty(i: int)
    ensures
        decimal(i).len() > 0,
{
    if i < 0 {
        lemma_decimal_nat((-i) as nat);
    } else {
        lemma_decimal_nat(i as nat);
    }
}

/// Decimal digits are the shortest: zero is the single digit `0`, and the
/// digits of any other number do not start with `0`.
pub proof fn lemma_decimal_canonical(n: nat)
    ensures
        n == 0 ==> decimal_nat(n) == seq!['0'],
        n > 0 ==> decimal_nat(n)[0] != '0',
    decreases n,
{
    if n < 10 {
        lemma_digit_char(n as int);
    } else {
        lemma_decimal_canonical(n / 10);
        lemma_decimal_nat(n / 10);
        assert(decimal_nat(n)[0] == decimal_nat(n / 10)[0]);
    }
}

/// Decimal text holds no character but digits and a leading minus sign.
pub proof fn lemma_decimal_chars(i: int, c: char)
    requires
        !is_digit(c),
        c != '-',
    ensures
        forall|k: int| 0 <= k < decimal(i).len() ==> decimal(i)[k] != c,
{
    if i < 0 {
        lemma_decimal_nat((-i) as nat);
        assert forall|k: int| 0 <= k < decimal(i).len() implies decimal(i)[k] != c by {
            if k > 0 {
                assert(decimal(i)[k] == decimal_nat((-i) as nat)[k - 1]);
            }
        }
    } else {
        lemma_decimal_nat(i as nat);
    }
}

/// What `{}` prints for an integer is read back by `parse` as the same
/// integer, for every integer.
pub proof fn lemma_decimal_round_trip(i: int)
    ensures
        integer_text(decimal(i), true) == Some(i),
        i >= 0 ==> integer_text(decimal(i), false) == Some(i),
{
    if i < 0 {
        lemma_decimal_nat((-i) as nat);
        assert(decimal(i).drop_first() =~= decimal_nat((-i) as nat));
    } else {
        lemma_decimal_nat(i as nat);
        assert(is_digit(decimal(i)[0]));
    }
}

/// Appends the decimal digits of `n` to `out`.
fn append_decimal_u64(out: &mut String, n: u64)
    ensures
        final(out)@ == old(out)@ + decimal_nat(n as nat),
    decreases n,
{
    if n >= 10 {
        append_decimal_u64(out, n / 10);
    }
    let d: usize = (n % 10) as usize;
    let digits = "0123456789";
    proof {
        reveal_strlit("0123456789");
    }
    let piece = digits.substring_char(d, d + 1);
    proof {
        assert(piece@ =~= seq![digit_char(d as int)]);
    }
    out.append(piece);
    proof {
        if n >= 10 {
            assert(decimal_nat(n as nat) == decimal_nat((n / 10) as nat) + seq![digit_char(
                (n % 10) as int,
            )]);
        }
    }
    assert(final(out)@ =~= old(out)@ + decimal_nat(n as nat));
}

/// The decimal text of `n`, as `n.to_string()` gives it.
pub fn format_u64(n: u64) -> (s: String)
    ensures
        s@ == decimal(n as int),
{
    let mut s = String::new();
    append_decimal_u64(&mut s, n);
    assert(s@ =~= decimal(n as int));
    s
}

/// The decimal text of `n`, as `n.to_string()` gives it.
pub fn format_i64(n: i64) -> (s: String)
    ensures
        s@ == decimal(n as int),
{
    let mut s = String::new();
    if n < 0 {
        s.append("-");
        proof {
            reveal_strlit("-");
        }
        let magnitude: u64 = if n == i64::MIN {
            9223372036854775808u64
        } else {
            (-n) as u64
        };
        append_decimal_u64(&mut s, magnitude);
    } else {
        append_decimal_u64(&mut s, n as u64);
    }
    assert(s@ =~= decimal(n as int));
    s
}


/// The bound above which the value of a digit run is not tracked exactly.
pub open spec fn digits_cap() -> int {
    0x1_0000_0000_0000_0000
}

/// The smaller of `a` and `b`.
pub open spec fn min_int(a: int, b: int) -> int {
    if a <= b {
        a
    } else {
        b
    }
}

/// The value of the digit character `c`.
fn digit_of(c: char) -> (d: u128)
    requires
        is_digit(c),
    ensures
        d == digit_value(c),
{
    (c as u32 - '0' as u32) as u128
}

/// Reads the digits of `s` from position `from` on: `None` unless they are
/// one or more decimal digits, else their value, capped at `digits_cap()`.
fn digits_capped(s: &str, from: usize) -> (r: Option<u128>)
    requires
        from <= s@.len(),
    ensures
        r is Some <==> digits_number(s@.skip(from as int)) is Some,
        r matches Some(v) ==> v == min_int(digits_value(s@.skip(from as int)), digits_cap()),
{
    let n = s.unicode_len();
    let ghost body = s@.skip(from as int);
    if from == n {
        return None;
    }
    let cap: u128 = 0x1_0000_0000_0000_0000u128;
    let mut acc: u128 = 0;
    let mut i: usize = from;
    assert(body.take(0) =~= Seq::<char>::empty());
    while i < n
        invariant
            n == s@.len(),
            from <= i <= n,
            body == s@.skip(from as int),
            cap == digits_cap(),
            all_digits(body.take(i - from)),
            acc == min_int(digits_value(body.take(i - from)), digits_cap()),
        decreases n - i,
    {
        let c = s.get_char(i);
        if !('0' <= c && c <= '9') {
            assert(body[i - from] == c);
            return None;
        }
        let d = digit_of(c);
        proof {
            let k = i - from;
            assert(body.take(k + 1).drop_last() =~= body.take(k));
            assert(body.take(k + 1).last() == c);
            assert forall|j: int| 0 <= j < k + 1 implies is_digit(#[trigger] body.take(k + 1)[j]) by {
                if j < k {
                    assert(body.take(k + 1)[j] == body.take(k)[j]);
                }
            }
        }
        let next = acc * 10 + d;
        acc = if next < cap { next } else { cap };
        i = i + 1;
    }
    assert(body.take(n - from) =~= body);
    Some(acc)
}

/// Parses `s` as `s.parse::<i64>()` does.
pub fn parse_i64(s: &str) -> (r: Option<i64>)
    ensures
        r == i64_text(s@),
{
    let n = s.unicode_len();
    if n == 0 {
        return None;
    }
    let first = s.get_char(0);
    if first == '-' {
        match digits_capped(s, 1) {
            Some(v) => {
                if v <= 0x8000_0000_0000_0000u128 {
                    let w: i128 = -(v as i128);
                    Some(w as i64)
                } else {
                    None
                }
            },
            None => None,
        }
    } else if first == '+' {
        match digits_capped(s, 1) {
            Some(v) => {
                if v <= 0x7fff_ffff_ffff_ffffu128 {
                    Some(v as i64)
                } else {
                    None
                }
            },
            None => None,
        }
    } else {
        assert(s@.skip(0) =~= s@);
        match digits_capped(s, 0) {
            Some(v) => {
                if v <= 0x7fff_ffff_ffff_ffffu128 {
                    Some(v as i64)
                } else {
                    None
                }
            },
            None => None,
        }
    }
}

/// Parses `s` as `s.parse::<usize>()` does.
pub fn parse_usize(s: &str) -> (r: Option<usize>)
    ensures
        r == usize_text(s@),
{
    let n = s.unicode_len();
    if n == 0 {
        return None;
    }
    let first = s.get_char(0);
    let from: usize = if first == '+' {
        1
    } else {
        0
    };
    assert(s@.skip(0) =~= s@);
    match digits_capped(s, from) {
        Some(v) => {
            if v <= usize::MAX as u128 {
                Some(v as usize)
            } else {
                None
            }
        },
        None => None,
    }
}

} // verus!
