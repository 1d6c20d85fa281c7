//! Whole numbers in decimal notation, written and read.
use vstd::prelude::*;

use crate::text::chars_of;

verus! {

/// The digit for a number below ten.
pub open spec fn digit(d: int) -> char {
    (48 + d) as char
}

/// `n` in decimal notation, without leading zeros.
pub open spec fn decimal(n: nat) -> Seq<char>
    decreases n,
{
    if n < 10 {
        seq![digit(n as int)]
    } else {
        decimal(n / 10).push(digit((n % 10) as int))
    }
}

/// `i` in decimal notation, with a minus sign if it is negative.
pub open spec fn decimal_int(i: int) -> Seq<char> {
    if i < 0 {
        seq!['-'] + decimal((-i) as nat)
    } else {
        decimal(i as nat)
    }
}

/// `c` is one of the ten decimal digits.
pub open spec fn is_digit(c: char) -> bool {
    '0' <= c <= '9'
}

/// Nothing but decimal digits.
pub open spec fn all_digits(s: Seq<char>) -> bool {
    forall|i: int| 0 <= i < s.len() ==> is_digit(#[trigger] s[i])
}

/// The number that a row of decimal digits stands for.
pub open spec fn digits_value(s: Seq<char>) -> nat
    decreases s.len(),
{
    if s.len() == 0 {
        0
    } else {
        10 * digits_value(s.drop_last()) + (s.last() as int - 48) as nat
    }
}

/// The number that `s` stands for: digits, at least one, and in front of
/// them at most one sign. A minus sign counts only where `signed` says so.
pub open spec fn number(s: Seq<char>, signed: bool) -> Option<int> {
    let minus = signed && s.len() > 0 && s[0] == '-';
    let plus = s.len() > 0 && s[0] == '+';
    let body = if minus || plus {
        s.drop_first()
    } else {
        s
    };
    if body.len() == 0 || !all_digits(body) {
        None
    } else if minus {
        Some(-(digits_value(body) as int))
    } else {
        Some(digits_value(body) as int)
    }
}

/// What `decimal` writes is a row of digits that stands for its number.
pub proof fn lemma_decimal(n: nat)
    ensures
        decimal(n).len() > 0,
        all_digits(decimal(n)),
        digits_value(decimal(n)) == n,
    decreases n,
{
    reveal_with_fuel(digits_value, 2);
    if n >= 10 {
        lemma_decimal(n / 10);
        assert(decimal(n).drop_last() =~= decimal(n / 10));
    } else {
        assert(decimal(n).drop_last() =~= Seq::<char>::empty());
    }
}

/// A written number reads back as itself.
pub proof fn lemma_decimal_int(i: int)
    ensures
        number(decimal_int(i), true) == Some(i),
        decimal_int(i).len() > 0,
        forall|k: int|
            0 <= k < decimal_int(i).len() ==> is_digit(#[trigger] decimal_int(i)[k])
                || decimal_int(i)[k] == '-',
{
    let n: nat = if i < 0 {
        (-i) as nat
    } else {
        i as nat
    };
    lemma_decimal(n);
    assert(is_digit(decimal(n)[0]));
    if i < 0 {
        assert(decimal_int(i).drop_first() =~= decimal(n));
    }
}

/// `n` in decimal notation behind `out`.
fn push_decimal(out: &mut String, n: u64)
    ensures
        final(out)@ == old(out)@ + decimal(n as nat),
    decreases n,
{
    if n >= 10 {
        push_decimal(out, n / 10);
    }
    let d: u8 = (n % 10) as u8;
    out.push((48 + d) as char);
    proof {
        assert(out@ =~= old(out)@ + decimal(n as nat));
    }
}

/// `n` in decimal notation.
pub fn decimal_u64(n: u64) -> (r: String)
    ensures
        r@ == decimal(n as nat),
{
    let mut out: String = String::new();
    push_decimal(&mut out, n);
    proof {
        assert(out@ =~= decimal(n as nat));
    }
    out
}

/// `i` in decimal notation.
pub fn decimal_i64(i: i64) -> (r: String)
    ensures
        r@ == decimal_int(i as int),
{
    let mut out: String = String::new();
    if i < 0 {
        out.push('-');
        push_decimal(&mut out, (-(i as i128)) as u64);
    } else {
        push_decimal(&mut out, i as u64);
    }
    proof {
        assert(out@ =~= decimal_int(i as int));
    }
    out
}

/// The number that the digits of `v` from `from` on stand for, up to
/// `u64::MAX`; none if there is no digit, another character or a larger
/// number.
fn read_digits(v: &Vec<char>, from: usize) -> (r: Option<u64>)
    requires
        from <= v@.len(),
    ensures
        ({
            let body = v@.subrange(from as int, v@.len() as int);
            match r {
                Some(n) => body.len() > 0 && all_digits(body) && n == digits_value(body),
                None => body.len() == 0 || !all_digits(body) || digits_value(body) > u64::MAX,
            }
        }),
{
    if from == v.len() {
        return None;
    }
    let ghost body = v@.subrange(from as int, v@.len() as int);
    let mut value: u64 = 0;
    let mut large: bool = false;
    let mut i: usize = from;
    proof {
        assert(body.take(0) =~= Seq::<char>::empty());
    }
    while i < v.len()
        invariant
            from <= i <= v@.len(),
            body == v@.subrange(from as int, v@.len() as int),
            all_digits(body.take(i - from)),
            large ==> digits_value(body.take(i - from)) > u64::MAX,
            !large ==> value == digits_value(body.take(i - from)),
        decreases v@.len() - i,
    {
        let c: char = v[i];
        assert(body[i - from] == c);
        if !('0' <= c && c <= '9') {
            return None;
        }
        let d: u64 = c as u64 - 48;
        proof {
            assert(body.take(i + 1 - from) =~= body.take(i - from).push(c));
            assert(body.take(i + 1 - from).drop_last() =~= body.take(i - from));
        }
        if !large {
            let wide: u128 = value as u128 * 10 + d as u128;
            if wide > u64::MAX as u128 {
                large = true;
            } else {
                value = wide as u64;
            }
        }
        i += 1;
    }
    proof {
        assert(body.take(i - from) =~= body);
    }
    if large {
        None
    } else {
        Some(value)
    }
}

/// Reads a whole number that fits in `i64`.
pub fn parse_i64(s: &str) -> (r: Option<i64>)
    ensures
        match number(s@, true) {
            Some(n) if i64::MIN <= n <= i64::MAX => r == Some(n as i64),
            _ => r is None,
        },
{
    let v: Vec<char> = chars_of(s);
    let minus: bool = v.len() > 0 && v[0] == '-';
    let plus: bool = v.len() > 0 && v[0] == '+';
    let from: usize = if minus || plus {
        1
    } else {
        0
    };
    proof {
        assert(v@.subrange(0, v@.len() as int) =~= v@);
        if from == 1 {
            assert(v@.subrange(1, v@.len() as int) =~= v@.drop_first());
        }
    }
    match read_digits(&v, from) {
        Some(n) => {
            if minus {
                if n > 9223372036854775808 {
                    None
                } else {
                    Some((-(n as i128)) as i64)
                }
            } else if n > 9223372036854775807 {
                None
            } else {
                Some(n as i64)
            }
        },
        None => None,
    }
}

/// Reads a whole number that fits in `u32`; a minus sign is not accepted.
pub fn parse_u32(s: &str) -> (r: Option<u32>)
    ensures
        match number(s@, false) {
            Some(n) if n <= u32::MAX => r == Some(n as u32),
            _ => r is None,
        },
{
    let v: Vec<char> = chars_of(s);
    let from: usize = if v.len() > 0 && v[0] == '+' {
        1
    } else {
        0
    };
    proof {
        assert(v@.subrange(0, v@.len() as int) =~= v@);
        if from == 1 {
            assert(v@.subrange(1, v@.len() as int) =~= v@.drop_first());
        }
    }
    match read_digits(&v, from) {
        Some(n) => {
            if n > 4294967295 {
                None
            } else {
                Some(n as u32)
            }
        },
        None => None,
    }
}

/// Ten to the `n`.
pub open spec fn ten_to(n: nat) -> nat
    decreases n,
{
    if n == 0 {
        1
    } else {
        10 * ten_to((n - 1) as nat)
    }
}

/// Digits count by their place: what stands in front of `n` digits counts ten
/// to the `n` times, and a digit alone counts what it says.
pub proof fn digits_count_by_their_place(a: Seq<char>, b: Seq<char>, d: int)
    requires
        0 <= d <= 9,
    ensures
        digits_value(a + b) == digits_value(a) * ten_to(b.len()) + digits_value(b),
        digits_value(seq![(0x30 + d) as char]) == d,
    decreases b.len(),
{
    reveal_with_fuel(digits_value, 2);
    assert(seq![(0x30 + d) as char].drop_last() =~= Seq::<char>::empty());
    if b.len() == 0 {
        assert(a + b =~= a);
        assert(digits_value(a) * 1 == digits_value(a)) by (nonlinear_arith);
    } else {
        let c = b.drop_last();
        digits_count_by_their_place(a, c, d);
        assert((a + b).drop_last() =~= a + c);
        let x = digits_value(a);
        let t = ten_to(c.len());
        assert(10 * (x * t) == x * (10 * t)) by (nonlinear_arith);
    }
}

/// A number is written without zeros in front, unless it is zero itself, and
/// reads back as itself.
pub proof fn numbers_have_no_zeros_in_front(n: nat)
    ensures
        decimal(n).len() > 1 ==> decimal(n)[0] != '0',
        decimal(n).len() == 1 <==> n < 10,
        digits_value(decimal(n)) == n,
        number(decimal(n), false) == Some(n as int),
    decreases n,
{
    lemma_decimal(n);
    assert(is_digit(decimal(n)[0]));
    if n >= 10 {
        numbers_have_no_zeros_in_front(n / 10);
        lemma_decimal(n / 10);
        assert(decimal(n)[0] == decimal(n / 10)[0]);
        if n / 10 < 10 {
            assert(decimal(n / 10)[0] == digit((n / 10) as int));
        }
    }
}

/// Different numbers are written differently.
pub proof fn numbers_are_written_differently(a: int, b: int)
    requires
        decimal_int(a) == decimal_int(b),
    ensures
        a == b,
{
    lemma_decimal_int(a);
    lemma_decimal_int(b);
}

/// A row of digits is a number, with or without a plus sign; with a minus sign
/// it is the opposite number, or none where no sign is accepted. A text with
/// anything else in it is no number.
pub proof fn digits_make_numbers(s: Seq<char>)
    requires
        s.len() > 0,
    ensures
        all_digits(s) ==> number(s, true) == Some(digits_value(s) as int) && number(s, false)
            == Some(digits_value(s) as int),
        all_digits(s) ==> number(seq!['+'] + s, true) == Some(digits_value(s) as int) && number(
            seq!['+'] + s,
            false,
        ) == Some(digits_value(s) as int),
        all_digits(s) ==> number(seq!['-'] + s, true) == Some(-(digits_value(s) as int)),
        number(seq!['-'] + s, false) is None,
        !all_digits(s) ==> number(seq!['+'] + s, true) is None && number(seq!['-'] + s, true)
            is None,
        !all_digits(s) && s[0] != '+' && s[0] != '-' ==> number(s, true) is None,
        number(Seq::empty(), true) is None,
{
    assert((seq!['+'] + s).drop_first() =~= s);
    assert((seq!['-'] + s).drop_first() =~= s);
    assert((seq!['-'] + s)[0] == '-');
    assert(!is_digit((seq!['-'] + s)[0]));
    if all_digits(s) {
        assert(is_digit(s[0]));
    }
}

} // verus!
