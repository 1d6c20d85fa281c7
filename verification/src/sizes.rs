//! Sizes of files as text, with two decimals.
//!
//! A size is shown as a double-precision number would be: first rounded to
//! 53 binary digits, then divided, then rounded to two decimals; both times
//! to the nearest, and from the middle to the even neighbour.
use vstd::prelude::*;
use vstd::string::*;

use crate::decimal::all_digits;
use crate::decimal::decimal;
use crate::decimal::decimal_u64;
use crate::decimal::digit;
use crate::decimal::digits_value;
use crate::decimal::lemma_decimal;
use crate::text::join;
use crate::text::join3;

verus! {

/// `a / b` to the nearest whole number, from the middle to the even one.
pub open spec fn nearest(a: nat, b: nat) -> nat {
    let q = a / b;
    let r = a % b;
    if 2 * r > b || (2 * r == b && q % 2 == 1) {
        q + 1
    } else {
        q
    }
}

/// `a / b` to the nearest whole number, from the middle to the even one.
fn nearest_of(a: u128, b: u128) -> (r: u128)
    requires
        0 < b <= 0x1_0000_0000_0000_0000,
        a <= 0xffff_ffff_ffff_ffff_ffff_ffff,
    ensures
        r == nearest(a as nat, b as nat),
{
    let q: u128 = a / b;
    let rest: u128 = a % b;
    if 2 * rest > b || (2 * rest == b && q % 2 == 1) {
        q + 1
    } else {
        q
    }
}

/// The distance of double-precision numbers around `n`: the smallest power of
/// two, from `unit` on, of which `n` is less than 2^53 times.
pub open spec fn spacing(n: nat, unit: nat) -> nat
    decreases n / unit,
    when unit > 0
{
    if n / unit < 0x20_0000_0000_0000 {
        unit
    } else {
        proof {
            lemma_halves(n, unit);
        }
        spacing(n, 2 * unit)
    }
}

/// Twice the unit fits fewer times.
pub proof fn lemma_halves(n: nat, unit: nat)
    requires
        unit > 0,
        n / unit >= 1,
    ensures
        n / (2 * unit) < n / unit,
{
    assert(n / (2 * unit) < n / unit) by (nonlinear_arith)
        requires
            unit > 0,
            n / unit >= 1,
    {
        let q = n / unit;
        let p = n / (2 * unit);
        assert(unit * q <= n);
        assert((2 * unit) * p <= n);
        assert(n < unit * (q + 1));
        if p >= q {
            assert(2 * unit * p >= 2 * unit * q);
            assert(unit * (q + 1) <= 2 * unit * q);
        }
    }
}

/// `n` as a double-precision number.
pub open spec fn as_double(n: nat) -> nat {
    nearest(n, spacing(n, 1)) * spacing(n, 1)
}

/// `n` as a double-precision number.
fn double_of(n: u64) -> (r: u128)
    ensures
        r == as_double(n as nat),
        r <= 0x1_0000_0000_0001_0000,
{
    if n < 0x20_0000_0000_0000 {
        proof {
            assert(spacing(n as nat, 1) == 1);
            assert(nearest(n as nat, 1) == n);
            assert(nearest(n as nat, 1) * 1 == n) by (nonlinear_arith)
                requires
                    nearest(n as nat, 1) == n,
            ;
            assert(as_double(n as nat) == nearest(n as nat, 1) * 1);
        }
        return n as u128;
    }
    let mut unit: u64 = 1;
    while n / unit >= 0x20_0000_0000_0000
        invariant
            1 <= unit <= 4096,
            n / unit >= 0x10_0000_0000_0000,
            spacing(n as nat, 1) == spacing(n as nat, unit as nat),
        decreases n / unit,
    {
        proof {
            lemma_halves(n as nat, unit as nat);
            lemma_unit_bound(n as nat, unit as nat);
            lemma_half_at_least(n as nat, unit as nat);
        }
        unit = unit * 2;
    }
    let m: u128 = nearest_of(n as u128, unit as u128);
    proof {
        lemma_double_bound(n as nat, unit as nat);
    }
    m * unit as u128
}

proof fn lemma_half_at_least(n: nat, unit: nat)
    requires
        unit > 0,
        n / unit >= 0x20_0000_0000_0000,
    ensures
        n / (2 * unit) >= 0x10_0000_0000_0000,
{
    assert(n / (2 * unit) >= 0x10_0000_0000_0000) by (nonlinear_arith)
        requires
            unit > 0,
            n / unit >= 0x20_0000_0000_0000,
    {
        let p = n / (2 * unit);
        assert(unit * (n / unit) <= n);
        assert(unit * (n / unit) >= unit * 0x20_0000_0000_0000);
        assert(n < (2 * unit) * (p + 1));
        if p + 1 <= 0x10_0000_0000_0000 {
            assert((2 * unit) * (p + 1) <= (2 * unit) * 0x10_0000_0000_0000);
        }
    }
}

proof fn lemma_unit_bound(n: nat, unit: nat)
    requires
        unit > 0,
        n / unit >= 0x20_0000_0000_0000,
        n <= 0xffff_ffff_ffff_ffff,
    ensures
        unit <= 2048,
{
    let q = n / unit;
    assert(unit * q <= n) by (nonlinear_arith)
        requires
            unit > 0,
            q == n / unit,
    ;
    if unit > 2048 {
        assert(unit * q >= 2049 * 0x20_0000_0000_0000) by (nonlinear_arith)
            requires
                unit >= 2049,
                q >= 0x20_0000_0000_0000,
        ;
    }
}

proof fn lemma_double_bound(n: nat, unit: nat)
    requires
        1 <= unit <= 4096,
        n <= 0xffff_ffff_ffff_ffff,
    ensures
        nearest(n, unit) * unit <= 0x1_0000_0000_0001_0000,
{
    let q = n / unit;
    assert(unit * q <= n) by (nonlinear_arith)
        requires
            unit > 0,
            q == n / unit,
    ;
    assert((q + 1) * unit == unit * q + unit) by (nonlinear_arith);
    assert(q * unit == unit * q) by (nonlinear_arith);
}

/// Hundredths as a decimal number with two decimals.
pub open spec fn hundredths_text(c: nat) -> Seq<char> {
    decimal(c / 100) + "."@ + seq![digit((c / 10 % 10) as int), digit((c % 10) as int)]
}

/// Hundredths as a decimal number with two decimals.
fn hundredths(c: u64) -> (r: String)
    ensures
        r@ == hundredths_text(c as nat),
{
    let mut out: String = join(decimal_u64(c / 100).as_str(), ".");
    let tens: u8 = (c / 10 % 10) as u8;
    let ones: u8 = (c % 10) as u8;
    out.push((48 + tens) as char);
    out.push((48 + ones) as char);
    proof {
        assert(out@ =~= hundredths_text(c as nat));
    }
    out
}

/// The number of bytes in a mebibyte.
pub const MIB: u64 = 1024 * 1024;

/// The absolute value of a size.
pub open spec fn magnitude(size: i64) -> nat {
    if size < 0 {
        (-size) as nat
    } else {
        size as nat
    }
}

/// A size in mebibytes, with two decimals.
pub open spec fn mib_text(size: i64) -> Seq<char> {
    let text = hundredths_text(nearest(as_double(magnitude(size)) * 100, MIB as nat));
    if size < 0 {
        seq!['-'] + text
    } else {
        text
    }
}

/// A size in mebibytes, with two decimals.
pub fn filesize_mb(size: i64) -> (r: String)
    ensures
        r@ == mib_text(size),
{
    let m: u64 = if size < 0 {
        (-(size as i128)) as u64
    } else {
        size as u64
    };
    let v: u128 = double_of(m);
    let c: u128 = nearest_of(v * 100, MIB as u128);
    let text: String = hundredths(c as u64);
    if size < 0 {
        let mut out: String = String::new();
        out.push('-');
        out.append(text.as_str());
        proof {
            assert(out@ =~= mib_text(size));
        }
        out
    } else {
        text
    }
}

/// The unit that a size is shown in: 0 for bytes, and from there on by steps
/// of 1024 up to 4 for tebibytes.
pub open spec fn unit_index(v: nat) -> int {
    if v < 1024 {
        0
    } else if v < 1048576 {
        1
    } else if v < 1073741824 {
        2
    } else if v < 1099511627776 {
        3
    } else {
        4
    }
}

/// The number of bytes in a unit.
pub open spec fn unit_size(i: int) -> nat {
    if i == 0 {
        1
    } else if i == 1 {
        1024
    } else if i == 2 {
        1048576
    } else if i == 3 {
        1073741824
    } else {
        1099511627776
    }
}

/// The name of a unit.
pub open spec fn unit_name(i: int) -> Seq<char> {
    if i == 0 {
        "B"@
    } else if i == 1 {
        "KB"@
    } else if i == 2 {
        "MB"@
    } else if i == 3 {
        "GB"@
    } else {
        "TB"@
    }
}

/// A size in the largest unit that it fills: whole bytes, or two decimals. A
/// negative size counts as none.
pub open spec fn bytes_text(size: i64) -> Seq<char> {
    let v = as_double(
        if size < 0 {
            0
        } else {
            size as nat
        },
    );
    let i = unit_index(v);
    if i == 0 {
        decimal(v) + " "@ + unit_name(0)
    } else {
        hundredths_text(nearest(v * 100, unit_size(i))) + " "@ + unit_name(i)
    }
}

/// A size in the largest unit that it fills.
pub fn format_bytes(size: i64) -> (r: String)
    ensures
        r@ == bytes_text(size),
{
    let n: u64 = if size < 0 {
        0
    } else {
        size as u64
    };
    let v: u128 = double_of(n);
    if v < 1024 {
        return join3(decimal_u64(v as u64).as_str(), " ", "B");
    }
    let (unit, name): (u128, &str) = if v < 1048576 {
        (1024, "KB")
    } else if v < 1073741824 {
        (1048576, "MB")
    } else if v < 1099511627776 {
        (1073741824, "GB")
    } else {
        (1099511627776, "TB")
    };
    let c: u128 = nearest_of(v * 100, unit);
    join3(hundredths(c as u64).as_str(), " ", name)
}

/// The nearest whole number is no more than half away.
pub proof fn the_nearest_number_is_near(a: nat, b: nat)
    requires
        b > 0,
    ensures
        2 * (nearest(a, b) * b - a) <= b,
        2 * (a - nearest(a, b) * b) <= b,
        2 * (a % b) == b ==> nearest(a, b) % 2 == 0,
{
    let q = a / b;
    let r = a % b;
    assert(a == q * b + r && 0 <= r < b) by (nonlinear_arith)
        requires
            b > 0,
            q == a / b,
            r == a % b,
    ;
    assert((q + 1) * b == q * b + b) by (nonlinear_arith);
}

/// Sizes below 2^53 are exact as double-precision numbers.
pub proof fn common_sizes_are_exact(n: nat)
    requires
        n < 0x20_0000_0000_0000,
    ensures
        as_double(n) == n,
{
    assert(spacing(n, 1) == 1);
    assert(nearest(n, 1) == n);
    assert(nearest(n, 1) * 1 == n) by (nonlinear_arith)
        requires
            nearest(n, 1) == n,
    ;
}

/// A text with two decimals reads as the number of hundredths: without the
/// point it is that number, and the point stands before the last two digits.
pub proof fn two_decimals_read_as_hundredths(c: nat)
    ensures
        ({
            let t = hundredths_text(c);
            let n = t.len() as int;
            &&& n >= 4
            &&& t[n - 3] == '.'
            &&& all_digits(t.take(n - 3))
            &&& all_digits(t.skip(n - 2))
            &&& digits_value(t.take(n - 3)) * 100 + digits_value(t.skip(n - 2)) == c
        }),
{
    reveal_strlit(".");
    reveal_with_fuel(digits_value, 3);
    let t = hundredths_text(c);
    let n = t.len() as int;
    let whole = decimal(c / 100);
    lemma_decimal(c / 100);
    let tens = digit((c / 10 % 10) as int);
    let ones = digit((c % 10) as int);
    assert(t.take(n - 3) =~= whole);
    let two = t.skip(n - 2);
    assert(two =~= seq![tens, ones]);
    assert(two.drop_last() =~= seq![tens]);
    assert(seq![tens].drop_last() =~= Seq::<char>::empty());
    assert(digits_value(two) == 10 * (c / 10 % 10) + c % 10);
    assert(c == (c / 100) * 100 + (c / 10 % 10) * 10 + c % 10);
}

/// A size in mebibytes is the nearest number with two decimals: it differs
/// from the size by no more than half of a hundredth. A negative size is the
/// opposite one with a minus sign.
pub proof fn mebibytes_are_near_the_size(size: i64)
    requires
        0 <= size < 0x20_0000_0000_0000,
    ensures
        exists|c: nat| #[trigger]
            hundredths_text(c) == mib_text(size) && 2 * (c * 1_048_576 - 100 * size) <= 1_048_576
                && 2 * (100 * size - c * 1_048_576) <= 1_048_576,
        size > 0 ==> mib_text((-size) as i64) == seq!['-'] + mib_text(size),
{
    let n = size as nat;
    common_sizes_are_exact(n);
    the_nearest_number_is_near(n * 100, 1_048_576);
    let c = nearest(n * 100, 1_048_576);
    assert(hundredths_text(c) == mib_text(size));
}

/// A size is shown in the largest unit that it fills, of five that are each
/// 1024 times the one before: whole bytes, or the nearest number of that unit
/// with two decimals. A negative size is shown as none.
pub proof fn sizes_are_shown_in_the_largest_unit(size: i64)
    requires
        0 <= size < 0x20_0000_0000_0000,
    ensures
        size < 1024 ==> bytes_text(size) == decimal(size as nat) + " B"@,
        1024 <= size < 1_048_576 ==> shown_as(size, 1024, " KB"@),
        1_048_576 <= size < 1_073_741_824 ==> shown_as(size, 1_048_576, " MB"@),
        1_073_741_824 <= size < 1_099_511_627_776 ==> shown_as(size, 1_073_741_824, " GB"@),
        1_099_511_627_776 <= size ==> shown_as(size, 1_099_511_627_776, " TB"@),
        forall|less: i64| less < 0 ==> #[trigger] bytes_text(less) == bytes_text(0),
{
    reveal_strlit(" ");
    reveal_strlit("B");
    reveal_strlit("KB");
    reveal_strlit("MB");
    reveal_strlit("GB");
    reveal_strlit("TB");
    reveal_strlit(" B");
    reveal_strlit(" KB");
    reveal_strlit(" MB");
    reveal_strlit(" GB");
    reveal_strlit(" TB");
    let n = size as nat;
    common_sizes_are_exact(n);
    let i = unit_index(n);
    if i == 0 {
        assert(bytes_text(size) =~= decimal(n) + " B"@);
    } else {
        let unit = unit_size(i);
        let c = nearest(n * 100, unit);
        the_nearest_number_is_near(n * 100, unit);
        let name = " "@ + unit_name(i);
        assert(bytes_text(size) =~= hundredths_text(c) + name);
        assert(name =~= if i == 1 {
            " KB"@
        } else if i == 2 {
            " MB"@
        } else if i == 3 {
            " GB"@
        } else {
            " TB"@
        });
        assert(near(c, size, unit as int));
    }
}

/// `c` hundredths of the unit are the size, to the nearest hundredth.
pub open spec fn near(c: nat, size: i64, unit: int) -> bool {
    2 * (c * unit - 100 * size) <= unit && 2 * (100 * size - c * unit) <= unit
}

/// The size is shown in the unit, with two decimals.
pub open spec fn shown_as(size: i64, unit: int, name: Seq<char>) -> bool {
    exists|c: nat| #[trigger] near(c, size, unit) && bytes_text(size) == hundredths_text(c) + name
}

proof fn lemma_spacing(n: nat, unit: nat)
    requires
        unit > 0,
    ensures
        spacing(n, unit) >= unit,
        n / spacing(n, unit) < 0x20_0000_0000_0000,
        spacing(n, unit) > unit ==> exists|half: nat|
            half > 0 && #[trigger] (2 * half) == spacing(n, unit) && n / half
                >= 0x20_0000_0000_0000,
    decreases n / unit,
{
    if n / unit >= 0x20_0000_0000_0000 {
        lemma_halves(n, unit);
        lemma_spacing(n, 2 * unit);
        if spacing(n, 2 * unit) == 2 * unit {
            assert(2 * unit == spacing(n, unit));
        }
    }
}

/// A size of more than 53 bits is taken for the nearest number that has 53
/// bits and zeros behind them.
pub proof fn large_sizes_have_53_bits(n: nat)
    ensures
        exists|step: nat|
            step > 0 && #[trigger] (as_double(n) % step) == 0 && 2 * (as_double(n) - n) <= step && 2
                * (n - as_double(n)) <= step && n < 0x20_0000_0000_0000 * step && (step == 1 || n
                >= 0x10_0000_0000_0000 * step),
{
    let s = spacing(n, 1);
    lemma_spacing(n, 1);
    the_nearest_number_is_near(n, s);
    let q = nearest(n, s);
    assert((q * s) % s == 0) by {
        vstd::arithmetic::div_mod::lemma_mod_multiples_basic(q as int, s as int);
    }
    assert(n < 0x20_0000_0000_0000 * s) by (nonlinear_arith)
        requires
            s > 0,
            n / s < 0x20_0000_0000_0000,
    ;
    if s > 1 {
        let half = choose|half: nat|
            half > 0 && #[trigger] (2 * half) == s && n / half >= 0x20_0000_0000_0000;
        assert(n >= 0x20_0000_0000_0000 * half) by (nonlinear_arith)
            requires
                half > 0,
                n / half >= 0x20_0000_0000_0000,
        ;
    }
    assert(as_double(n) % s == 0);
}

/// Large sizes are shown like all others, by the number that they are taken
/// for: in mebibytes, and in the largest unit that this number fills.
pub proof fn large_sizes_are_shown_by_what_they_are_taken_for(size: i64)
    requires
        size >= 0x20_0000_0000_0000,
    ensures
        ({
            let n = as_double(size as nat);
            &&& exists|c: nat| #[trigger]
                hundredths_text(c) == mib_text(size) && 2 * (c * 1_048_576 - 100 * n) <= 1_048_576
                    && 2 * (100 * n - c * 1_048_576) <= 1_048_576
            &&& mib_text((-size) as i64) == seq!['-'] + mib_text(size)
            &&& exists|c: nat| #[trigger]
                (hundredths_text(c) + " TB"@) == bytes_text(size) && 2 * (c * 1_099_511_627_776
                    - 100 * n) <= 1_099_511_627_776 && 2 * (100 * n - c * 1_099_511_627_776)
                    <= 1_099_511_627_776
        }),
{
    reveal_strlit(" ");
    reveal_strlit("TB");
    reveal_strlit(" TB");
    let whole = size as nat;
    let n = as_double(whole);
    large_sizes_have_53_bits(whole);
    let step = choose|step: nat|
        step > 0 && #[trigger] (n % step) == 0 && 2 * (n - whole) <= step && 2 * (whole - n)
            <= step && whole < 0x20_0000_0000_0000 * step && (step == 1 || whole
            >= 0x10_0000_0000_0000 * step);
    assert(n >= 1_099_511_627_776);
    the_nearest_number_is_near(n * 100, 1_048_576);
    let c = nearest(n * 100, 1_048_576);
    assert(hundredths_text(c) == mib_text(size));
    the_nearest_number_is_near(n * 100, 1_099_511_627_776);
    let d = nearest(n * 100, 1_099_511_627_776);
    assert(" "@ + "TB"@ =~= " TB"@);
    assert(hundredths_text(d) + " TB"@ =~= bytes_text(size));
}

} // verus!
