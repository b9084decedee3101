//! Numbers of bytes, written for people to read.

use vstd::prelude::*;

use crate::text;

verus! {

/// A number of bytes, written with a binary unit.
#[derive(Clone, Copy, Debug, PartialEq, Eq, Structural)]
pub struct HumanReadableByteSize(pub u64);

/// The quotient, rounded to the nearest integer, and to the even one of two
/// that are as near.
pub open spec fn rounded_quotient(a: nat, b: nat) -> nat {
    let quotient = a / b;
    let twice = 2 * (a % b);
    if twice > b || twice == b && quotient % 2 == 1 {
        quotient + 1
    } else {
        quotient
    }
}

/// How far the numbers that a double-precision float can hold are apart around
/// an integer that has at least 53 bits, and 1 for smaller ones.
pub open spec fn float_spacing(n: nat) -> nat
    decreases n,
{
    if n < 0x20_0000_0000_0000 {
        1
    } else {
        2 * float_spacing(n / 2)
    }
}

/// The integer, rounded to a number that a double-precision float can hold.
pub open spec fn as_float(n: nat) -> nat {
    rounded_quotient(n, float_spacing(n)) * float_spacing(n)
}

/// The largest unit of which a number of bytes holds at least one, with its
/// name.
pub open spec fn unit(num_bytes: nat) -> (nat, Seq<char>) {
    if num_bytes < 0x400 {
        (1, "B"@)
    } else if num_bytes < 0x10_0000 {
        (0x400, "KiB"@)
    } else if num_bytes < 0x4000_0000 {
        (0x10_0000, "MiB"@)
    } else if num_bytes < 0x100_0000_0000 {
        (0x4000_0000, "GiB"@)
    } else if num_bytes < 0x4_0000_0000_0000 {
        (0x100_0000_0000, "TiB"@)
    } else if num_bytes < 0x1000_0000_0000_0000 {
        (0x4_0000_0000_0000, "PiB"@)
    } else {
        (0x1000_0000_0000_0000, "EiB"@)
    }
}

/// The written form of a number of bytes: as it is if it is below the first
/// unit, without a fraction from ten units on, and otherwise with one digit of
/// it.
pub open spec fn byte_size_text(num_bytes: nat) -> Seq<char> {
    let value = as_float(num_bytes);
    let (unit, name) = unit(value);
    let number = if unit == 1 {
        text::decimal_text(num_bytes)
    } else if value >= 10 * unit {
        text::decimal_text(rounded_quotient(value, unit))
    } else {
        let tenths = rounded_quotient(10 * value, unit);
        text::decimal_text(tenths / 10) + "."@ + text::decimal_text(tenths % 10)
    };
    number + " "@ + name
}

/// Returns the quotient, rounded to the nearest integer, and to the even one of
/// two that are as near.
fn divide_rounded(a: u128, b: u128) -> (quotient: u128)
    requires
        a <= u64::MAX * 16,
        0 < b <= u64::MAX,
    ensures
        quotient == rounded_quotient(a as nat, b as nat),
        quotient <= a / b + 1,
{
    let quotient: u128 = a / b;
    let twice: u128 = 2 * (a % b);
    assert(a / b <= a) by (nonlinear_arith)
        requires
            b > 0,
    ;
    if twice > b || twice == b && quotient % 2 == 1 {
        quotient + 1
    } else {
        quotient
    }
}

/// Returns how far the numbers that a double-precision float can hold are apart
/// around an integer.
fn spacing_around(n: u64) -> (spacing: u64)
    ensures
        spacing == float_spacing(n as nat),
        spacing == 1 || spacing * 0x10_0000_0000_0000 <= n,
        spacing > 0,
    decreases n,
{
    if n < 0x20_0000_0000_0000 {
        1
    } else {
        2 * spacing_around(n / 2)
    }
}

/// Returns the integer, rounded to a number that a double-precision float can
/// hold.
fn round_to_float(n: u64) -> (rounded: u128)
    ensures
        rounded == as_float(n as nat),
        rounded <= n + 0x1000,
{
    let spacing: u128 = spacing_around(n) as u128;
    let quotient: u128 = divide_rounded(n as u128, spacing);
    assert(quotient * spacing <= n + spacing) by (nonlinear_arith)
        requires
            quotient <= n as u128 / spacing + 1,
            spacing > 0,
    ;
    quotient * spacing
}

/// Returns the largest unit of which a number of bytes holds at least one, with
/// its name.
fn unit_of(num_bytes: u128) -> (res: (u128, &'static str))
    ensures
        res.0 == unit(num_bytes as nat).0,
        res.1@ == unit(num_bytes as nat).1,
{
    if num_bytes < 0x400 {
        (1, "B")
    } else if num_bytes < 0x10_0000 {
        (0x400, "KiB")
    } else if num_bytes < 0x4000_0000 {
        (0x10_0000, "MiB")
    } else if num_bytes < 0x100_0000_0000 {
        (0x4000_0000, "GiB")
    } else if num_bytes < 0x4_0000_0000_0000 {
        (0x100_0000_0000, "TiB")
    } else if num_bytes < 0x1000_0000_0000_0000 {
        (0x4_0000_0000_0000, "PiB")
    } else {
        (0x1000_0000_0000_0000, "EiB")
    }
}

impl HumanReadableByteSize {
    /// Returns the written form.
    pub fn to_string(&self) -> (text: String)
        ensures
            text@ == byte_size_text(self.0 as nat),
    {
        let value: u128 = round_to_float(self.0);
        let (unit, name): (u128, &'static str) = unit_of(value);
        let mut text: String = if unit == 1 {
            text::decimal(self.0 as u128)
        } else if value >= 10 * unit {
            text::decimal(divide_rounded(value, unit))
        } else {
            let tenths: u128 = divide_rounded(10 * value, unit);
            text::concat3(
                text::decimal(tenths / 10).as_str(),
                ".",
                text::decimal(tenths % 10).as_str(),
            )
        };
        text.append(" ");
        text.append(name);
        text
    }
}

/// A rounded quotient is as near to the quotient as an integer can be, at most
/// half a unit away from it, and even if it is exactly half a unit away.
pub proof fn law_rounding_is_to_the_nearest(a: nat, b: nat)
    requires
        b > 0,
    ensures
        ({
            let twice = 2 * (rounded_quotient(a, b) * b);
            &&& 2 * a - b <= twice <= 2 * a + b
            &&& twice == 2 * a - b || twice == 2 * a + b ==> rounded_quotient(a, b) % 2 == 0
        }),
{
    vstd::arithmetic::div_mod::lemma_fundamental_div_mod(a as int, b as int);
    let q = a / b;
    assert((q + 1) * b == q * b + b) by (nonlinear_arith);
    assert(b * q == q * b) by (nonlinear_arith);
}

/// A number of bytes is rounded to a multiple of a power of two, the smallest with
/// which it has no more than 53 bits, and is as it was if it has no more than
/// that.
pub proof fn law_floats_hold_53_bits(n: nat)
    ensures
        n < 0x20_0000_0000_0000 ==> float_spacing(n) == 1 && as_float(n) == n,
        n < float_spacing(n) * 0x20_0000_0000_0000,
        float_spacing(n) > 1 ==> float_spacing(n) * 0x10_0000_0000_0000 <= n,
        exists|k: nat| float_spacing(n) == #[trigger] vstd::arithmetic::power2::pow2(k),
        as_float(n) % float_spacing(n) == 0,
        2 * n - float_spacing(n) <= 2 * as_float(n) <= 2 * n + float_spacing(n),
    decreases n,
{
    let spacing = float_spacing(n);
    if n < 0x20_0000_0000_0000 {
        vstd::arithmetic::power2::lemma2_to64();
        assert(spacing == vstd::arithmetic::power2::pow2(0));
        assert(n / 1 == n && n % 1 == 0);
    } else {
        law_floats_hold_53_bits(n / 2);
        let k = choose|k: nat|
            float_spacing(n / 2) == #[trigger] vstd::arithmetic::power2::pow2(k);
        vstd::arithmetic::power2::lemma_pow2_unfold(k + 1);
        assert(spacing == vstd::arithmetic::power2::pow2(k + 1));
    }
    assert(spacing > 0);
    law_rounding_is_to_the_nearest(n, spacing);
    vstd::arithmetic::div_mod::lemma_mod_multiples_basic(
        rounded_quotient(n, spacing) as int,
        spacing as int,
    );
}

/// The unit of a number of bytes is a power of 1024, of which the number holds at
/// least one, and fewer than 1024 unless there is no larger unit; and it has the
/// name of that power.
pub proof fn law_unit_is_the_largest_that_fits(num_bytes: nat)
    ensures
        ({
            let names = seq!["B"@, "KiB"@, "MiB"@, "GiB"@, "TiB"@, "PiB"@, "EiB"@];
            let units = seq![
                1nat,
                1024,
                1024 * 1024,
                1024 * 1024 * 1024,
                1024 * 1024 * 1024 * 1024,
                1024 * 1024 * 1024 * 1024 * 1024,
                1024 * 1024 * 1024 * 1024 * 1024 * 1024,
            ];
            exists|k: int|
                0 <= k <= 6 && unit(num_bytes) == (#[trigger] units[k], names[k]) && (k > 0
                    ==> units[k] <= num_bytes) && (k < 6 ==> num_bytes < 1024 * units[k])
        }),
{
    let units = seq![
        1nat,
        1024,
        1024 * 1024,
        1024 * 1024 * 1024,
        1024 * 1024 * 1024 * 1024,
        1024 * 1024 * 1024 * 1024 * 1024,
        1024 * 1024 * 1024 * 1024 * 1024 * 1024,
    ];
    assert(units[0] == 1);
    assert(units[1] == 0x400);
    assert(units[2] == 0x10_0000);
    assert(units[3] == 0x4000_0000);
    assert(units[4] == 0x100_0000_0000);
    assert(units[5] == 0x4_0000_0000_0000);
    assert(units[6] == 0x1000_0000_0000_0000);
}

/// A number of bytes is written as it is if it is below 1024. Otherwise it is
/// written in its unit, as the nearest integer from ten units on, and below with
/// the nearest tenth, or the even one of two that are as near, and then the name
/// of the unit follows.
pub proof fn law_byte_size_is_written_to_the_nearest(num_bytes: nat)
    ensures
        num_bytes < 1024 ==> byte_size_text(num_bytes) == text::decimal_text(num_bytes) + " "@
            + "B"@,
        num_bytes >= 1024 ==> {
            let value = as_float(num_bytes);
            let size = unit(value).0;
            let name = unit(value).1;
            &&& value >= 10 * size ==> exists|n: nat|
                byte_size_text(num_bytes) == #[trigger] text::decimal_text(n) + " "@ + name && 2
                    * value - size <= 2 * (n * size) <= 2 * value + size && (2 * (n * size) == 2
                    * value - size || 2 * (n * size) == 2 * value + size ==> n % 2 == 0)
            &&& value < 10 * size ==> exists|whole: nat, tenth: nat|
                tenth < 10 && byte_size_text(num_bytes) == #[trigger] text::decimal_text(whole)
                    + "."@ + #[trigger] text::decimal_text(tenth) + " "@ + name && 20 * value - size
                    <= 2 * ((10 * whole + tenth) * size) <= 20 * value + size && (2 * ((10 * whole
                    + tenth) * size) == 20 * value - size || 2 * ((10 * whole + tenth) * size) == 20
                    * value + size ==> (10 * whole + tenth) % 2 == 0)
        },
{
    law_floats_hold_53_bits(num_bytes);
    let value = as_float(num_bytes);
    let size = unit(value).0;
    if num_bytes >= 1024 {
        assert(value >= 1024) by {
            if num_bytes >= 0x20_0000_0000_0000 {
                let spacing = float_spacing(num_bytes);
                assert(2 * value >= num_bytes);
            }
        }
        law_unit_is_the_largest_that_fits(value);
        if value >= 10 * size {
            law_rounding_is_to_the_nearest(value, size);
            let n = rounded_quotient(value, size);
            assert(byte_size_text(num_bytes) == text::decimal_text(n) + " "@ + unit(value).1);
        } else {
            law_rounding_is_to_the_nearest(10 * value, size);
            let tenths = rounded_quotient(10 * value, size);
            let whole = tenths / 10;
            let tenth = tenths % 10;
            assert(10 * whole + tenth == tenths);
            assert(byte_size_text(num_bytes) == text::decimal_text(whole) + "."@
                + text::decimal_text(tenth) + " "@ + unit(value).1);
        }
    }
}

} // verus!
