//! Durations and sizes, as people write and read them.
use crate::text::{chars_of, decimal, join2, join5, number, padded, padded_number};
use vstd::prelude::*;

verus! {

/// A duration that cannot be read.
#[derive(Clone, Copy, Debug, PartialEq, Eq, Structural)]
pub enum DurationParseError {
    Invalid,
    Overflow,
}

impl DurationParseError {
    /// The error in words.
    pub fn message(&self) -> (result: &'static str)
        ensures
            result@ == match self {
                DurationParseError::Invalid => "duration must contain a positive integer followed by s, m, h, d, or w"@,
                DurationParseError::Overflow => "duration is too large"@,
            },
    {
        match self {
            DurationParseError::Invalid => "duration must contain a positive integer followed by s, m, h, d, or w",
            DurationParseError::Overflow => "duration is too large",
        }
    }
}

/// Whether `s` is made of decimal digits.
pub open spec fn all_digits(s: Seq<char>) -> bool {
    forall|i: int| 0 <= i < s.len() ==> '0' <= #[trigger] s[i] && s[i] <= '9'
}

/// The number that decimal digits stand for.
pub open spec fn digits_value(s: Seq<char>) -> nat
    decreases s.len(),
{
    if s.len() == 0 {
        0
    } else {
        digits_value(s.drop_last()) * 10 + (s.last() as u32 - 48) as nat
    }
}

/// The digits of a number, which a plus sign may lead.
pub open spec fn unsigned(s: Seq<char>) -> Seq<char> {
    if s.len() > 0 && s[0] == '+' {
        s.drop_first()
    } else {
        s
    }
}

/// The number that a text stands for, if it is one that fits in a `u64`.
pub open spec fn parsed_number(s: Seq<char>) -> Option<nat> {
    let digits = unsigned(s);
    if digits.len() > 0 && all_digits(digits) && digits_value(digits) <= u64::MAX {
        Some(digits_value(digits))
    } else {
        None
    }
}

/// The seconds in a unit of time.
pub open spec fn unit_seconds(unit: char) -> Option<nat> {
    match unit {
        's' => Some(1),
        'm' => Some(60),
        'h' => Some(3_600),
        'd' => Some(86_400),
        'w' => Some(604_800),
        _ => None,
    }
}

/// The seconds that a text stands for: a positive number and a unit.
pub open spec fn duration_seconds(s: Seq<char>) -> Option<nat> {
    if s.len() >= 2 {
        match (parsed_number(s.drop_last()), unit_seconds(s.last())) {
            (Some(amount), Some(seconds)) => if amount > 0 {
                Some(amount * seconds)
            } else {
                None
            },
            _ => None,
        }
    } else {
        None
    }
}

proof fn lemma_digits_value_grows(s: Seq<char>, i: int)
    requires
        0 <= i <= s.len(),
        all_digits(s),
    ensures
        digits_value(s.take(i)) <= digits_value(s),
    decreases s.len() - i,
{
    if i < s.len() {
        lemma_digits_value_grows(s, i + 1);
        assert(s.take(i + 1).drop_last() =~= s.take(i));
        assert('0' <= s[i] && s[i] <= '9');
    } else {
        assert(s.take(i) =~= s);
    }
}

/// The number that a text stands for, if it is one that fits in a `u64`.
pub fn parse_u64(text: &str) -> (result: Option<u64>)
    ensures
        match parsed_number(text@) {
            Some(n) => result == Some(n as u64),
            None => result is None,
        },
{
    let chars = chars_of(text);
    assert(chars@.take(chars.len() as int) =~= text@);
    parse_number(&chars, chars.len())
}

/// The number that the characters before `end` stand for, if it is one that fits in a `u64`.
fn parse_number(chars: &Vec<char>, end: usize) -> (result: Option<u64>)
    requires
        end <= chars.len(),
    ensures
        match parsed_number(chars@.take(end as int)) {
            Some(n) => result == Some(n as u64),
            None => result is None,
        },
{
    let ghost text = chars@.take(end as int);
    let ghost digits = unsigned(text);
    let start: usize = if end > 0 && chars[0] == '+' {
        1
    } else {
        0
    };
    assert(digits =~= chars@.subrange(start as int, end as int));
    if start == end {
        return None;
    }
    let mut value: u64 = 0;
    let mut i: usize = start;
    assert(digits.take(0) =~= Seq::empty());
    while i < end
        invariant
            start <= i <= end <= chars.len(),
            digits == chars@.subrange(start as int, end as int),
            digits == unsigned(chars@.take(end as int)),
            all_digits(digits.take(i - start)),
            value == digits_value(digits.take(i - start)),
        decreases end - i,
    {
        let c = chars[i];
        let ghost at = i - start;
        assert(digits[at] == c);
        if c < '0' || c > '9' {
            assert(!all_digits(digits));
            return None;
        }
        let next: u64 = (c as u32 - 48) as u64;
        proof {
            let more = digits.take(at + 1);
            assert(more.drop_last() =~= digits.take(at));
            assert(more.last() == c);
            assert(all_digits(more)) by {
                assert forall|k: int| 0 <= k < more.len() implies '0' <= #[trigger] more[k] && more[k] <= '9' by {
                    if k < at {
                        assert(more[k] == digits.take(at)[k]);
                    }
                }
            }
            if all_digits(digits) {
                lemma_digits_value_grows(digits, at + 1);
            }
        }
        if value > (u64::MAX - next) / 10 {
            assert(value * 10 + next > u64::MAX);
            return None;
        }
        value = value * 10 + next;
        i = i + 1;
    }
    assert(digits.take(i - start) =~= digits);
    Some(value)
}

/// Reads a duration such as `30d`, in seconds.
pub fn parse_duration(value: &str) -> (result: Result<u64, DurationParseError>)
    ensures
        match duration_seconds(value@) {
            Some(seconds) => result == if seconds <= u64::MAX {
                Ok::<u64, DurationParseError>(seconds as u64)
            } else {
                Err(DurationParseError::Overflow)
            },
            None => result == Err::<u64, DurationParseError>(DurationParseError::Invalid),
        },
{
    let chars = chars_of(value);
    let length: usize = chars.len();
    if length < 2 {
        return Err(DurationParseError::Invalid);
    }
    assert(value@.drop_last() =~= chars@.take(length - 1));
    let amount: u64 = match parse_number(&chars, length - 1) {
        Some(amount) => amount,
        None => {
            return Err(DurationParseError::Invalid);
        },
    };
    if amount == 0 {
        return Err(DurationParseError::Invalid);
    }
    let seconds: u64 = match chars[length - 1] {
        's' => 1,
        'm' => 60,
        'h' => 3_600,
        'd' => 86_400,
        'w' => 604_800,
        _ => {
            return Err(DurationParseError::Invalid);
        },
    };
    match amount.checked_mul(seconds) {
        Some(product) => Ok(product),
        None => Err(DurationParseError::Overflow),
    }
}

/// The whole number nearest to `n / d`; of two that are equally near, the even one.
pub open spec fn rounded(n: nat, d: nat) -> nat {
    let quotient = n / d;
    let twice = 2 * (n % d);
    if twice > d || (twice == d && quotient % 2 == 1) {
        quotient + 1
    } else {
        quotient
    }
}

/// The distance of the doubles around `n`, for `n` below 2^64.
pub open spec fn double_step(n: nat) -> nat {
    if n < 0x20_0000_0000_0000 {
        1
    } else if n < 0x40_0000_0000_0000 {
        2
    } else if n < 0x80_0000_0000_0000 {
        4
    } else if n < 0x100_0000_0000_0000 {
        8
    } else if n < 0x200_0000_0000_0000 {
        16
    } else if n < 0x400_0000_0000_0000 {
        32
    } else if n < 0x800_0000_0000_0000 {
        64
    } else if n < 0x1000_0000_0000_0000 {
        128
    } else if n < 0x2000_0000_0000_0000 {
        256
    } else if n < 0x4000_0000_0000_0000 {
        512
    } else if n < 0x8000_0000_0000_0000 {
        1024
    } else {
        2048
    }
}

/// The double nearest to `n`.
pub open spec fn as_double(n: nat) -> nat {
    rounded(n, double_step(n)) * double_step(n)
}

/// The bytes in the unit that a size is written in, and the unit's name.
pub open spec fn size_unit(n: nat) -> (nat, Seq<char>) {
    if n < 0x10_0000 {
        (0x400, "KiB"@)
    } else if n < 0x4000_0000 {
        (0x10_0000, "MiB"@)
    } else if n < 0x100_0000_0000 {
        (0x4000_0000, "GiB"@)
    } else {
        (0x100_0000_0000, "TiB"@)
    }
}

/// A size as it is written: in bytes below 1024; else in the largest unit that it reaches,
/// to two decimal places, computed in double precision.
pub open spec fn written_size(bytes: u64) -> Seq<char> {
    if bytes < 1024 {
        decimal(bytes as nat) + " B"@
    } else {
        let value = as_double(bytes as nat);
        let (divisor, name) = size_unit(value);
        let hundredths = rounded(value * 100, divisor);
        decimal(hundredths / 100) + "."@ + padded(hundredths % 100, 2) + " "@ + name
    }
}

fn round(n: u128, d: u128) -> (result: u128)
    requires
        0 < d <= 0x100_0000_0000,
        n <= 0x1_0000_0000_0000_0000_0000,
    ensures
        result == rounded(n as nat, d as nat),
{
    let quotient: u128 = n / d;
    let twice: u128 = 2 * (n % d);
    if twice > d || (twice == d && quotient % 2 == 1) {
        quotient + 1
    } else {
        quotient
    }
}

fn nearest_double(n: u64) -> (result: u128)
    ensures
        result == as_double(n as nat),
        n <= 0x1f_ffff_ffff_ffff ==> result == n,
        result <= 0x1_0000_0000_0000_0000,
        n >= 1024 ==> result >= 1024,
{
    let step: u64 = if n < 0x20_0000_0000_0000 {
        1
    } else if n < 0x40_0000_0000_0000 {
        2
    } else if n < 0x80_0000_0000_0000 {
        4
    } else if n < 0x100_0000_0000_0000 {
        8
    } else if n < 0x200_0000_0000_0000 {
        16
    } else if n < 0x400_0000_0000_0000 {
        32
    } else if n < 0x800_0000_0000_0000 {
        64
    } else if n < 0x1000_0000_0000_0000 {
        128
    } else if n < 0x2000_0000_0000_0000 {
        256
    } else if n < 0x4000_0000_0000_0000 {
        512
    } else if n < 0x8000_0000_0000_0000 {
        1024
    } else {
        2048
    };
    let quotient: u128 = round(n as u128, step as u128);
    assert(quotient * step <= n + step && quotient * step + step >= n && quotient * step
        <= 0x1_0000_0000_0000_0000 && (step == 1 ==> quotient == n)) by {
        lemma_rounded_close(n as nat, step as nat);
    }
    quotient * step as u128
}

proof fn lemma_rounded_close(n: nat, step: nat)
    requires
        step == double_step(n),
        n <= u64::MAX,
    ensures
        rounded(n, step) * step <= n + step,
        rounded(n, step) * step + step >= n,
        rounded(n, step) * step <= 0x1_0000_0000_0000_0000,
        step == 1 ==> rounded(n, step) == n,
{
    let q = n / step;
    let r = n % step;
    assert(n == q * step + r && r < step) by (nonlinear_arith)
        requires
            step > 0,
            q == n / step,
            r == n % step,
    ;
    assert((q + 1) * step == q * step + step) by (nonlinear_arith);
    if step == 2048 {
        assert(q == n / 2048);
        assert(q <= 0x1f_ffff_ffff_ffff);
        assert(q * step == q * 2048);
    }
}

/// A size as it is written.
pub fn format_bytes(bytes: u64) -> (result: String)
    ensures
        result@ == written_size(bytes),
{
    if bytes < 1024 {
        return join2(number(bytes).as_str(), " B");
    }
    let value: u128 = nearest_double(bytes);
    let (divisor, name): (u128, &str) = if value < 0x10_0000 {
        (0x400, "KiB")
    } else if value < 0x4000_0000 {
        (0x10_0000, "MiB")
    } else if value < 0x100_0000_0000 {
        (0x4000_0000, "GiB")
    } else {
        (0x100_0000_0000, "TiB")
    };
    let hundredths: u128 = round(value * 100, divisor);
    assert(hundredths <= 0x1_0000_0000_0000) by {
        let n = (value * 100) as nat;
        let d = divisor as nat;
        assert(n / d <= 0xffff_ffff_ffff) by (nonlinear_arith)
            requires
                d == 0x400 && n < 0x10_0000 * 100 || d == 0x10_0000 && n < 0x4000_0000 * 100 || d == 0x4000_0000 && n
                    < 0x100_0000_0000 * 100 || d == 0x100_0000_0000 && n <= 0x1_0000_0000_0000_0000 * 100,
        ;
    }
    let whole: u64 = (hundredths / 100) as u64;
    let part: u64 = (hundredths % 100) as u64;
    join5(number(whole).as_str(), ".", padded_number(part, 2).as_str(), " ", name)
}

/// A size that may not be set, as it is written.
pub fn format_optional_bytes(value: Option<u64>) -> (result: String)
    ensures
        result@ == match value {
            Some(bytes) => written_size(bytes),
            None => "unconfigured"@,
        },
{
    match value {
        Some(bytes) => format_bytes(bytes),
        None => "unconfigured".to_owned(),
    }
}

/// An age in the largest unit that it reaches, cut off.
pub open spec fn written_age(seconds: u64) -> Seq<char> {
    if seconds >= 86_400 {
        decimal((seconds / 86_400) as nat) + "d"@
    } else if seconds >= 3_600 {
        decimal((seconds / 3_600) as nat) + "h"@
    } else if seconds >= 60 {
        decimal((seconds / 60) as nat) + "m"@
    } else {
        decimal(seconds as nat) + "s"@
    }
}

/// An age in the largest unit that it reaches, cut off.
pub fn format_age(seconds: u64) -> (result: String)
    ensures
        result@ == written_age(seconds),
{
    if seconds >= 86_400 {
        join2(number(seconds / 86_400).as_str(), "d")
    } else if seconds >= 3_600 {
        join2(number(seconds / 3_600).as_str(), "h")
    } else if seconds >= 60 {
        join2(number(seconds / 60).as_str(), "m")
    } else {
        join2(number(seconds).as_str(), "s")
    }
}

proof fn lemma_decimal_digits(n: nat)
    ensures
        decimal(n).len() > 0,
        all_digits(decimal(n)),
        decimal(n)[0] != '+',
        digits_value(decimal(n)) == n,
    decreases n,
{
    reveal_with_fuel(digits_value, 2);
    if n >= 10 {
        lemma_decimal_digits(n / 10);
        let rest = decimal(n / 10);
        assert(decimal(n).drop_last() =~= rest);
        assert(decimal(n)[0] == rest[0]);
        assert forall|i: int| 0 <= i < decimal(n).len() implies '0' <= #[trigger] decimal(n)[i] && decimal(n)[i]
            <= '9' by {
            if i < rest.len() {
                assert(decimal(n)[i] == rest[i]);
            }
        }
    } else {
        assert(decimal(n).drop_last() =~= Seq::empty());
    }
}

/// A number that is written in decimal reads as itself, with a plus sign in front or without, as
/// long as it fits.
pub proof fn written_numbers_are_read_back(n: nat)
    ensures
        n <= u64::MAX ==> parsed_number(decimal(n)) == Some(n),
        n <= u64::MAX ==> parsed_number(seq!['+'] + decimal(n)) == Some(n),
        n > u64::MAX ==> parsed_number(decimal(n)) is None,
{
    lemma_decimal_digits(n);
    assert((seq!['+'] + decimal(n)).drop_first() =~= decimal(n));
}

/// A text with anything but digits behind the sign is no number, and neither is one without digits.
pub proof fn only_digits_make_a_number(s: Seq<char>, i: int)
    ensures
        1 <= i < s.len() && !('0' <= s[i] <= '9') ==> parsed_number(s) is None,
        s.len() > 0 && !('0' <= s[0] <= '9') && s[0] != '+' ==> parsed_number(s) is None,
        s.len() == 0 ==> parsed_number(s) is None,
        s.len() == 1 && s[0] == '+' ==> parsed_number(s) is None,
{
    let digits = unsigned(s);
    if 1 <= i < s.len() {
        if s[0] == '+' {
            assert(digits[i - 1] == s[i]);
        } else {
            assert(digits[i] == s[i]);
        }
    }
    if s.len() > 0 && s[0] != '+' {
        assert(digits[0] == s[0]);
    }
}

/// A duration is a positive number and a unit: seconds, minutes, hours, days or weeks. Nothing else
/// is one.
pub proof fn durations_are_read_by_their_unit(amount: nat, unit: char)
    requires
        amount <= u64::MAX,
    ensures
        ({
            let read = duration_seconds(decimal(amount).push(unit));
            &&& amount > 0 && unit == 's' ==> read == Some(amount)
            &&& amount > 0 && unit == 'm' ==> read == Some(amount * 60)
            &&& amount > 0 && unit == 'h' ==> read == Some(amount * 60 * 60)
            &&& amount > 0 && unit == 'd' ==> read == Some(amount * 24 * 60 * 60)
            &&& amount > 0 && unit == 'w' ==> read == Some(amount * 7 * 24 * 60 * 60)
            &&& amount == 0 ==> read is None
            &&& unit != 's' && unit != 'm' && unit != 'h' && unit != 'd' && unit != 'w' ==> read is None
        }),
{
    written_numbers_are_read_back(amount);
    lemma_decimal_digits(amount);
    assert(decimal(amount).push(unit).drop_last() =~= decimal(amount));
}

/// An age is written in the largest of days, hours, minutes and seconds that it reaches, cut off to
/// a whole number.
pub proof fn ages_are_written_in_the_largest_unit(seconds: u64, amount: nat)
    ensures
        amount >= 1 && amount * 86_400 <= seconds < (amount + 1) * 86_400 ==> written_age(seconds) == decimal(amount)
            + "d"@,
        1 <= amount < 24 && amount * 3_600 <= seconds < (amount + 1) * 3_600 ==> written_age(seconds) == decimal(amount)
            + "h"@,
        1 <= amount < 60 && amount * 60 <= seconds < (amount + 1) * 60 ==> written_age(seconds) == decimal(amount)
            + "m"@,
        seconds < 60 && amount == seconds ==> written_age(seconds) == decimal(amount) + "s"@,
{
}

/// Rounding gives a whole number that none is nearer than.
pub proof fn rounding_gives_the_nearest(n: nat, d: nat)
    requires
        d > 0,
    ensures
        2 * (rounded(n, d) * d) <= 2 * n + d,
        2 * n <= 2 * (rounded(n, d) * d) + d,
{
    let q = n / d;
    let r = n % d;
    assert(n == q * d + r && r < d) by (nonlinear_arith)
        requires
            d > 0,
            q == n / d,
            r == n % d,
    ;
    assert((q + 1) * d == q * d + d) by (nonlinear_arith);
}

proof fn lemma_exact(k: nat, d: nat)
    requires
        d > 0,
    ensures
        rounded(k * d * 100, d) == k * 100,
{
    assert(k * d * 100 == (k * 100) * d) by (nonlinear_arith);
    vstd::arithmetic::div_mod::lemma_div_multiples_vanish((k * 100) as int, d as int);
    vstd::arithmetic::div_mod::lemma_mod_multiples_basic((k * 100) as int, d as int);
    assert((k * 100) * d == d * (k * 100)) by (nonlinear_arith);
}

/// A size is written in bytes below 1024, and from there on in the largest of KiB, MiB, GiB and TiB
/// that it reaches, each 1024 of the one before, with two decimal places: whole multiples of a unit
/// are written exactly.
pub proof fn whole_units_are_written_exactly(bytes: u64, amount: nat)
    ensures
        bytes < 1024 ==> written_size(bytes) == decimal(bytes as nat) + " B"@,
        1 <= amount < 1024 && bytes == amount * 1024 ==> written_size(bytes) == decimal(amount) + "."@ + padded(0, 2)
            + " "@ + "KiB"@,
        1 <= amount < 1024 && bytes == amount * 1024 * 1024 ==> written_size(bytes) == decimal(amount) + "."@ + padded(
            0,
            2,
        ) + " "@ + "MiB"@,
        1 <= amount < 1024 && bytes == amount * 1024 * 1024 * 1024 ==> written_size(bytes) == decimal(amount) + "."@
            + padded(0, 2) + " "@ + "GiB"@,
        1 <= amount < 1024 && bytes == amount * 1024 * 1024 * 1024 * 1024 ==> written_size(bytes) == decimal(amount)
            + "."@ + padded(0, 2) + " "@ + "TiB"@,
{
    let n = bytes as nat;
    if n < 0x20_0000_0000_0000 {
        assert(double_step(n) == 1);
        assert(rounded(n, 1) == n);
        assert(as_double(n) == n);
    }
    lemma_exact(amount, 0x400);
    lemma_exact(amount, 0x10_0000);
    lemma_exact(amount, 0x4000_0000);
    lemma_exact(amount, 0x100_0000_0000);
    if 1 <= amount < 1024 {
        assert((amount * 100) / 100 == amount && (amount * 100) % 100 == 0);
    }
}

/// Whether a size is from this unit on and below the next one, and the unit has this name.
pub open spec fn is_unit(bytes: u64, unit: nat, name: Seq<char>) -> bool {
    ||| unit == 0x400 && name == "KiB"@ && 0x400 <= bytes < 0x10_0000
    ||| unit == 0x10_0000 && name == "MiB"@ && 0x10_0000 <= bytes < 0x4000_0000
    ||| unit == 0x4000_0000 && name == "GiB"@ && 0x4000_0000 <= bytes < 0x100_0000_0000
    ||| unit == 0x100_0000_0000 && name == "TiB"@ && 0x100_0000_0000 <= bytes
}

/// Whether a text is a number of hundredths, with two decimal places, and the name of a unit.
pub open spec fn is_written(text: Seq<char>, hundredths: nat, name: Seq<char>) -> bool {
    text == decimal(hundredths / 100) + "."@ + padded(hundredths % 100, 2) + " "@ + name
}

/// Any other size is written in hundredths of its unit, to the nearest one.
pub proof fn sizes_are_written_to_the_hundredth(bytes: u64, unit: nat, name: Seq<char>)
    requires
        bytes < 0x20_0000_0000_0000,
        is_unit(bytes, unit, name),
    ensures
        exists|hundredths: nat| #[trigger]
            near(hundredths, bytes as nat * 100, unit) && is_written(written_size(bytes), hundredths, name),
{
    let n = bytes as nat;
    assert(double_step(n) == 1);
    assert(rounded(n, 1) == n);
    assert(as_double(n) == n);
    assert(size_unit(n) == (unit, name));
    rounding_gives_the_nearest(n * 100, unit);
    let hundredths = rounded(n * 100, unit);
    assert(is_written(written_size(bytes), hundredths, name));
    assert(near(hundredths, n * 100, unit));
}

/// Whether a whole number of units is as near to `n` as any.
pub open spec fn near(units: nat, n: nat, unit: nat) -> bool {
    2 * (units * unit) <= 2 * n + unit && 2 * n <= 2 * (units * unit) + unit
}

/// A number halfway between two whole ones is rounded to the even one.
pub proof fn ties_are_rounded_to_even(n: nat, d: nat)
    requires
        d > 0,
        2 * (n % d) == d,
    ensures
        rounded(n, d) % 2 == 0,
        rounded(n, d) == n / d || rounded(n, d) == n / d + 1,
{
}

/// A size is computed with in double precision: in steps so large that no more than 53 bits count,
/// but not larger, and to the nearest step.
pub proof fn doubles_have_fifty_three_bits(n: nat)
    requires
        n <= u64::MAX,
    ensures
        n < double_step(n) * 0x20_0000_0000_0000,
        double_step(n) == 1 || double_step(n) * 0x10_0000_0000_0000 <= n,
        2 * as_double(n) <= 2 * n + double_step(n),
        2 * n <= 2 * as_double(n) + double_step(n),
        as_double(n) % double_step(n) == 0,
{
    rounding_gives_the_nearest(n, double_step(n));
    vstd::arithmetic::div_mod::lemma_mod_multiples_basic(
        rounded(n, double_step(n)) as int,
        double_step(n) as int,
    );
}

} // verus!
