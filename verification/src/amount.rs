use vstd::prelude::*;
use vstd::string::*;
use vstd::utf8::*;

use crate::error::{outcome, Error, Outcome, Result};
use crate::protocol::MRK_SCALE;
use crate::text::{all_digits, decimal, digit_char, digits_value, is_digit, parse_digits, u128_text};

verus! {

/// The decimals of `part / unit`, without trailing zeros. `unit` is a power of ten.
pub open spec fn fraction_text(part: nat, unit: nat) -> Seq<char>
    decreases unit,
{
    if part == 0 || unit < 10 {
        Seq::empty()
    } else {
        seq![digit_char(part / (unit / 10))] + fraction_text(part % (unit / 10), unit / 10)
    }
}

/// An amount of base units as it is shown: whole MRK, decimals if there are any, and the symbol.
pub open spec fn mrk_text(amount: nat) -> Seq<char> {
    decimal(amount / MRK_SCALE as nat) + (if amount % MRK_SCALE as nat == 0 {
        Seq::empty()
    } else {
        "."@ + fraction_text(amount % MRK_SCALE as nat, MRK_SCALE as nat)
    }) + " MRK"@
}

/// Whether a number is one followed by zeros.
spec fn power_of_ten(n: nat) -> bool
    decreases n,
{
    n == 1 || (n % 10 == 0 && n > 0 && power_of_ten(n / 10))
}

fn fraction_digits(part: u128, unit: u128) -> (r: String)
    requires
        part < unit,
        power_of_ten(unit as nat),
    ensures
        r@ == fraction_text(part as nat, unit as nat),
    decreases unit,
{
    if part == 0 || unit < 10 {
        let r = String::new();
        assert(r@ =~= Seq::<char>::empty());
        return r;
    }
    let next: u128 = unit / 10;
    let digit: u128 = part / next;
    assert(digit < 10) by (nonlinear_arith)
        requires
            part < unit,
            unit == 10 * next,
            next > 0,
            digit == part / next,
    ;
    let mut text = u128_text(digit);
    let rest = fraction_digits(part % next, next);
    text.append(rest.as_str());
    assert(text@ =~= seq![digit_char(digit as nat)] + rest@);
    text
}

/// Shows an amount of base units in MRK.
pub fn format_mrk(amount: u128) -> (r: String)
    ensures
        r@ == mrk_text(amount as nat),
{
    let mut text = u128_text(amount / MRK_SCALE);
    let part: u128 = amount % MRK_SCALE;
    if part != 0 {
        text.append(".");
        proof {
            reveal_with_fuel(power_of_ten, 11);
        }
        let digits = fraction_digits(part, MRK_SCALE);
        text.append(digits.as_str());
        text.append(" MRK");
        assert(text@ =~= mrk_text(amount as nat));
    } else {
        text.append(" MRK");
        assert(text@ =~= mrk_text(amount as nat));
    }
    text
}

/// The number in front of the symbol, which may be left out.
pub open spec fn without_symbol(bytes: Seq<u8>) -> Seq<u8> {
    if bytes.len() >= 3 && bytes.skip(bytes.len() - 3) == seq![77u8, 82u8, 75u8] {
        bytes.take(bytes.len() - 3)
    } else {
        bytes
    }
}

/// The base units that decimals stand for, of which there are at most as many as the scale has.
pub open spec fn decimals_value(decimals: Seq<u8>, unit: nat) -> nat
    decreases decimals.len(),
{
    if decimals.len() == 0 {
        0
    } else {
        (decimals[0] - 48) as nat * (unit / 10) + decimals_value(decimals.drop_first(), unit / 10)
    }
}

/// The amount that a text denotes: whole MRK, and up to nine decimals behind a point.
pub open spec fn parsed_mrk(text: Seq<char>) -> Option<nat> {
    let number = without_symbol(encode_utf8(text));
    if number.contains(46u8) {
        let point = number.index_of_first(46u8).unwrap();
        let whole = number.take(point);
        let decimals = number.skip(point + 1);
        if whole.len() > 0 && all_digits(whole) && 0 < decimals.len() <= 9 && all_digits(decimals) {
            Some(digits_value(whole) * MRK_SCALE as nat + decimals_value(decimals, MRK_SCALE as nat))
        } else {
            None
        }
    } else if number.len() > 0 && all_digits(number) {
        Some(digits_value(number) * MRK_SCALE as nat)
    } else {
        None
    }
}

/// What reading an amount gives: an amount that fits, or the refusal.
pub open spec fn read_mrk(text: Seq<char>) -> Outcome<u128> {
    match parsed_mrk(text) {
        Some(amount) => if amount <= u128::MAX {
            Ok(amount as u128)
        } else {
            Err("invalid MRK amount"@)
        },
        None => Err("invalid MRK amount"@),
    }
}

fn sum_decimals(bytes: &[u8], start: usize, end: usize) -> (r: u128)
    requires
        start <= end <= bytes@.len(),
        all_digits(bytes@.subrange(start as int, end as int)),
    ensures
        r == decimals_value(bytes@.subrange(start as int, end as int), MRK_SCALE as nat),
        r < MRK_SCALE,
{
    let ghost decimals = bytes@.subrange(start as int, end as int);
    let mut unit: u128 = MRK_SCALE;
    let mut sum: u128 = 0;
    let mut i: usize = start;
    assert(decimals.skip(0) =~= decimals);
    while i < end
        invariant
            start <= i <= end <= bytes@.len(),
            decimals == bytes@.subrange(start as int, end as int),
            all_digits(decimals),
            sum + unit <= MRK_SCALE,
            sum < MRK_SCALE,
            decimals_value(decimals, MRK_SCALE as nat) == sum + decimals_value(
                decimals.skip(i - start),
                unit as nat,
            ),
        decreases end - i,
    {
        let byte: u8 = bytes[i];
        assert(decimals[i - start] == byte);
        assert(decimals.skip(i - start)[0] == byte);
        assert(decimals.skip(i - start).drop_first() =~= decimals.skip(i - start + 1));
        let digit: u128 = (byte - 48) as u128;
        let next: u128 = unit / 10;
        assert(digit * next + next <= unit) by (nonlinear_arith)
            requires
                digit <= 9,
                next == unit / 10,
        ;
        assert(((byte - 48) as nat) * (unit as nat / 10) == digit * next);
        sum = sum + digit * next;
        unit = next;
        i = i + 1;
    }
    assert(decimals.skip(end - start) =~= Seq::<u8>::empty());
    sum
}

/// Reads an amount of MRK into base units.
pub fn parse_mrk(text: &str) -> (r: Result<u128>)
    ensures
        outcome(r) == read_mrk(text@),
{
    let bytes = text.as_bytes();
    let end: usize = if bytes.len() >= 3 && bytes[bytes.len() - 3] == 77 && bytes[bytes.len() - 2]
        == 82 && bytes[bytes.len() - 1] == 75 {
        bytes.len() - 3
    } else {
        bytes.len()
    };
    let ghost number = without_symbol(bytes@);
    proof {
        if bytes@.len() >= 3 {
            let tail = bytes@.skip(bytes@.len() - 3);
            assert(tail[0] == bytes@[bytes@.len() - 3] && tail[1] == bytes@[bytes@.len() - 2]
                && tail[2] == bytes@[bytes@.len() - 1]);
            if end == bytes@.len() - 3 {
                assert(tail =~= seq![77u8, 82u8, 75u8]);
            } else if tail == seq![77u8, 82u8, 75u8] {
                assert(tail[0] == 77u8 && tail[1] == 82u8 && tail[2] == 75u8);
            }
        }
        assert(number =~= bytes@.take(end as int));
    }
    let mut point: usize = 0;
    while point < end && bytes[point] != 46
        invariant
            point <= end <= bytes@.len(),
            number == bytes@.take(end as int),
            forall|j: int| 0 <= j < point ==> number[j] != 46u8,
        decreases end - point,
    {
        point = point + 1;
    }
    assert(bytes@.subrange(0, point as int) =~= number.take(point as int));
    if point < end {
        proof {
            assert(number[point as int] == 46u8);
            number.index_of_first_ensures(46u8);
            assert(number.index_of_first(46u8) == Some(point as int));
            assert(bytes@.subrange(point as int + 1, end as int) =~= number.skip(point as int + 1));
        }
        if point == 0 || end - point - 1 == 0 || end - point - 1 > 9 {
            return Err(Error::msg("invalid MRK amount"));
        }
        match parse_digits(bytes, point + 1, end) {
            Some(_) => {},
            None => {
                proof {
                    let decimals = number.skip(point as int + 1);
                    if all_digits(decimals) {
                        digits_value_bound(decimals);
                        power_of_ten_bound(decimals.len());
                    }
                }
                return Err(Error::msg("invalid MRK amount"));
            },
        }
        let part = sum_decimals(bytes, point + 1, end);
        match parse_digits(bytes, 0, point) {
            Some(whole) => {
                match whole.checked_mul(MRK_SCALE) {
                    Some(scaled) => match scaled.checked_add(part) {
                        Some(amount) => Ok(amount),
                        None => Err(Error::msg("invalid MRK amount")),
                    },
                    None => Err(Error::msg("invalid MRK amount")),
                }
            },
            None => {
                proof {
                    let whole = number.take(point as int);
                    assert(digits_value(whole) * MRK_SCALE as nat >= digits_value(whole))
                        by (nonlinear_arith);
                }
                Err(Error::msg("invalid MRK amount"))
            },
        }
    } else {
        proof {
            assert(!number.contains(46u8));
            assert(number.take(point as int) =~= number);
        }
        if end == 0 {
            return Err(Error::msg("invalid MRK amount"));
        }
        match parse_digits(bytes, 0, end) {
            Some(whole) => match whole.checked_mul(MRK_SCALE) {
                Some(amount) => Ok(amount),
                None => Err(Error::msg("invalid MRK amount")),
            },
            None => {
                proof {
                    assert(digits_value(number) * MRK_SCALE as nat >= digits_value(number))
                        by (nonlinear_arith);
                }
                Err(Error::msg("invalid MRK amount"))
            },
        }
    }
}

spec fn ten_to(n: nat) -> nat
    decreases n,
{
    if n == 0 {
        1
    } else {
        10 * ten_to((n - 1) as nat)
    }
}

proof fn digits_value_bound(digits: Seq<u8>)
    requires
        all_digits(digits),
    ensures
        digits_value(digits) < ten_to(digits.len()),
    decreases digits.len(),
{
    if digits.len() > 0 {
        assert(all_digits(digits.drop_last()));
        digits_value_bound(digits.drop_last());
        assert(is_digit(digits[digits.len() - 1]));
    }
}

proof fn power_of_ten_bound(n: nat)
    requires
        n <= 9,
    ensures
        ten_to(n) <= 1_000_000_000,
{
    reveal_with_fuel(ten_to, 10);
}

} // verus!
