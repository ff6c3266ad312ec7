use vstd::prelude::*;
use vstd::string::*;
use vstd::utf8::*;

verus! {

/// Byte strings in dictionary order.
pub open spec fn bytes_lt(a: Seq<u8>, b: Seq<u8>) -> bool
    decreases a.len(),
{
    if b.len() == 0 {
        false
    } else if a.len() == 0 {
        true
    } else if a[0] != b[0] {
        a[0] < b[0]
    } else {
        bytes_lt(a.drop_first(), b.drop_first())
    }
}

/// Texts in dictionary order of their UTF-8 bytes.
pub open spec fn text_lt(a: Seq<char>, b: Seq<char>) -> bool {
    bytes_lt(encode_utf8(a), encode_utf8(b))
}

pub proof fn bytes_lt_irreflexive(a: Seq<u8>)
    ensures
        !bytes_lt(a, a),
    decreases a.len(),
{
    if a.len() > 0 {
        bytes_lt_irreflexive(a.drop_first());
    }
}

pub proof fn bytes_lt_transitive(a: Seq<u8>, b: Seq<u8>, c: Seq<u8>)
    requires
        bytes_lt(a, b),
        bytes_lt(b, c),
    ensures
        bytes_lt(a, c),
    decreases a.len(),
{
    if a.len() > 0 && a[0] == b[0] && b[0] == c[0] {
        bytes_lt_transitive(a.drop_first(), b.drop_first(), c.drop_first());
    }
}

pub proof fn bytes_lt_total(a: Seq<u8>, b: Seq<u8>)
    ensures
        a == b || bytes_lt(a, b) || bytes_lt(b, a),
    decreases a.len(),
{
    if a.len() == 0 {
        if b.len() == 0 {
            assert(a =~= b);
        }
    } else if b.len() > 0 && a[0] == b[0] {
        bytes_lt_total(a.drop_first(), b.drop_first());
        if a.drop_first() == b.drop_first() {
            assert(a =~= seq![a[0]] + a.drop_first());
            assert(b =~= seq![b[0]] + b.drop_first());
        }
    }
}

/// Two texts with the same UTF-8 bytes are the same text.
pub proof fn encode_utf8_injective(a: Seq<char>, b: Seq<char>)
    requires
        encode_utf8(a) == encode_utf8(b),
    ensures
        a == b,
{
    encode_utf8_decode_utf8(a);
    encode_utf8_decode_utf8(b);
}

pub fn bytes_less(a: &[u8], b: &[u8]) -> (r: bool)
    ensures
        r == bytes_lt(a@, b@),
{
    let mut i: usize = 0;
    assert(a@.skip(0) =~= a@);
    assert(b@.skip(0) =~= b@);
    while i < a.len() && i < b.len() && a[i] == b[i]
        invariant
            i <= a@.len(),
            i <= b@.len(),
            bytes_lt(a@, b@) == bytes_lt(a@.skip(i as int), b@.skip(i as int)),
        decreases a@.len() - i,
    {
        assert(a@.skip(i as int).drop_first() =~= a@.skip(i as int + 1));
        assert(b@.skip(i as int).drop_first() =~= b@.skip(i as int + 1));
        i = i + 1;
    }
    if i >= b.len() {
        false
    } else if i >= a.len() {
        true
    } else {
        a[i] < b[i]
    }
}

pub fn bytes_same(a: &[u8], b: &[u8]) -> (r: bool)
    ensures
        r == (a@ == b@),
{
    if a.len() != b.len() {
        return false;
    }
    let mut i: usize = 0;
    while i < a.len()
        invariant
            a@.len() == b@.len(),
            i <= a@.len(),
            forall|j: int| 0 <= j < i ==> a@[j] == b@[j],
        decreases a@.len() - i,
    {
        if a[i] != b[i] {
            return false;
        }
        i = i + 1;
    }
    assert(a@ =~= b@);
    true
}

pub fn text_less(a: &str, b: &str) -> (r: bool)
    ensures
        r == text_lt(a@, b@),
{
    bytes_less(a.as_bytes(), b.as_bytes())
}

pub fn text_same(a: &str, b: &str) -> (r: bool)
    ensures
        r == (a@ == b@),
{
    let r = bytes_same(a.as_bytes(), b.as_bytes());
    proof {
        if r {
            encode_utf8_injective(a@, b@);
        }
    }
    r
}

/// The character that stands for one decimal digit.
pub open spec fn digit_char(digit: nat) -> char {
    if digit == 0 {
        '0'
    } else if digit == 1 {
        '1'
    } else if digit == 2 {
        '2'
    } else if digit == 3 {
        '3'
    } else if digit == 4 {
        '4'
    } else if digit == 5 {
        '5'
    } else if digit == 6 {
        '6'
    } else if digit == 7 {
        '7'
    } else if digit == 8 {
        '8'
    } else {
        '9'
    }
}

/// A number in decimal notation, without leading zeros.
pub open spec fn decimal(n: nat) -> Seq<char>
    decreases n,
{
    if n < 10 {
        seq![digit_char(n)]
    } else {
        decimal(n / 10).push(digit_char(n % 10))
    }
}

/// A signed number in decimal notation.
pub open spec fn signed_decimal(i: int) -> Seq<char> {
    if i < 0 {
        seq!['-'] + decimal((-i) as nat)
    } else {
        decimal(i as nat)
    }
}

fn digit_text(digit: u8) -> (r: &'static str)
    requires
        digit < 10,
    ensures
        r@ == seq![digit_char(digit as nat)],
{
    proof {
        reveal_strlit("0");
        reveal_strlit("1");
        reveal_strlit("2");
        reveal_strlit("3");
        reveal_strlit("4");
        reveal_strlit("5");
        reveal_strlit("6");
        reveal_strlit("7");
        reveal_strlit("8");
        reveal_strlit("9");
    }
    let r: &'static str = if digit == 0 {
        "0"
    } else if digit == 1 {
        "1"
    } else if digit == 2 {
        "2"
    } else if digit == 3 {
        "3"
    } else if digit == 4 {
        "4"
    } else if digit == 5 {
        "5"
    } else if digit == 6 {
        "6"
    } else if digit == 7 {
        "7"
    } else if digit == 8 {
        "8"
    } else {
        "9"
    };
    assert(r@ =~= seq![digit_char(digit as nat)]);
    r
}

pub fn u128_text(n: u128) -> (r: String)
    ensures
        r@ == decimal(n as nat),
    decreases n,
{
    if n < 10 {
        digit_text(n as u8).to_owned()
    } else {
        let mut text = u128_text(n / 10);
        text.append(digit_text((n % 10) as u8));
        assert(text@ =~= decimal((n / 10) as nat).push(digit_char((n % 10) as nat)));
        text
    }
}

pub fn u64_text(n: u64) -> (r: String)
    ensures
        r@ == decimal(n as nat),
{
    u128_text(n as u128)
}

pub fn u32_text(n: u32) -> (r: String)
    ensures
        r@ == decimal(n as nat),
{
    u128_text(n as u128)
}

pub fn usize_text(n: usize) -> (r: String)
    ensures
        r@ == decimal(n as nat),
{
    u128_text(n as u128)
}

pub fn i64_text(n: i64) -> (r: String)
    ensures
        r@ == signed_decimal(n as int),
{
    if n < 0 {
        let magnitude: u128 = (-(n as i128)) as u128;
        let mut text = "-".to_owned();
        proof {
            reveal_strlit("-");
        }
        let digits = u128_text(magnitude);
        text.append(digits.as_str());
        assert(text@ =~= seq!['-'] + decimal(magnitude as nat));
        text
    } else {
        u128_text(n as u128)
    }
}

spec fn ten_to(count: nat) -> nat
    decreases count,
{
    if count == 0 {
        1
    } else {
        10 * ten_to((count - 1) as nat)
    }
}

proof fn digits_bounded(n: nat, count: nat)
    requires
        count >= 1,
        n < ten_to(count),
    ensures
        decimal(n).len() <= count,
    decreases count,
{
    reveal_with_fuel(ten_to, 2);
    if n >= 10 {
        digits_bounded(n / 10, (count - 1) as nat);
    }
}

/// A number of 64 bits takes at most twenty digits.
pub proof fn decimal_is_short(n: nat)
    requires
        n <= u64::MAX,
    ensures
        decimal(n).len() <= 20,
{
    assert(ten_to(20) == 100_000_000_000_000_000_000) by {
        reveal_with_fuel(ten_to, 21);
    }
    digits_bounded(n, 20);
}

/// The parts of a message in a row.
pub fn join2(a: &str, b: &str) -> (r: String)
    ensures
        r@ == a@ + b@,
{
    let mut text = a.to_owned();
    text.append(b);
    text
}

pub fn join3(a: &str, b: &str, c: &str) -> (r: String)
    ensures
        r@ == a@ + b@ + c@,
{
    let mut text = join2(a, b);
    text.append(c);
    text
}

pub fn join4(a: &str, b: &str, c: &str, d: &str) -> (r: String)
    ensures
        r@ == a@ + b@ + c@ + d@,
{
    let mut text = join3(a, b, c);
    text.append(d);
    text
}

pub fn join5(a: &str, b: &str, c: &str, d: &str, e: &str) -> (r: String)
    ensures
        r@ == a@ + b@ + c@ + d@ + e@,
{
    let mut text = join4(a, b, c, d);
    text.append(e);
    text
}

/// Whether a byte is an ASCII digit.
pub open spec fn is_digit(byte: u8) -> bool {
    48 <= byte <= 57
}

/// The number that a row of ASCII digits denotes.
pub open spec fn digits_value(digits: Seq<u8>) -> nat
    decreases digits.len(),
{
    if digits.len() == 0 {
        0
    } else {
        digits_value(digits.drop_last()) * 10 + (digits.last() - 48) as nat
    }
}

pub open spec fn all_digits(digits: Seq<u8>) -> bool {
    forall|i: int| 0 <= i < digits.len() ==> is_digit(#[trigger] digits[i])
}

/// The digits of an unsigned number, after the plus sign that may stand before them.
pub open spec fn unsigned_digits(bytes: Seq<u8>) -> Seq<u8> {
    if bytes.len() > 1 && bytes[0] == 43 {
        bytes.skip(1)
    } else {
        bytes
    }
}

/// The unsigned number that a text denotes, if it denotes one that is at most `max`.
pub open spec fn parsed_unsigned(text: Seq<char>, max: nat) -> Option<nat> {
    let digits = unsigned_digits(encode_utf8(text));
    if digits.len() > 0 && all_digits(digits) && digits_value(digits) <= max {
        Some(digits_value(digits))
    } else {
        None
    }
}

pub proof fn decimal_digits(n: nat)
    ensures
        decimal(n).len() > 0,
        is_ascii_chars(decimal(n)),
        all_digits(encode_utf8(decimal(n))),
        encode_utf8(decimal(n)).len() == decimal(n).len(),
        digits_value(encode_utf8(decimal(n))) == n,
    decreases n,
{
    reveal_with_fuel(digits_value, 2);
    if n < 10 {
        is_ascii_chars_encode_utf8(decimal(n));
        assert(encode_utf8(decimal(n)).drop_last() =~= Seq::<u8>::empty());
    } else {
        decimal_digits(n / 10);
        is_ascii_chars_encode_utf8(decimal(n / 10));
        is_ascii_chars_encode_utf8(decimal(n));
        let bytes = encode_utf8(decimal(n));
        assert(bytes.drop_last() =~= encode_utf8(decimal(n / 10)));
        assert(bytes.last() == 48 + n % 10);
        assert forall|i: int| 0 <= i < bytes.len() implies is_digit(#[trigger] bytes[i]) by {
            if i < bytes.len() - 1 {
                assert(is_digit(bytes.drop_last()[i]));
            }
        }
    }
}

/// A number in decimal notation reads back as that number.
pub proof fn decimal_reads_back(n: nat, max: nat)
    requires
        n <= max,
    ensures
        parsed_unsigned(decimal(n), max) == Some(n),
{
    decimal_digits(n);
    let bytes = encode_utf8(decimal(n));
    assert(is_digit(bytes[0]));
}

proof fn digits_value_monotonic(digits: Seq<u8>, count: int)
    requires
        0 <= count <= digits.len(),
        all_digits(digits),
    ensures
        digits_value(digits.take(count)) <= digits_value(digits),
    decreases digits.len(),
{
    if count == digits.len() {
        assert(digits.take(count) =~= digits);
    } else {
        let shorter = digits.drop_last();
        assert(all_digits(shorter));
        assert(shorter.take(count) =~= digits.take(count));
        digits_value_monotonic(shorter, count);
    }
}

/// Reads the value of the digits that start at `start`.
pub fn parse_digits(bytes: &[u8], start: usize, end: usize) -> (r: Option<u128>)
    requires
        start <= end <= bytes@.len(),
    ensures
        match r {
            Some(value) => all_digits(bytes@.subrange(start as int, end as int)) && value
                == digits_value(bytes@.subrange(start as int, end as int)),
            None => !all_digits(bytes@.subrange(start as int, end as int)) || digits_value(
                bytes@.subrange(start as int, end as int),
            ) > u128::MAX,
        },
{
    let ghost digits = bytes@.subrange(start as int, end as int);
    let mut value: u128 = 0;
    let mut i: usize = start;
    assert(digits.take(0) =~= Seq::<u8>::empty());
    while i < end
        invariant
            start <= i <= end,
            end <= bytes@.len(),
            digits == bytes@.subrange(start as int, end as int),
            all_digits(digits.take(i - start)),
            value == digits_value(digits.take(i - start)),
        decreases end - i,
    {
        let byte: u8 = bytes[i];
        assert(digits[i - start] == byte);
        if byte < 48 || byte > 57 {
            assert(!all_digits(digits));
            return None;
        }
        let ghost taken = digits.take(i - start + 1);
        assert(taken.drop_last() =~= digits.take(i - start));
        assert(taken.last() == byte);
        let digit: u128 = (byte - 48) as u128;
        let next = match value.checked_mul(10) {
            Some(shifted) => shifted.checked_add(digit),
            None => None,
        };
        match next {
            Some(sum) => {
                value = sum;
            },
            None => {
                proof {
                    assert(digits_value(taken) > u128::MAX);
                    if all_digits(digits) {
                        digits_value_monotonic(digits, i - start + 1);
                    }
                }
                return None;
            },
        }
        assert forall|j: int| 0 <= j < taken.len() implies is_digit(#[trigger] taken[j]) by {
            if j < i - start {
                assert(digits.take(i - start)[j] == taken[j]);
            }
        }
        i = i + 1;
    }
    assert(digits.take(end - start) =~= digits);
    Some(value)
}

/// Reads an unsigned number: digits, with a plus sign before them or without.
pub fn parse_u64(text: &str) -> (r: Option<u64>)
    ensures
        r matches Some(value) ==> parsed_unsigned(text@, u64::MAX as nat) == Some(value as nat),
        r is None ==> parsed_unsigned(text@, u64::MAX as nat) is None,
{
    let bytes = text.as_bytes();
    let start: usize = if bytes.len() > 1 && bytes[0] == 43 {
        1
    } else {
        0
    };
    assert(bytes@.subrange(start as int, bytes@.len() as int) =~= unsigned_digits(bytes@));
    if bytes.len() == 0 {
        return None;
    }
    match parse_digits(bytes, start, bytes.len()) {
        Some(value) => if value <= u64::MAX as u128 {
            Some(value as u64)
        } else {
            None
        },
        None => None,
    }
}

/// Reads an unsigned number of up to 128 bits.
pub fn parse_u128(text: &str) -> (r: Option<u128>)
    ensures
        r matches Some(value) ==> parsed_unsigned(text@, u128::MAX as nat) == Some(value as nat),
        r is None ==> parsed_unsigned(text@, u128::MAX as nat) is None,
{
    let bytes = text.as_bytes();
    let start: usize = if bytes.len() > 1 && bytes[0] == 43 {
        1
    } else {
        0
    };
    assert(bytes@.subrange(start as int, bytes@.len() as int) =~= unsigned_digits(bytes@));
    if bytes.len() == 0 {
        return None;
    }
    parse_digits(bytes, start, bytes.len())
}

/// Whether a byte is a lowercase hexadecimal digit.
pub open spec fn is_lower_hex(byte: u8) -> bool {
    48 <= byte <= 57 || 97 <= byte <= 102
}

/// Whether a text is 64 lowercase hexadecimal digits, the notation of 32 bytes.
pub open spec fn is_hex_digest(bytes: Seq<u8>) -> bool {
    bytes.len() == 64 && forall|i: int| 0 <= i < bytes.len() ==> is_lower_hex(#[trigger] bytes[i])
}

pub fn is_hex_digest_at(bytes: &[u8], start: usize) -> (r: bool)
    requires
        start <= bytes@.len(),
    ensures
        r == is_hex_digest(bytes@.skip(start as int)),
{
    if bytes.len() - start != 64 {
        return false;
    }
    let mut i: usize = start;
    while i < bytes.len()
        invariant
            start <= i <= bytes@.len(),
            forall|j: int| start <= j < i ==> is_lower_hex(#[trigger] bytes@[j]),
        decreases bytes@.len() - i,
    {
        let byte: u8 = bytes[i];
        if !((48 <= byte && byte <= 57) || (97 <= byte && byte <= 102)) {
            assert(!is_lower_hex(bytes@.skip(start as int)[i - start]));
            return false;
        }
        i = i + 1;
    }
    true
}

/// Whether a text begins with another.
pub open spec fn has_prefix(text: Seq<u8>, prefix: Seq<u8>) -> bool {
    prefix.len() <= text.len() && text.take(prefix.len() as int) == prefix
}

pub fn bytes_have_prefix(text: &[u8], prefix: &[u8]) -> (r: bool)
    ensures
        r == has_prefix(text@, prefix@),
{
    if prefix.len() > text.len() {
        return false;
    }
    let mut i: usize = 0;
    while i < prefix.len()
        invariant
            prefix@.len() <= text@.len(),
            i <= prefix@.len(),
            forall|j: int| 0 <= j < i ==> text@[j] == prefix@[j],
        decreases prefix@.len() - i,
    {
        if text[i] != prefix[i] {
            assert(text@.take(prefix@.len() as int)[i as int] != prefix@[i as int]);
            return false;
        }
        i = i + 1;
    }
    assert(text@.take(prefix@.len() as int) =~= prefix@);
    true
}

pub fn text_has_prefix(text: &str, prefix: &str) -> (r: bool)
    ensures
        r == has_prefix(encode_utf8(text@), encode_utf8(prefix@)),
{
    bytes_have_prefix(text.as_bytes(), prefix.as_bytes())
}

/// Whether a character is white space in the sense of Unicode.
pub open spec fn is_white_space(c: char) -> bool {
    let code = c as u32;
    9 <= code <= 13 || code == 0x20 || code == 0x85 || code == 0xA0 || code == 0x1680 || 0x2000
        <= code <= 0x200A || code == 0x2028 || code == 0x2029 || code == 0x202F || code == 0x205F
        || code == 0x3000
}

/// A text without the white space at its start.
pub open spec fn trimmed_start(text: Seq<char>) -> Seq<char>
    decreases text.len(),
{
    if text.len() > 0 && is_white_space(text[0]) {
        trimmed_start(text.drop_first())
    } else {
        text
    }
}

/// A text without the white space at its end.
pub open spec fn trimmed_end(text: Seq<char>) -> Seq<char>
    decreases text.len(),
{
    if text.len() > 0 && is_white_space(text.last()) {
        trimmed_end(text.drop_last())
    } else {
        text
    }
}

/// A text without the white space around it.
pub open spec fn trimmed(text: Seq<char>) -> Seq<char> {
    trimmed_end(trimmed_start(text))
}

fn check_white_space(c: char) -> (r: bool)
    ensures
        r == is_white_space(c),
{
    let code: u32 = c as u32;
    9 <= code && code <= 13 || code == 0x20 || code == 0x85 || code == 0xA0 || code == 0x1680
        || 0x2000 <= code && code <= 0x200A || code == 0x2028 || code == 0x2029 || code == 0x202F
        || code == 0x205F || code == 0x3000
}

/// Takes the white space around a text off.
pub fn trim_text(text: &str) -> (r: String)
    ensures
        r@ == trimmed(text@),
{
    let count: usize = text.unicode_len();
    let mut start: usize = 0;
    assert(text@.skip(0) =~= text@);
    while start < count && check_white_space(text.get_char(start))
        invariant
            start <= count,
            count == text@.len(),
            trimmed_start(text@) == trimmed_start(text@.skip(start as int)),
        decreases count - start,
    {
        assert(text@.skip(start as int).drop_first() =~= text@.skip(start + 1));
        start = start + 1;
    }
    let ghost rest = text@.skip(start as int);
    let mut end: usize = count;
    assert(trimmed_start(text@) == rest);
    assert(text@.subrange(start as int, count as int) =~= rest);
    while end > start && check_white_space(text.get_char(end - 1))
        invariant
            start <= end <= count,
            count == text@.len(),
            trimmed_end(rest) == trimmed_end(text@.subrange(start as int, end as int)),
        decreases end,
    {
        assert(text@.subrange(start as int, end as int).drop_last() =~= text@.subrange(
            start as int,
            end - 1,
        ));
        end = end - 1;
    }
    text.substring_char(start, end).to_owned()
}

/// Dictionary order is an order of all texts.
pub proof fn texts_are_in_order(a: Seq<char>, b: Seq<char>, c: Seq<char>)
    ensures
        !text_lt(a, a),
        text_lt(a, b) ==> !text_lt(b, a),
        text_lt(a, b) && text_lt(b, c) ==> text_lt(a, c),
        a == b || text_lt(a, b) || text_lt(b, a),
{
    let (x, y, z) = (encode_utf8(a), encode_utf8(b), encode_utf8(c));
    bytes_lt_irreflexive(x);
    if bytes_lt(x, y) && bytes_lt(y, x) {
        bytes_lt_transitive(x, y, x);
    }
    if bytes_lt(x, y) && bytes_lt(y, z) {
        bytes_lt_transitive(x, y, z);
    }
    bytes_lt_total(x, y);
    if x == y {
        encode_utf8_injective(a, b);
    }
}

} // verus!
