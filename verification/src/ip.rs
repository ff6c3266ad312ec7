use vstd::prelude::*;
use vstd::string::*;
use vstd::utf8::*;

use crate::crypto::{hex_number, hex_u16};
use crate::error::{Error, Outcome, Result};
use crate::table::Replicate;
use crate::text::{all_digits, decimal, digits_value, is_digit, join2, join3, text_same, u32_text};

verus! {

/// An address of the Internet.
#[derive(Clone, Copy, Debug, PartialEq, Eq, Structural)]
pub enum IpAddress {
    V4(u8, u8, u8, u8),
    V6(u16, u16, u16, u16, u16, u16, u16, u16),
}

impl DeepView for IpAddress {
    type V = IpAddress;

    open spec fn deep_view(&self) -> IpAddress {
        *self
    }
}

impl Replicate for IpAddress {
    fn replicate(&self) -> (r: IpAddress) {
        *self
    }
}

/// One of the four parts of an address in dotted notation: a number up to 255 without leading
/// zeros.
pub open spec fn octet(text: Seq<u8>) -> Option<u8> {
    if 1 <= text.len() <= 3 && all_digits(text) && (text[0] == 48 ==> text.len() == 1)
        && digits_value(text) <= 255 {
        Some(digits_value(text) as u8)
    } else {
        None
    }
}

/// The octets that stand between dots.
pub open spec fn octets(text: Seq<u8>) -> Option<Seq<u8>>
    decreases text.len(),
{
    if text.contains(46u8) {
        let point = text.index_of_first(46u8).unwrap();
        if 0 <= point < text.len() {
            match octet(text.take(point)) {
                None => None,
                Some(first) => match octets(text.skip(point + 1)) {
                    None => None,
                    Some(rest) => Some(seq![first] + rest),
                },
            }
        } else {
            None
        }
    } else {
        match octet(text) {
            None => None,
            Some(last) => Some(seq![last]),
        }
    }
}

/// The address that a text in dotted notation stands for.
pub open spec fn ipv4_read(text: Seq<u8>) -> Option<(u8, u8, u8, u8)> {
    match octets(text) {
        None => None,
        Some(parts) => if parts.len() == 4 {
            Some((parts[0], parts[1], parts[2], parts[3]))
        } else {
            None
        },
    }
}

/// What a hexadecimal digit stands for.
pub open spec fn hex_digit(byte: u8) -> Option<nat> {
    if 48 <= byte <= 57 {
        Some((byte - 48) as nat)
    } else if 97 <= byte <= 102 {
        Some((byte - 87) as nat)
    } else if 65 <= byte <= 70 {
        Some((byte - 55) as nat)
    } else {
        None
    }
}

/// The number that some hexadecimal digits stand for.
pub open spec fn hex_value(text: Seq<u8>) -> nat
    decreases text.len(),
{
    if text.len() == 0 {
        0
    } else {
        hex_value(text.drop_last()) * 16 + match hex_digit(text.last()) {
            Some(digit) => digit,
            None => 0,
        }
    }
}

/// One of the eight parts of an address in colon notation: one to four hexadecimal digits.
pub open spec fn hex_group(text: Seq<u8>) -> Option<u16> {
    if 1 <= text.len() <= 4 && forall|i: int|
        0 <= i < text.len() ==> hex_digit(#[trigger] text[i]) is Some {
        Some(hex_value(text) as u16)
    } else {
        None
    }
}

/// The last part of an address in colon notation: a group, or where it is allowed an address in
/// dotted notation that stands for two.
pub open spec fn last_groups(text: Seq<u8>, dotted: bool) -> Option<Seq<u16>> {
    match hex_group(text) {
        Some(group) => Some(seq![group]),
        None => if !dotted {
            None
        } else {
            match ipv4_read(text) {
                None => None,
                Some(parts) => Some(
                    seq![
                        (parts.0 * 256 + parts.1) as u16,
                        (parts.2 * 256 + parts.3) as u16,
                    ],
                ),
            }
        },
    }
}

/// The groups that stand between colons.
pub open spec fn groups(text: Seq<u8>, dotted: bool) -> Option<Seq<u16>>
    decreases text.len(),
{
    if text.contains(58u8) {
        let colon = text.index_of_first(58u8).unwrap();
        if 0 <= colon < text.len() {
            match hex_group(text.take(colon)) {
                None => None,
                Some(first) => match groups(text.skip(colon + 1), dotted) {
                    None => None,
                    Some(rest) => Some(seq![first] + rest),
                },
            }
        } else {
            None
        }
    } else {
        last_groups(text, dotted)
    }
}

/// The groups on one side of a gap, of which there may be none.
pub open spec fn side_groups(text: Seq<u8>, dotted: bool) -> Option<Seq<u16>> {
    if text.len() == 0 {
        Some(Seq::empty())
    } else {
        groups(text, dotted)
    }
}

/// Where two colons in a row first stand.
pub open spec fn gap_at(text: Seq<u8>, at: int) -> bool {
    &&& 0 <= at && at + 1 < text.len() && text[at] == 58 && text[at + 1] == 58
    &&& forall|i: int| 0 <= i < at ==> !(#[trigger] text[i] == 58 && text[i + 1] == 58)
}

/// The eight groups that a text in colon notation stands for. A gap stands for one or more zeros.
pub open spec fn ipv6_groups(text: Seq<u8>) -> Option<Seq<u16>> {
    if exists|at: int| gap_at(text, at) {
        let at = choose|at: int| gap_at(text, at);
        match side_groups(text.take(at), false) {
            None => None,
            Some(head) => match side_groups(text.skip(at + 2), true) {
                None => None,
                Some(tail) => if head.len() + tail.len() <= 7 {
                    Some(head + Seq::new((8 - head.len() - tail.len()) as nat, |i: int| 0u16) + tail)
                } else {
                    None
                },
            },
        }
    } else {
        match groups(text, true) {
            None => None,
            Some(all) => if all.len() == 8 {
                Some(all)
            } else {
                None
            },
        }
    }
}

/// The address with eight groups.
pub open spec fn ipv6_of(all: Seq<u16>) -> IpAddress {
    IpAddress::V6(all[0], all[1], all[2], all[3], all[4], all[5], all[6], all[7])
}

/// The address that a text stands for.
pub open spec fn ip_read(text: Seq<char>) -> Option<IpAddress> {
    let bytes = encode_utf8(text);
    match ipv4_read(bytes) {
        Some(parts) => Some(IpAddress::V4(parts.0, parts.1, parts.2, parts.3)),
        None => match ipv6_groups(bytes) {
            Some(all) => Some(ipv6_of(all)),
            None => None,
        },
    }
}

fn read_octet(bytes: &[u8], start: usize, end: usize) -> (r: Option<u8>)
    requires
        start <= end <= bytes@.len(),
    ensures
        r == octet(bytes@.subrange(start as int, end as int)),
{
    let ghost text = bytes@.subrange(start as int, end as int);
    if end - start < 1 || end - start > 3 {
        return None;
    }
    if bytes[start] == 48 && end - start > 1 {
        assert(text[0] == 48);
        return None;
    }
    let mut value: u32 = 0;
    let mut i: usize = start;
    assert(text.take(0) =~= Seq::<u8>::empty());
    while i < end
        invariant
            start <= i <= end <= bytes@.len(),
            end - start <= 3,
            text == bytes@.subrange(start as int, end as int),
            value == digits_value(text.take(i - start)),
            value <= if i - start == 0 { 0 as int } else if i - start == 1 { 9 } else if i - start == 2 { 99 } else { 999 },
            forall|j: int| 0 <= j < i - start ==> is_digit(#[trigger] text[j]),
        decreases end - i,
    {
        let byte: u8 = bytes[i];
        assert(text[i - start] == byte);
        if byte < 48 || byte > 57 {
            assert(!is_digit(text[i - start]));
            return None;
        }
        assert(text.take(i - start + 1).drop_last() =~= text.take(i - start));
        value = value * 10 + (byte - 48) as u32;
        i = i + 1;
    }
    assert(text.take(end - start) =~= text);
    if value > 255 {
        return None;
    }
    Some(value as u8)
}

/// Where a byte first stands in a part of a text, or the end of the part.
fn find_byte(bytes: &[u8], start: usize, end: usize, wanted: u8) -> (r: usize)
    requires
        start <= end <= bytes@.len(),
    ensures
        start <= r <= end,
        ({
            let text = bytes@.subrange(start as int, end as int);
            &&& r < end ==> text.contains(wanted) && text.index_of_first(wanted) == Some(r - start)
            &&& r == end ==> !text.contains(wanted)
        }),
{
    let ghost text = bytes@.subrange(start as int, end as int);
    let mut i: usize = start;
    while i < end && bytes[i] != wanted
        invariant
            start <= i <= end <= bytes@.len(),
            text == bytes@.subrange(start as int, end as int),
            forall|j: int| 0 <= j < i - start ==> #[trigger] text[j] != wanted,
        decreases end - i,
    {
        assert(text[i - start] == bytes@[i as int]);
        i = i + 1;
    }
    proof {
        if i < end {
            assert(text[i - start] == wanted);
            text.index_of_first_ensures(wanted);
            let found = text.index_of_first(wanted).unwrap();
            assert(text[found] == wanted);
            assert(found == i - start);
        }
    }
    i
}

fn read_octets(bytes: &[u8], start: usize, end: usize) -> (r: Option<Vec<u8>>)
    requires
        start <= end <= bytes@.len(),
    ensures
        match octets(bytes@.subrange(start as int, end as int)) {
            None => r is None,
            Some(parts) => r matches Some(found) && found@ == parts,
        },
{
    let ghost whole = bytes@.subrange(start as int, end as int);
    let mut out: Vec<u8> = Vec::new();
    let mut from: usize = start;
    loop
        invariant
            start <= from <= end <= bytes@.len(),
            whole == bytes@.subrange(start as int, end as int),
            octets(whole) == match octets(bytes@.subrange(from as int, end as int)) {
                None => None::<Seq<u8>>,
                Some(rest) => Some(out@ + rest),
            },
        decreases end - from,
    {
        let ghost text = bytes@.subrange(from as int, end as int);
        let ghost before = out@;
        let point = find_byte(bytes, from, end, 46);
        if point == end {
            return match read_octet(bytes, from, end) {
                None => None,
                Some(last) => {
                    out.push(last);
                    assert(out@ =~= before + seq![last]);
                    Some(out)
                },
            };
        }
        assert(text.take(point - from) =~= bytes@.subrange(from as int, point as int));
        assert(text.skip(point - from + 1) =~= bytes@.subrange(point + 1, end as int));
        match read_octet(bytes, from, point) {
            None => {
                return None;
            },
            Some(first) => {
                out.push(first);
                proof {
                    if let Some(rest) = octets(bytes@.subrange(point + 1, end as int)) {
                        assert(before + (seq![first] + rest) =~= out@ + rest);
                    }
                }
            },
        }
        from = point + 1;
    }
}

fn read_ipv4(bytes: &[u8], start: usize, end: usize) -> (r: Option<(u8, u8, u8, u8)>)
    requires
        start <= end <= bytes@.len(),
    ensures
        r == ipv4_read(bytes@.subrange(start as int, end as int)),
{
    match read_octets(bytes, start, end) {
        None => None,
        Some(parts) => {
            if parts.len() == 4 {
                Some((parts[0], parts[1], parts[2], parts[3]))
            } else {
                None
            }
        },
    }
}

fn read_hex_digit(byte: u8) -> (r: Option<u16>)
    ensures
        match hex_digit(byte) {
            Some(digit) => r matches Some(value) && value == digit && value < 16,
            None => r is None,
        },
{
    if 48 <= byte && byte <= 57 {
        Some((byte - 48) as u16)
    } else if 97 <= byte && byte <= 102 {
        Some((byte - 87) as u16)
    } else if 65 <= byte && byte <= 70 {
        Some((byte - 55) as u16)
    } else {
        None
    }
}

fn read_hex_group(bytes: &[u8], start: usize, end: usize) -> (r: Option<u16>)
    requires
        start <= end <= bytes@.len(),
    ensures
        r == hex_group(bytes@.subrange(start as int, end as int)),
{
    let ghost text = bytes@.subrange(start as int, end as int);
    if end - start < 1 || end - start > 4 {
        return None;
    }
    let mut value: u32 = 0;
    let mut i: usize = start;
    assert(text.take(0) =~= Seq::<u8>::empty());
    while i < end
        invariant
            start <= i <= end <= bytes@.len(),
            end - start <= 4,
            text == bytes@.subrange(start as int, end as int),
            value == hex_value(text.take(i - start)),
            value <= if i - start == 0 { 0 as int } else if i - start == 1 { 0xf } else if i - start == 2 { 0xff } else if i - start == 3 { 0xfff } else { 0xffff },
            forall|j: int| 0 <= j < i - start ==> hex_digit(#[trigger] text[j]) is Some,
        decreases end - i,
    {
        assert(text[i - start] == bytes@[i as int]);
        assert(text.take(i - start + 1).drop_last() =~= text.take(i - start));
        match read_hex_digit(bytes[i]) {
            None => {
                assert(hex_digit(text[i - start]) is None);
                return None;
            },
            Some(digit) => {
                value = value * 16 + digit as u32;
            },
        }
        i = i + 1;
    }
    assert(text.take(end - start) =~= text);
    Some(value as u16)
}

fn read_groups(bytes: &[u8], start: usize, end: usize, dotted: bool) -> (r: Option<Vec<u16>>)
    requires
        start <= end <= bytes@.len(),
    ensures
        match groups(bytes@.subrange(start as int, end as int), dotted) {
            None => r is None,
            Some(all) => r matches Some(found) && found@ == all,
        },
{
    let ghost whole = bytes@.subrange(start as int, end as int);
    let mut out: Vec<u16> = Vec::new();
    let mut from: usize = start;
    loop
        invariant
            start <= from <= end <= bytes@.len(),
            whole == bytes@.subrange(start as int, end as int),
            groups(whole, dotted) == match groups(
                bytes@.subrange(from as int, end as int),
                dotted,
            ) {
                None => None::<Seq<u16>>,
                Some(rest) => Some(out@ + rest),
            },
        decreases end - from,
    {
        let ghost text = bytes@.subrange(from as int, end as int);
        let ghost before = out@;
        let colon = find_byte(bytes, from, end, 58);
        if colon == end {
            if let Some(group) = read_hex_group(bytes, from, end) {
                out.push(group);
                assert(out@ =~= before + seq![group]);
                return Some(out);
            }
            if !dotted {
                return None;
            }
            return match read_ipv4(bytes, from, end) {
                None => None,
                Some(parts) => {
                    let high: u16 = parts.0 as u16 * 256 + parts.1 as u16;
                    let low: u16 = parts.2 as u16 * 256 + parts.3 as u16;
                    out.push(high);
                    out.push(low);
                    assert(out@ =~= before + seq![high, low]);
                    Some(out)
                },
            };
        }
        assert(text.take(colon - from) =~= bytes@.subrange(from as int, colon as int));
        assert(text.skip(colon - from + 1) =~= bytes@.subrange(colon + 1, end as int));
        match read_hex_group(bytes, from, colon) {
            None => {
                return None;
            },
            Some(first) => {
                out.push(first);
                proof {
                    if let Some(rest) = groups(bytes@.subrange(colon + 1, end as int), dotted) {
                        assert(before + (seq![first] + rest) =~= out@ + rest);
                    }
                }
            },
        }
        from = colon + 1;
    }
}

fn read_side(bytes: &[u8], start: usize, end: usize, dotted: bool) -> (r: Option<Vec<u16>>)
    requires
        start <= end <= bytes@.len(),
    ensures
        match side_groups(bytes@.subrange(start as int, end as int), dotted) {
            None => r is None,
            Some(all) => r matches Some(found) && found@ == all,
        },
{
    if start == end {
        let none: Vec<u16> = Vec::new();
        assert(none@ =~= Seq::<u16>::empty());
        return Some(none);
    }
    read_groups(bytes, start, end, dotted)
}

fn find_gap(bytes: &[u8]) -> (r: Option<usize>)
    ensures
        match r {
            Some(at) => gap_at(bytes@, at as int),
            None => forall|at: int| !gap_at(bytes@, at),
        },
{
    let mut i: usize = 0;
    while i < bytes.len() && i + 1 < bytes.len()
        invariant
            i <= bytes@.len(),
            forall|j: int| 0 <= j < i ==> !(#[trigger] bytes@[j] == 58 && bytes@[j + 1] == 58),
        decreases bytes@.len() - i,
    {
        if bytes[i] == 58 && bytes[i + 1] == 58 {
            return Some(i);
        }
        i = i + 1;
    }
    None
}

proof fn gap_is_unique(text: Seq<u8>, a: int, b: int)
    requires
        gap_at(text, a),
        gap_at(text, b),
    ensures
        a == b,
{
    if a < b {
        assert(text[a] == 58 && text[a + 1] == 58);
    }
    if b < a {
        assert(text[b] == 58 && text[b + 1] == 58);
    }
}

fn read_ipv6(bytes: &[u8]) -> (r: Option<IpAddress>)
    ensures
        match ipv6_groups(bytes@) {
            None => r is None,
            Some(all) => r == Some(ipv6_of(all)),
        },
{
    assert(bytes@.subrange(0, bytes@.len() as int) =~= bytes@);
    match find_gap(bytes) {
        None => match read_groups(bytes, 0, bytes.len(), true) {
            None => None,
            Some(all) => {
                if all.len() != 8 {
                    return None;
                }
                Some(
                    IpAddress::V6(
                        all[0],
                        all[1],
                        all[2],
                        all[3],
                        all[4],
                        all[5],
                        all[6],
                        all[7],
                    ),
                )
            },
        },
        Some(at) => {
            proof {
                let other = choose|other: int| gap_at(bytes@, other);
                gap_is_unique(bytes@, at as int, other);
                assert(bytes@.take(at as int) =~= bytes@.subrange(0, at as int));
                assert(bytes@.skip(at + 2) =~= bytes@.subrange(at + 2, bytes@.len() as int));
            }
            let mut all = match read_side(bytes, 0, at, false) {
                None => {
                    return None;
                },
                Some(head) => head,
            };
            let end: usize = bytes.len();
            let tail = match read_side(bytes, at + 2, end, true) {
                None => {
                    return None;
                },
                Some(tail) => tail,
            };
            if all.len() > 7 || tail.len() > 7 - all.len() {
                return None;
            }
            let ghost head = all@;
            let gap: usize = 8 - all.len() - tail.len();
            let mut i: usize = 0;
            while i < gap
                invariant
                    i <= gap,
                    gap <= 8,
                    all@ == head + Seq::new(i as nat, |j: int| 0u16),
                decreases gap - i,
            {
                all.push(0);
                i = i + 1;
                assert(all@ =~= head + Seq::new(i as nat, |j: int| 0u16));
            }
            let mut j: usize = 0;
            while j < tail.len()
                invariant
                    j <= tail@.len(),
                    all@ == head + Seq::new(gap as nat, |j: int| 0u16) + tail@.take(j as int),
                decreases tail@.len() - j,
            {
                all.push(tail[j]);
                j = j + 1;
                assert(all@ =~= head + Seq::new(gap as nat, |j: int| 0u16) + tail@.take(j as int));
            }
            assert(tail@.take(tail@.len() as int) =~= tail@);
            Some(
                IpAddress::V6(all[0], all[1], all[2], all[3], all[4], all[5], all[6], all[7]),
            )
        },
    }
}

/// Reads an address.
pub fn parse_ip(text: &str) -> (r: Option<IpAddress>)
    ensures
        r == ip_read(text@),
{
    let bytes = text.as_bytes();
    assert(bytes@.subrange(0, bytes@.len() as int) =~= bytes@);
    match read_ipv4(bytes, 0, bytes.len()) {
        Some(parts) => Some(IpAddress::V4(parts.0, parts.1, parts.2, parts.3)),
        None => read_ipv6(bytes),
    }
}

/// Whether an address can be reached from anywhere.
pub open spec fn is_public(ip: IpAddress) -> bool {
    match ip {
        IpAddress::V4(a, b, c, d) => {
            &&& 0 < a < 224 && a != 10 && a != 127
            &&& !(a == 100 && 64 <= b <= 127)
            &&& !(a == 169 && b == 254)
            &&& !(a == 172 && 16 <= b <= 31)
            &&& !(a == 192 && b == 168)
            &&& !(a == 192 && b == 0 && (c == 0 || c == 2))
            &&& !(a == 198 && (b == 18 || b == 19))
            &&& !(a == 198 && b == 51 && c == 100)
            &&& !(a == 203 && b == 0 && c == 113)
        },
        IpAddress::V6(a, b, c, d, e, f, g, h) => {
            0x2000 <= a <= 0x3fff && !(a == 0x2001 && b == 0x0db8)
        },
    }
}

/// Tells whether an address can be reached from anywhere.
pub fn is_public_ip(ip: IpAddress) -> (r: bool)
    ensures
        r == is_public(ip),
{
    match ip {
        IpAddress::V4(a, b, c, _) => {
            !(a == 0 || a >= 224 || a == 10 || a == 127 || (a == 100 && 64 <= b && b <= 127) || (a
                == 169 && b == 254) || (a == 172 && 16 <= b && b <= 31) || (a == 192 && b == 168)
                || (a == 192 && b == 0 && c == 0) || (a == 192 && b == 0 && c == 2) || (a == 198
                && (b == 18 || b == 19)) || (a == 198 && b == 51 && c == 100) || (a == 203 && b
                == 0 && c == 113))
        },
        IpAddress::V6(a, b, _, _, _, _, _, _) => {
            0x2000 <= a && a <= 0x3fff && !(a == 0x2001 && b == 0x0db8)
        },
    }
}

/// Four numbers in dotted notation.
pub open spec fn dotted(a: u8, b: u8, c: u8, d: u8) -> Seq<char> {
    decimal(a as nat) + "."@ + decimal(b as nat) + "."@ + decimal(c as nat) + "."@ + decimal(
        d as nat,
    )
}

/// The slot of an address: the address itself, or the network of 64 bits that it is in.
pub open spec fn slot_of(ip: IpAddress) -> Seq<char> {
    match ip {
        IpAddress::V4(a, b, c, d) => "v4:"@ + dotted(a, b, c, d),
        IpAddress::V6(a, b, c, d, e, f, g, h) => "v6:"@ + hex_number(a as nat) + ":"@ + hex_number(
            b as nat,
        ) + ":"@ + hex_number(c as nat) + ":"@ + hex_number(d as nat) + "::/64"@,
    }
}

fn write_dotted(a: u8, b: u8, c: u8, d: u8) -> (r: String)
    ensures
        r@ == dotted(a, b, c, d),
{
    let mut text = u32_text(a as u32);
    text.append(".");
    text.append(u32_text(b as u32).as_str());
    text.append(".");
    text.append(u32_text(c as u32).as_str());
    text.append(".");
    text.append(u32_text(d as u32).as_str());
    text
}

/// Names the slot of an address.
pub fn ip_slot(ip: IpAddress) -> (r: String)
    ensures
        r@ == slot_of(ip),
{
    match ip {
        IpAddress::V4(a, b, c, d) => join2("v4:", write_dotted(a, b, c, d).as_str()),
        IpAddress::V6(a, b, c, d, _, _, _, _) => {
            let mut text = join2("v6:", hex_u16(a).as_str());
            text.append(":");
            text.append(hex_u16(b).as_str());
            text.append(":");
            text.append(hex_u16(c).as_str());
            text.append(":");
            text.append(hex_u16(d).as_str());
            text.append("::/64");
            text
        },
    }
}

/// Addresses of one network of 64 bits share a slot.
pub proof fn ipv6_network_shares_a_slot(
    a: u16,
    b: u16,
    c: u16,
    d: u16,
    one: (u16, u16, u16, u16),
    other: (u16, u16, u16, u16),
)
    ensures
        slot_of(IpAddress::V6(a, b, c, d, one.0, one.1, one.2, one.3)) == slot_of(
            IpAddress::V6(a, b, c, d, other.0, other.1, other.2, other.3),
        ),
{
}

/// The eight groups of an address.
pub open spec fn segments(ip: IpAddress) -> Seq<u16> {
    match ip {
        IpAddress::V4(_, _, _, _) => Seq::empty(),
        IpAddress::V6(a, b, c, d, e, f, g, h) => seq![a, b, c, d, e, f, g, h],
    }
}

/// How many zeros in a row stand from a place on.
pub open spec fn zeros_from(all: Seq<u16>, at: int) -> nat
    decreases all.len() - at,
{
    if 0 <= at < all.len() && all[at] == 0 {
        1 + zeros_from(all, at + 1)
    } else {
        0
    }
}

/// Where the longest row of zeros begins among the first places, the first of equals.
pub open spec fn longest_zeros(all: Seq<u16>, count: nat) -> int
    decreases count,
{
    if count <= 1 {
        0
    } else {
        let earlier = longest_zeros(all, (count - 1) as nat);
        if zeros_from(all, count - 1) > zeros_from(all, earlier) {
            count - 1
        } else {
            earlier
        }
    }
}

/// Groups with colons between them.
pub open spec fn colon_text(all: Seq<u16>) -> Seq<char>
    decreases all.len(),
{
    if all.len() == 0 {
        Seq::empty()
    } else if all.len() == 1 {
        hex_number(all[0] as nat)
    } else {
        colon_text(all.drop_last()) + ":"@ + hex_number(all.last() as nat)
    }
}

/// An address as it is written. The longest row of two or more zeros is left out.
pub open spec fn ip_text(ip: IpAddress) -> Seq<char> {
    match ip {
        IpAddress::V4(a, b, c, d) => dotted(a, b, c, d),
        IpAddress::V6(a, b, c, d, e, f, g, h) => {
            let all = segments(ip);
            let at = longest_zeros(all, 8);
            let run = zeros_from(all, at);
            if a == 0 && b == 0 && c == 0 && d == 0 && e == 0 && f == 0xffff {
                "::ffff:"@ + dotted((g / 256) as u8, (g % 256) as u8, (h / 256) as u8, (h % 256) as u8)
            } else if run > 1 {
                colon_text(all.take(at)) + "::"@ + colon_text(all.skip(at + run))
            } else {
                colon_text(all)
            }
        },
    }
}

proof fn zeros_within(all: Seq<u16>, at: int)
    requires
        0 <= at <= all.len(),
    ensures
        at + zeros_from(all, at) <= all.len(),
    decreases all.len() - at,
{
    if at < all.len() && all[at] == 0 {
        zeros_within(all, at + 1);
    }
}

fn count_zeros(all: &Vec<u16>, at: usize) -> (r: usize)
    requires
        at <= all@.len(),
    ensures
        r == zeros_from(all@, at as int),
        at + r <= all@.len(),
    decreases all@.len() - at,
{
    if at < all.len() && all[at] == 0 {
        count_zeros(all, at + 1) + 1
    } else {
        0
    }
}

fn write_groups(all: &Vec<u16>, start: usize, end: usize) -> (r: String)
    requires
        start <= end <= all@.len(),
    ensures
        r@ == colon_text(all@.subrange(start as int, end as int)),
{
    let mut text = "".to_owned();
    proof {
        reveal_strlit("");
        assert(""@ =~= Seq::<char>::empty());
    }
    assert(all@.subrange(start as int, start as int) =~= Seq::<u16>::empty());
    let mut i: usize = start;
    while i < end
        invariant
            start <= i <= end <= all@.len(),
            text@ == colon_text(all@.subrange(start as int, i as int)),
        decreases end - i,
    {
        assert(all@.subrange(start as int, i + 1).drop_last() =~= all@.subrange(
            start as int,
            i as int,
        ));
        if i > start {
            text.append(":");
        }
        text.append(hex_u16(all[i]).as_str());
        proof {
            if i == start {
                assert(text@ =~= hex_number(all@[i as int] as nat));
            }
        }
        i = i + 1;
    }
    text
}

/// Writes an address.
pub fn write_ip(ip: IpAddress) -> (r: String)
    ensures
        r@ == ip_text(ip),
{
    match ip {
        IpAddress::V4(a, b, c, d) => write_dotted(a, b, c, d),
        IpAddress::V6(a, b, c, d, e, f, g, h) => {
            if a == 0 && b == 0 && c == 0 && d == 0 && e == 0 && f == 0xffff {
                return join2(
                    "::ffff:",
                    write_dotted(
                        (g / 256) as u8,
                        (g % 256) as u8,
                        (h / 256) as u8,
                        (h % 256) as u8,
                    ).as_str(),
                );
            }
            let mut all: Vec<u16> = Vec::new();
            all.push(a);
            all.push(b);
            all.push(c);
            all.push(d);
            all.push(e);
            all.push(f);
            all.push(g);
            all.push(h);
            assert(all@ =~= segments(ip));
            let mut at: usize = 0;
            let mut run: usize = count_zeros(&all, 0);
            let mut i: usize = 1;
            while i < 8
                invariant
                    1 <= i <= 8,
                    at < i,
                    all@.len() == 8,
                    at == longest_zeros(all@, i as nat),
                    run == zeros_from(all@, at as int),
                    at + run <= 8,
                decreases 8 - i,
            {
                let here: usize = count_zeros(&all, i);
                if here > run {
                    at = i;
                    run = here;
                }
                i = i + 1;
            }
            if run > 1 {
                assert(all@.take(at as int) =~= all@.subrange(0, at as int));
                assert(all@.skip(at + run) =~= all@.subrange(at + run, 8));
                join3(
                    write_groups(&all, 0, at).as_str(),
                    "::",
                    write_groups(&all, at + run, 8).as_str(),
                )
            } else {
                assert(all@.subrange(0, 8) =~= all@);
                write_groups(&all, 0, 8)
            }
        },
    }
}

/// The slot of a public address, if it is the one that was declared.
pub open spec fn reward_slot(reward_ip: Seq<char>, declared: Seq<char>) -> Outcome<Seq<char>> {
    match ip_read(reward_ip) {
        None => Err("registered reward IP is invalid"@),
        Some(ip) => if !is_public(ip) {
            Err("registered reward IP must be a globally routable public address"@)
        } else if declared != slot_of(ip) {
            Err("registered IP slot does not match reward IP"@)
        } else {
            Ok(declared)
        },
    }
}

/// Checks a declared slot against a public address.
pub fn validate_reward_ip_slot(reward_ip: &str, declared_slot: &str) -> (r: Result<String>)
    ensures
        match reward_slot(reward_ip@, declared_slot@) {
            Ok(slot) => r matches Ok(text) && text@ == slot,
            Err(refusal) => r matches Err(error) && error@ == refusal,
        },
{
    match parse_ip(reward_ip) {
        None => Err(Error::msg("registered reward IP is invalid")),
        Some(ip) => {
            if !is_public_ip(ip) {
                return Err(
                    Error::msg("registered reward IP must be a globally routable public address"),
                );
            }
            let expected = ip_slot(ip);
            if !text_same(declared_slot, expected.as_str()) {
                return Err(Error::msg("registered IP slot does not match reward IP"));
            }
            Ok(expected)
        },
    }
}

} // verus!
