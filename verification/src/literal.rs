//! Addresses in text: IPv4 and IPv6 literals, and socket addresses.

use crate::hex::{
    all_hex, hex_value, lemma_hex_value_bound, lemma_pow16_increases, lemma_pow16_of_widths,
    parse_hex, pow16,
};
use crate::net::{IpAddress, SocketAddress};
use crate::text::{
    chars_of, decimal_value, find_mark, first_index, is_decimal_up_to, parse_decimal, split,
    split_fields,
};
use vstd::prelude::*;

verus! {

/// Whether a text is one number of a dotted quad: one to three decimal
/// digits that spell at most 255, with no zero in front of another digit.
pub open spec fn is_octet(digits: Seq<char>) -> bool {
    &&& 1 <= digits.len() <= 3
    &&& is_decimal_up_to(digits, 255)
    &&& digits.len() > 1 ==> digits[0] != '0'
}

/// The IPv4 address that a dotted quad spells, as the integer of its four
/// octets in network order.
pub open spec fn ipv4_bits(text: Seq<char>) -> Option<u32> {
    let fields = split(text, '.');
    if fields.len() == 4 && is_octet(fields[0]) && is_octet(fields[1]) && is_octet(fields[2])
        && is_octet(fields[3]) {
        Some(
            (((decimal_value(fields[0]) * 256 + decimal_value(fields[1])) * 256 + decimal_value(
                fields[2],
            )) * 256 + decimal_value(fields[3])) as u32,
        )
    } else {
        None
    }
}

/// Reads `text[from..to]` as one number of a dotted quad.
fn parse_octet(text: &[char], from: usize, to: usize) -> (r: Option<u8>)
    requires
        from <= to <= text@.len(),
    ensures
        r is Some <==> is_octet(text@.subrange(from as int, to as int)),
        r matches Some(value) ==> value == decimal_value(
            text@.subrange(from as int, to as int),
        ),
{
    let length = to - from;
    if length < 1 || length > 3 {
        return None;
    }
    if length > 1 && text[from] == '0' {
        return None;
    }
    match parse_decimal(text, from, to, 255) {
        Some(value) => Some(value as u8),
        None => None,
    }
}

/// Reads `text[from..to]` as a dotted quad.
fn parse_ipv4(text: &[char], from: usize, to: usize) -> (r: Option<u32>)
    requires
        from <= to <= text@.len(),
    ensures
        r == ipv4_bits(text@.subrange(from as int, to as int)),
{
    let fields = split_fields(text, from, to, '.');
    if fields.len() != 4 {
        return None;
    }
    let first = match parse_octet(text, fields[0].0, fields[0].1) {
        Some(octet) => octet,
        None => {
            return None;
        },
    };
    let second = match parse_octet(text, fields[1].0, fields[1].1) {
        Some(octet) => octet,
        None => {
            return None;
        },
    };
    let third = match parse_octet(text, fields[2].0, fields[2].1) {
        Some(octet) => octet,
        None => {
            return None;
        },
    };
    let fourth = match parse_octet(text, fields[3].0, fields[3].1) {
        Some(octet) => octet,
        None => {
            return None;
        },
    };
    Some(((first as u32 * 256 + second as u32) * 256 + third as u32) * 256 + fourth as u32)
}

/// Whether a text is one group of an IPv6 address: one to four hexadecimal
/// digits.
pub open spec fn is_group(digits: Seq<char>) -> bool {
    &&& 1 <= digits.len() <= 4
    &&& all_hex(digits)
}

/// Whether every field is a group.
pub open spec fn all_groups(fields: Seq<Seq<char>>) -> bool {
    forall|i: int| 0 <= i < fields.len() ==> is_group(#[trigger] fields[i])
}

/// The numbers that groups spell.
pub open spec fn group_values(fields: Seq<Seq<char>>) -> Seq<u16> {
    Seq::new(fields.len(), |i: int| hex_value(fields[i]) as u16)
}

/// The two groups that an IPv4 address fills at the end of an IPv6 address.
pub open spec fn v4_groups(bits: u32) -> Seq<u16> {
    seq![(bits / 0x1_0000) as u16, (bits % 0x1_0000) as u16]
}

/// The groups that a text spells in which colons stand between groups. The
/// empty text spells no group.
pub open spec fn hex_groups(text: Seq<char>) -> Option<Seq<u16>> {
    if text.len() == 0 {
        Some(Seq::empty())
    } else if all_groups(split(text, ':')) {
        Some(group_values(split(text, ':')))
    } else {
        None
    }
}

/// The groups that the end of an IPv6 address spells: as [`hex_groups`],
/// but a dotted quad may stand in the last place, where it fills two
/// groups.
pub open spec fn tail_groups(text: Seq<char>) -> Option<Seq<u16>> {
    let fields = split(text, ':');
    if hex_groups(text) is Some {
        hex_groups(text)
    } else if all_groups(fields.drop_last()) && ipv4_bits(fields.last()) is Some {
        Some(group_values(fields.drop_last()) + v4_groups(ipv4_bits(fields.last())->Some_0))
    } else {
        None
    }
}

/// The place of the first double colon in a text, or the length of the
/// text where it holds none.
pub open spec fn first_gap(text: Seq<char>) -> int
    decreases text.len(),
{
    if text.len() < 2 {
        text.len() as int
    } else if text[0] == ':' && text[1] == ':' {
        0
    } else {
        1 + first_gap(text.drop_first())
    }
}

/// Whether a double colon stands at a place of a text.
pub open spec fn is_gap(text: Seq<char>, at: int) -> bool {
    0 <= at && at + 1 < text.len() && text[at] == ':' && text[at + 1] == ':'
}

/// The integer that groups spell, the first group in the highest place.
pub open spec fn groups_bits(groups: Seq<u16>) -> nat
    decreases groups.len(),
{
    if groups.len() == 0 {
        0
    } else {
        0x1_0000 * groups_bits(groups.drop_last()) + groups.last() as nat
    }
}

/// Groups of zeros.
pub open spec fn zero_groups(count: nat) -> Seq<u16> {
    Seq::new(count, |i: int| 0u16)
}

/// The IPv6 address that a text spells, as the integer of its eight groups
/// in network order. Without a double colon the text holds all eight
/// groups. A double colon stands for the groups of zeros that are missing,
/// at least one; the groups before it are written out, those after it may
/// end in a dotted quad.
pub open spec fn ipv6_bits(text: Seq<char>) -> Option<u128> {
    let gap = first_gap(text);
    if gap >= text.len() {
        match tail_groups(text) {
            Some(groups) => if groups.len() == 8 {
                Some(groups_bits(groups) as u128)
            } else {
                None
            },
            None => None,
        }
    } else {
        match (hex_groups(text.take(gap)), tail_groups(text.skip(gap + 2))) {
            (Some(head), Some(tail)) => if head.len() + tail.len() <= 7 {
                Some(
                    groups_bits(
                        head + zero_groups((8 - head.len() - tail.len()) as nat) + tail,
                    ) as u128,
                )
            } else {
                None
            },
            _ => None,
        }
    }
}

/// A place before which no double colon stands, and which holds one or is
/// the end of the text, is the place of the first double colon.
pub proof fn lemma_first_gap_is(text: Seq<char>, at: int)
    requires
        0 <= at <= text.len(),
        at < text.len() ==> is_gap(text, at),
        forall|i: int| 0 <= i < at ==> !is_gap(text, i),
    ensures
        first_gap(text) == at,
    decreases text.len(),
{
    if text.len() >= 2 && at > 0 {
        let rest = text.drop_first();
        assert(!is_gap(text, 0));
        assert forall|i: int| 0 <= i < at - 1 implies !is_gap(rest, i) by {
            assert(!is_gap(text, i + 1));
        }
        lemma_first_gap_is(rest, at - 1);
    }
}

/// Groups spell an integer below 65536 to the power of their count.
pub proof fn lemma_groups_bits_bound(groups: Seq<u16>)
    ensures
        groups_bits(groups) < pow16(4 * groups.len()),
    decreases groups.len(),
{
    reveal_with_fuel(pow16, 5);
    if groups.len() > 0 {
        lemma_groups_bits_bound(groups.drop_last());
    }
}

/// The place of the first double colon in `text[from..to]`, or `to` where
/// there is none.
fn find_gap(text: &[char], from: usize, to: usize) -> (r: usize)
    requires
        from <= to <= text@.len(),
    ensures
        from <= r <= to,
        r - from == first_gap(text@.subrange(from as int, to as int)),
        r < to ==> is_gap(text@.subrange(from as int, to as int), r - from),
{
    let ghost part = text@.subrange(from as int, to as int);
    let mut at: usize = from;
    while at < to
        invariant
            from <= at <= to <= text@.len(),
            part == text@.subrange(from as int, to as int),
            forall|i: int| 0 <= i < at - from ==> !is_gap(part, i),
        decreases to - at,
    {
        if at + 1 < to && text[at] == ':' && text[at + 1] == ':' {
            proof {
                lemma_first_gap_is(part, at - from);
            }
            return at;
        }
        at = at + 1;
    }
    proof {
        lemma_first_gap_is(part, part.len() as int);
    }
    to
}

/// Reads `text[from..to]` as one group of an IPv6 address.
fn parse_group(text: &[char], from: usize, to: usize) -> (r: Option<u16>)
    requires
        from <= to <= text@.len(),
    ensures
        r is Some <==> is_group(text@.subrange(from as int, to as int)),
        r matches Some(value) ==> value == hex_value(text@.subrange(from as int, to as int)),
{
    let length = to - from;
    if length < 1 || length > 4 {
        return None;
    }
    match parse_hex(text, from, to) {
        Some(value) => {
            proof {
                lemma_hex_value_bound(text@.subrange(from as int, to as int));
                lemma_pow16_increases((to - from) as nat, 4);
                reveal_with_fuel(pow16, 5);
            }
            Some(value as u16)
        },
        None => None,
    }
}

/// Reads `text[from..to]` as groups with colons between them. With
/// `embedded`, a dotted quad may stand in the last place.
fn parse_groups(text: &[char], from: usize, to: usize, embedded: bool) -> (r: Option<
    Vec<u16>,
>)
    requires
        from <= to <= text@.len(),
    ensures
        r is Some <==> (if embedded {
            tail_groups(text@.subrange(from as int, to as int))
        } else {
            hex_groups(text@.subrange(from as int, to as int))
        }) is Some,
        r matches Some(groups) ==> Some(groups@) == (if embedded {
            tail_groups(text@.subrange(from as int, to as int))
        } else {
            hex_groups(text@.subrange(from as int, to as int))
        }),
{
    let mut groups: Vec<u16> = Vec::new();
    if from == to {
        return Some(groups);
    }
    let ghost part = text@.subrange(from as int, to as int);
    let ghost whole = split(part, ':');
    let fields = split_fields(text, from, to, ':');
    let count = fields.len();
    let mut at: usize = 0;
    while at < count
        invariant
            0 <= at <= count,
            count == fields@.len(),
            count >= 1,
            from < to <= text@.len(),
            part == text@.subrange(from as int, to as int),
            whole == split(part, ':'),
            fields@.len() == whole.len(),
            forall|i: int|
                0 <= i < fields@.len() ==> {
                    &&& from <= (#[trigger] fields@[i]).0 <= fields@[i].1 <= to
                    &&& text@.subrange(fields@[i].0 as int, fields@[i].1 as int) == whole[i]
                },
            all_groups(whole.take(at as int)),
            groups@ == group_values(whole.take(at as int)),
        decreases count - at,
    {
        let field = fields[at];
        let ghost read = whole.take(at as int);
        let ghost longer = whole.take(at + 1);
        match parse_group(text, field.0, field.1) {
            Some(group) => {
                groups.push(group);
                proof {
                    assert(all_groups(longer)) by {
                        assert forall|i: int| 0 <= i < at implies longer[i] == read[i] by {}
                    }
                }
            },
            None => {
                proof {
                    if at + 1 < count {
                        assert(whole.drop_last()[at as int] == whole[at as int]);
                    }
                }
                if embedded && at + 1 == count {
                    match parse_ipv4(text, field.0, field.1) {
                        Some(bits) => {
                            groups.push((bits / 0x1_0000) as u16);
                            groups.push((bits % 0x1_0000) as u16);
                            return Some(groups);
                        },
                        None => {
                            return None;
                        },
                    }
                }
                return None;
            },
        }
        at = at + 1;
    }
    assert(whole.take(count as int) =~= whole);
    Some(groups)
}

/// The integer that eight groups spell.
fn join_groups(groups: &Vec<u16>) -> (r: u128)
    requires
        groups@.len() == 8,
    ensures
        r == groups_bits(groups@),
{
    let mut bits: u128 = 0;
    let mut at: usize = 0;
    while at < 8
        invariant
            0 <= at <= 8,
            groups@.len() == 8,
            bits == groups_bits(groups@.take(at as int)),
        decreases 8 - at,
    {
        proof {
            let read = groups@.take(at as int);
            let longer = groups@.take(at + 1);
            assert(longer.drop_last() =~= read);
            lemma_groups_bits_bound(read);
            lemma_pow16_increases(4 * read.len(), 28);
            lemma_pow16_of_widths();
            reveal_with_fuel(pow16, 4);
        }
        bits = bits * 0x1_0000 + groups[at] as u128;
        at = at + 1;
    }
    assert(groups@.take(8) =~= groups@);
    bits
}

/// Reads `text[from..to]` as an IPv6 address.
fn parse_ipv6(text: &[char], from: usize, to: usize) -> (r: Option<u128>)
    requires
        from <= to <= text@.len(),
    ensures
        r == ipv6_bits(text@.subrange(from as int, to as int)),
{
    let ghost part = text@.subrange(from as int, to as int);
    let gap = find_gap(text, from, to);
    if gap == to {
        let groups = match parse_groups(text, from, to, true) {
            Some(groups) => groups,
            None => {
                return None;
            },
        };
        if groups.len() != 8 {
            return None;
        }
        return Some(join_groups(&groups));
    }
    proof {
        assert(part.take(gap - from) =~= text@.subrange(from as int, gap as int));
        assert(part.skip(gap - from + 2) =~= text@.subrange(gap + 2, to as int));
    }
    let head = match parse_groups(text, from, gap, false) {
        Some(head) => head,
        None => {
            return None;
        },
    };
    let tail = match parse_groups(text, gap + 2, to, true) {
        Some(tail) => tail,
        None => {
            return None;
        },
    };
    if head.len() > 7 || tail.len() > 7 - head.len() {
        return None;
    }
    let missing: usize = 8 - head.len() - tail.len();
    let mut groups: Vec<u16> = Vec::new();
    let mut at: usize = 0;
    while at < head.len()
        invariant
            0 <= at <= head@.len(),
            groups@ == head@.take(at as int),
        decreases head@.len() - at,
    {
        groups.push(head[at]);
        at = at + 1;
    }
    at = 0;
    while at < missing
        invariant
            0 <= at <= missing,
            groups@ == head@.take(head@.len() as int) + zero_groups(at as nat),
        decreases missing - at,
    {
        groups.push(0);
        at = at + 1;
    }
    at = 0;
    while at < tail.len()
        invariant
            0 <= at <= tail@.len(),
            groups@ == head@.take(head@.len() as int) + zero_groups(missing as nat) + tail@.take(
                at as int,
            ),
        decreases tail@.len() - at,
    {
        groups.push(tail[at]);
        at = at + 1;
    }
    assert(groups@ =~= head@ + zero_groups(missing as nat) + tail@);
    Some(join_groups(&groups))
}

/// The IP address that a text spells.
pub open spec fn ip_of_text(text: Seq<char>) -> Option<IpAddress> {
    match (ipv4_bits(text), ipv6_bits(text)) {
        (Some(bits), _) => Some(IpAddress::V4(bits)),
        (None, Some(bits)) => Some(IpAddress::V6(bits)),
        (None, None) => None,
    }
}

/// The port that a text spells: a decimal number up to 65535.
pub open spec fn port_of_text(text: Seq<char>) -> Option<u16> {
    if is_decimal_up_to(text, 0xffff) {
        Some(decimal_value(text) as u16)
    } else {
        None
    }
}

/// The socket address that a dotted quad, a colon and a port spell.
pub open spec fn socket_v4_of_text(text: Seq<char>) -> Option<SocketAddress> {
    let fields = split(text, ':');
    if fields.len() == 2 {
        match (ipv4_bits(fields[0]), port_of_text(fields[1])) {
            (Some(bits), Some(port)) => Some(SocketAddress { ip: IpAddress::V4(bits), port }),
            _ => None,
        }
    } else {
        None
    }
}

/// The IPv6 address between the brackets of a socket address. A percent
/// sign and a zone, a decimal number of 32 bits, may follow the address;
/// the zone is not part of the address.
pub open spec fn zoned_ipv6_bits(text: Seq<char>) -> Option<u128> {
    let fields = split(text, '%');
    if fields.len() == 1 || (fields.len() == 2 && is_decimal_up_to(fields[1], 0xffff_ffff)) {
        ipv6_bits(fields[0])
    } else {
        None
    }
}

/// The socket address that an IPv6 address in brackets, a colon and a port
/// spell.
pub open spec fn socket_v6_of_text(text: Seq<char>) -> Option<SocketAddress> {
    let close = first_index(text, ']');
    if text.len() > 0 && text[0] == '[' && close + 1 < text.len() && text[close + 1] == ':' {
        match (zoned_ipv6_bits(text.subrange(1, close)), port_of_text(text.skip(close + 2))) {
            (Some(bits), Some(port)) => Some(SocketAddress { ip: IpAddress::V6(bits), port }),
            _ => None,
        }
    } else {
        None
    }
}

/// The socket address that a text spells.
pub open spec fn socket_of_text(text: Seq<char>) -> Option<SocketAddress> {
    match (socket_v4_of_text(text), socket_v6_of_text(text)) {
        (Some(address), _) => Some(address),
        (None, Some(address)) => Some(address),
        (None, None) => None,
    }
}

/// A text without the brackets around it, where it stands in brackets.
pub open spec fn unbracketed(text: Seq<char>) -> Seq<char> {
    if text.len() >= 2 && text.first() == '[' && text.last() == ']' {
        text.subrange(1, text.len() - 1)
    } else {
        text
    }
}

/// The IP address of a text that is a socket address or an IP address,
/// with or without brackets around it. The port is dropped.
pub open spec fn socket_or_ip(text: Seq<char>) -> Option<IpAddress> {
    match (socket_of_text(unbracketed(text)), ip_of_text(unbracketed(text))) {
        (Some(address), _) => Some(address.ip),
        (None, Some(ip)) => Some(ip),
        (None, None) => None,
    }
}

/// Reads `text[from..to]` as an IP address.
fn parse_ip_within(text: &[char], from: usize, to: usize) -> (r: Option<IpAddress>)
    requires
        from <= to <= text@.len(),
    ensures
        r == ip_of_text(text@.subrange(from as int, to as int)),
{
    match parse_ipv4(text, from, to) {
        Some(bits) => Some(IpAddress::V4(bits)),
        None => match parse_ipv6(text, from, to) {
            Some(bits) => Some(IpAddress::V6(bits)),
            None => None,
        },
    }
}

/// Reads `text[from..to]` as a port.
fn parse_port(text: &[char], from: usize, to: usize) -> (r: Option<u16>)
    requires
        from <= to <= text@.len(),
    ensures
        r == port_of_text(text@.subrange(from as int, to as int)),
{
    match parse_decimal(text, from, to, 0xffff) {
        Some(port) => Some(port as u16),
        None => None,
    }
}

/// Reads `text[from..to]` as a dotted quad with a port.
fn parse_socket_v4(text: &[char], from: usize, to: usize) -> (r: Option<SocketAddress>)
    requires
        from <= to <= text@.len(),
    ensures
        r == socket_v4_of_text(text@.subrange(from as int, to as int)),
{
    let fields = split_fields(text, from, to, ':');
    if fields.len() != 2 {
        return None;
    }
    let bits = match parse_ipv4(text, fields[0].0, fields[0].1) {
        Some(bits) => bits,
        None => {
            return None;
        },
    };
    match parse_port(text, fields[1].0, fields[1].1) {
        Some(port) => Some(SocketAddress { ip: IpAddress::V4(bits), port }),
        None => None,
    }
}

/// Reads `text[from..to]` as an IPv6 address that a zone may follow.
fn parse_zoned_ipv6(text: &[char], from: usize, to: usize) -> (r: Option<u128>)
    requires
        from <= to <= text@.len(),
    ensures
        r == zoned_ipv6_bits(text@.subrange(from as int, to as int)),
{
    let fields = split_fields(text, from, to, '%');
    if fields.len() > 2 {
        return None;
    }
    if fields.len() == 2 {
        if parse_decimal(text, fields[1].0, fields[1].1, 0xffff_ffff).is_none() {
            return None;
        }
    }
    parse_ipv6(text, fields[0].0, fields[0].1)
}

/// Reads `text[from..to]` as an IPv6 address in brackets with a port.
fn parse_socket_v6(text: &[char], from: usize, to: usize) -> (r: Option<SocketAddress>)
    requires
        from <= to <= text@.len(),
    ensures
        r == socket_v6_of_text(text@.subrange(from as int, to as int)),
{
    let ghost part = text@.subrange(from as int, to as int);
    if from == to || text[from] != '[' {
        return None;
    }
    let close = find_mark(text, from, to, ']');
    if close >= to || close + 1 >= to || text[close + 1] != ':' {
        return None;
    }
    proof {
        assert(part.subrange(1, close - from) =~= text@.subrange(from + 1, close as int));
        assert(part.skip(close - from + 2) =~= text@.subrange(close + 2, to as int));
    }
    let bits = match parse_zoned_ipv6(text, from + 1, close) {
        Some(bits) => bits,
        None => {
            return None;
        },
    };
    match parse_port(text, close + 2, to) {
        Some(port) => Some(SocketAddress { ip: IpAddress::V6(bits), port }),
        None => None,
    }
}

/// Reads `text[from..to]` as a socket address.
fn parse_socket_within(text: &[char], from: usize, to: usize) -> (r: Option<SocketAddress>)
    requires
        from <= to <= text@.len(),
    ensures
        r == socket_of_text(text@.subrange(from as int, to as int)),
{
    match parse_socket_v4(text, from, to) {
        Some(address) => Some(address),
        None => parse_socket_v6(text, from, to),
    }
}

/// Reads a text as an IP address: a dotted quad, or an IPv6 address
/// without brackets.
pub fn parse_ip(text: &str) -> (r: Option<IpAddress>)
    ensures
        r == ip_of_text(text@),
{
    let chars = chars_of(text);
    assert(chars@.subrange(0, chars@.len() as int) =~= text@);
    parse_ip_within(chars.as_slice(), 0, chars.len())
}

/// Reads a text as a socket address: a dotted quad, a colon and a port, or
/// an IPv6 address in brackets, a colon and a port.
pub fn parse_socket(text: &str) -> (r: Option<SocketAddress>)
    ensures
        r == socket_of_text(text@),
{
    let chars = chars_of(text);
    assert(chars@.subrange(0, chars@.len() as int) =~= text@);
    parse_socket_within(chars.as_slice(), 0, chars.len())
}

/// Reads a text as a socket address or as an IP address and gives the IP
/// address. Brackets around the whole text are taken off first.
pub fn parse_socket_or_ip(i: &str) -> (r: Option<IpAddress>)
    ensures
        r == socket_or_ip(i@),
{
    let text = chars_of(i);
    let count = text.len();
    let (from, to): (usize, usize) = if count >= 2 && text[0] == '[' && text[count - 1] == ']' {
        (1, count - 1)
    } else {
        (0, count)
    };
    assert(text@.subrange(from as int, to as int) =~= unbracketed(i@));
    match parse_socket_within(text.as_slice(), from, to) {
        Some(address) => Some(address.ip),
        None => parse_ip_within(text.as_slice(), from, to),
    }
}

} // verus!