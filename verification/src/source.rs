//! The address to which a connection is attributed: the last client address
//! of a forwarded header, or the peer of the socket.
//!
//! Neither lookup fails. A header that is missing or malformed, an address
//! that does not parse and a peer that is gone all give no source, and the
//! caller falls back to its default.

use crate::literal::{parse_socket_or_ip, socket_or_ip};
use crate::net::{canonical, to_canonical, IpAddress, SocketAddress};
use crate::text::chars_of;
use vstd::prelude::*;

verus! {

/// Whether a character can stand in a header value that is text: a visible
/// ASCII character, a space or a tab.
pub open spec fn is_header_char(c: char) -> bool {
    c == '\t' || (' ' <= c <= '~')
}

/// Whether a header value is text.
pub open spec fn is_header_text(text: Seq<char>) -> bool {
    forall|i: int| 0 <= i < text.len() ==> is_header_char(#[trigger] text[i])
}

/// Where a place of a header value stands with respect to quoted strings.
#[derive(Clone, Copy, Debug, PartialEq, Eq, Structural)]
pub enum Quoting {
    /// Outside every quoted string.
    Outside,
    /// Inside a quoted string.
    Inside,
    /// Inside a quoted string, right after a backslash: the character at
    /// this place is taken as it is.
    Escaped,
}

/// The quoting of the place after the character `c`, which stands at a
/// place of quoting `before`.
pub open spec fn quoting_after(before: Quoting, c: char) -> Quoting {
    match before {
        Quoting::Outside => if c == '"' {
            Quoting::Inside
        } else {
            Quoting::Outside
        },
        Quoting::Inside => if c == '\\' {
            Quoting::Escaped
        } else if c == '"' {
            Quoting::Outside
        } else {
            Quoting::Inside
        },
        Quoting::Escaped => Quoting::Inside,
    }
}

/// The quoting of a place of a text, read from the start.
pub open spec fn quoting_at(text: Seq<char>, at: int) -> Quoting
    decreases at,
{
    if at <= 0 {
        Quoting::Outside
    } else {
        quoting_after(quoting_at(text, at - 1), text[at - 1])
    }
}

/// The first place from `at` on that holds neither a space nor a tab.
pub open spec fn after_blanks(text: Seq<char>, at: int) -> int
    decreases text.len() - at,
{
    if 0 <= at < text.len() && (text[at] == ' ' || text[at] == '\t') {
        after_blanks(text, at + 1)
    } else {
        at
    }
}

/// Whether a comma that separates two elements of a list stands at a place
/// with fewer than four characters after it, blanks not counted. No list
/// element is that short: it begins with `for=`.
pub open spec fn is_short_tail(text: Seq<char>, at: int) -> bool {
    &&& 0 <= at < text.len()
    &&& text[at] == ','
    &&& quoting_at(text, at) is Outside
    &&& text.len() - after_blanks(text, at + 1) < 4
}

/// Whether every comma outside quoted strings is followed by four
/// characters or more, blanks not counted.
pub open spec fn has_no_short_tail(text: Seq<char>) -> bool {
    forall|at: int| !is_short_tail(text, at)
}

/// The client addresses of a forwarded header in the order in which the
/// header names them, where the header parses; `None` where it does not.
/// This is what `http_types::proxies::Forwarded::parse` makes of the header,
/// read through `forwarded_for`.
pub uninterp spec fn forwarded_for(header: Seq<char>) -> Option<Seq<Seq<char>>>;

/// The source that a list of client addresses gives: the last one, as far
/// as it is a socket address or an IP address.
pub open spec fn source_of_list(list: Seq<Seq<char>>) -> Option<IpAddress> {
    if list.len() == 0 {
        None
    } else {
        socket_or_ip(list.last())
    }
}

/// The source that a forwarded header gives.
pub open spec fn source_of_header(header: Option<Seq<char>>) -> Option<IpAddress> {
    match header {
        Some(text) => if is_header_text(text) && has_no_short_tail(text) {
            match forwarded_for(text) {
                Some(list) => source_of_list(list),
                None => None,
            }
        } else {
            None
        },
        None => None,
    }
}

/// Parses a forwarded header with `http_types::proxies::Forwarded::parse`
/// and hands out its client addresses. The contract names the result and
/// claims no more of it. The parser cuts the four characters of `for=` off
/// whatever follows a comma between list elements, and cuts at byte
/// offsets: the `requires` keeps away the inputs on which that panics.
#[verifier::external_body]
fn parse_forwarded_for(header: &str) -> (r: Option<Vec<String>>)
    requires
        is_header_text(header@),
        has_no_short_tail(header@),
    ensures
        r is Some <==> forwarded_for(header@) is Some,
        r matches Some(list) ==> Some(list.deep_view()) == forwarded_for(header@),
{
    let forwarded = http_types::proxies::Forwarded::parse(header).ok()?;
    Some(forwarded.forwarded_for().into_iter().map(String::from).collect())
}

/// Whether a header value is text.
pub fn check_header_text(text: &[char]) -> (r: bool)
    ensures
        r == is_header_text(text@),
{
    let mut at: usize = 0;
    while at < text.len()
        invariant
            0 <= at <= text@.len(),
            forall|i: int| 0 <= i < at ==> is_header_char(#[trigger] text@[i]),
        decreases text@.len() - at,
    {
        let c = text[at];
        if !(c == '\t' || (' ' <= c && c <= '~')) {
            return false;
        }
        at = at + 1;
    }
    true
}

fn skip_blanks(text: &[char], from: usize) -> (r: usize)
    requires
        from <= text@.len(),
    ensures
        r == after_blanks(text@, from as int),
        from <= r <= text@.len(),
{
    let mut at: usize = from;
    while at < text.len() && (text[at] == ' ' || text[at] == '\t')
        invariant
            from <= at <= text@.len(),
            after_blanks(text@, at as int) == after_blanks(text@, from as int),
        decreases text@.len() - at,
    {
        at = at + 1;
    }
    at
}

/// Whether every comma outside quoted strings is followed by four
/// characters or more, blanks not counted.
pub fn check_list_tails(text: &[char]) -> (r: bool)
    ensures
        r == has_no_short_tail(text@),
{
    let mut quoting = Quoting::Outside;
    let mut at: usize = 0;
    while at < text.len()
        invariant
            0 <= at <= text@.len(),
            quoting == quoting_at(text@, at as int),
            forall|i: int| 0 <= i < at ==> !is_short_tail(text@, i),
        decreases text@.len() - at,
    {
        let c = text[at];
        if c == ',' && quoting == Quoting::Outside {
            let rest = skip_blanks(text, at + 1);
            if text.len() - rest < 4 {
                assert(is_short_tail(text@, at as int));
                return false;
            }
        }
        quoting = match quoting {
            Quoting::Outside => if c == '"' {
                Quoting::Inside
            } else {
                Quoting::Outside
            },
            Quoting::Inside => if c == '\\' {
                Quoting::Escaped
            } else if c == '"' {
                Quoting::Outside
            } else {
                Quoting::Inside
            },
            Quoting::Escaped => Quoting::Inside,
        };
        at = at + 1;
    }
    true
}

/// The source that the client addresses of a forwarded header give: the
/// address closest to this proxy, which is the last one.
pub fn last_forwarded_source(forwarded_for: &Vec<String>) -> (r: Option<IpAddress>)
    ensures
        r == source_of_list(forwarded_for.deep_view()),
{
    let count = forwarded_for.len();
    if count == 0 {
        return None;
    }
    parse_socket_or_ip(forwarded_for[count - 1].as_str())
}

/// The source that the forwarded header of a request gives, where the
/// request has such a header and its value is text.
pub fn get_original_src_from_fwded(forwarded: Option<&str>) -> (r: Option<IpAddress>)
    ensures
        r == source_of_header(
            match forwarded {
                Some(header) => Some(header@),
                None => None,
            },
        ),
{
    let header = match forwarded {
        Some(header) => header,
        None => {
            return None;
        },
    };
    let text = chars_of(header);
    if !check_header_text(text.as_slice()) || !check_list_tails(text.as_slice()) {
        return None;
    }
    match parse_forwarded_for(header) {
        Some(list) => last_forwarded_source(&list),
        None => None,
    }
}

/// The source that the peer of a socket gives, where the socket has one:
/// its IP address in canonical form.
pub fn get_original_src_from_stream(peer: Option<SocketAddress>) -> (r: Option<IpAddress>)
    ensures
        r == match peer {
            Some(addr) => Some(canonical(addr).ip),
            None => None,
        },
{
    match peer {
        Some(addr) => Some(to_canonical(addr).ip),
        None => None,
    }
}

} // verus!
