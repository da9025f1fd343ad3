//! The trace-context header that correlates a request across hops.
//!
//! On the wire a trace parent is 55 characters: the version in two
//! hexadecimal digits, the trace id in 32, the parent id in 16 and the
//! flags in two, joined by dashes.

use crate::hex::{
    all_hex, hex_text, hex_value, is_hex_digit, lemma_hex_text_is_hex, lemma_hex_value_bound,
    lemma_hex_value_of_text, lemma_pow16_of_widths, parse_hex, push_hex,
};
use crate::source::{is_header_char, is_header_text};
use crate::text::chars_of;
use rand::Rng;
use vstd::prelude::*;
use vstd::string::StringExecFns;
use vstd::utf8::is_ascii_chars;

verus! {

/// Name of the header that carries baggage.
pub const BAGGAGE_HEADER: &'static str = "baggage";

/// Name of the header that carries the trace parent.
pub const TRACEPARENT_HEADER: &'static str = "traceparent";

/// Length of a trace parent on the wire.
pub const TRACEPARENT_LENGTH: usize = 55;

/// A trace parent, as the W3C trace-context recommendation defines it.
#[derive(Clone, Copy, PartialEq, Eq, Structural)]
pub struct TraceParent {
    pub version: u8,
    pub trace_id: u128,
    pub parent_id: u64,
    pub flags: u8,
}

/// Why a text is no trace parent.
#[derive(Clone, Copy, Debug, PartialEq, Eq, Structural)]
pub enum TraceParentError {
    /// The text is this many bytes long and not 55.
    Length(usize),
    /// The text is 55 bytes long, but a dash is missing where one belongs,
    /// or another place holds something else than a hexadecimal digit.
    Format,
}

/// Whether a place of the wire form holds a dash.
pub open spec fn is_dash_place(at: int) -> bool {
    at == 2 || at == 35 || at == 52
}

/// Whether a text has the wire form: 55 characters, dashes after the
/// version, the trace id and the parent id, hexadecimal digits elsewhere.
pub open spec fn is_wire_form(text: Seq<char>) -> bool {
    &&& text.len() == 55
    &&& forall|at: int|
        0 <= at < 55 ==> if is_dash_place(at) {
            #[trigger] text[at] == '-'
        } else {
            is_hex_digit(text[at])
        }
}

/// The trace parent that a text in wire form spells.
pub open spec fn from_wire_form(text: Seq<char>) -> TraceParent
    recommends
        is_wire_form(text),
{
    TraceParent {
        version: hex_value(text.subrange(0, 2)) as u8,
        trace_id: hex_value(text.subrange(3, 35)) as u128,
        parent_id: hex_value(text.subrange(36, 52)) as u64,
        flags: hex_value(text.subrange(53, 55)) as u8,
    }
}

/// The wire form of a trace parent, in lower case.
pub open spec fn wire_form(parent: TraceParent) -> Seq<char> {
    hex_text(parent.version as nat, 2) + seq!['-'] + hex_text(parent.trace_id as nat, 32) + seq![
        '-',
    ] + hex_text(parent.parent_id as nat, 16) + seq!['-'] + hex_text(parent.flags as nat, 2)
}

/// What a text parses to.
pub open spec fn parsed(text: Seq<char>) -> Option<TraceParent> {
    if is_wire_form(text) {
        Some(from_wire_form(text))
    } else {
        None
    }
}

/// What reading a text gives: the trace parent that it spells, or why it
/// spells none.
pub open spec fn read(value: &str) -> Result<TraceParent, TraceParentError> {
    if value.len() != 55 {
        Err(TraceParentError::Length(value.len()))
    } else if is_wire_form(value@) {
        Ok(from_wire_form(value@))
    } else {
        Err(TraceParentError::Format)
    }
}

/// A text in wire form is ASCII.
proof fn lemma_wire_form_is_ascii(text: Seq<char>)
    requires
        is_wire_form(text),
    ensures
        is_ascii_chars(text),
{
    assert forall|at: int| 0 <= at < text.len() implies '\0' <= #[trigger] text[at]
        <= '\u{7f}' by {
        if !is_dash_place(at) {
            assert(is_hex_digit(text[at]));
        }
    }
}

/// The four fields of a text in wire form hold digits only.
proof fn lemma_wire_form_fields(text: Seq<char>)
    requires
        text.len() == 55,
    ensures
        is_wire_form(text) <==> {
            &&& text[2] == '-'
            &&& text[35] == '-'
            &&& text[52] == '-'
            &&& all_hex(text.subrange(0, 2))
            &&& all_hex(text.subrange(3, 35))
            &&& all_hex(text.subrange(36, 52))
            &&& all_hex(text.subrange(53, 55))
        },
{
    if is_wire_form(text) {
        assert(all_hex(text.subrange(0, 2)));
        assert(all_hex(text.subrange(3, 35)));
        assert(all_hex(text.subrange(36, 52)));
        assert(all_hex(text.subrange(53, 55)));
    }
    if text[2] == '-' && text[35] == '-' && text[52] == '-' && all_hex(text.subrange(0, 2))
        && all_hex(text.subrange(3, 35)) && all_hex(text.subrange(36, 52)) && all_hex(
        text.subrange(53, 55),
    ) {
        assert forall|at: int| 0 <= at < 55 implies if is_dash_place(at) {
            #[trigger] text[at] == '-'
        } else {
            is_hex_digit(text[at])
        } by {
            if at < 2 {
                assert(text[at] == text.subrange(0, 2)[at]);
            } else if 3 <= at < 35 {
                assert(text[at] == text.subrange(3, 35)[at - 3]);
            } else if 36 <= at < 52 {
                assert(text[at] == text.subrange(36, 52)[at - 36]);
            } else if 53 <= at {
                assert(text[at] == text.subrange(53, 55)[at - 53]);
            }
        }
    }
}

impl TraceParent {
    /// The trace parent of a request that originates here, with the two ids
    /// given: version and flags are zero.
    pub fn from_ids(trace_id: u128, parent_id: u64) -> (r: TraceParent)
        ensures
            r == (TraceParent { version: 0, trace_id, parent_id, flags: 0 }),
    {
        TraceParent { version: 0, trace_id, parent_id, flags: 0 }
    }

    /// A fresh trace parent with random ids.
    pub fn new() -> (r: TraceParent)
        ensures
            r.version == 0,
            r.flags == 0,
    {
        let (trace_id, parent_id) = random_ids();
        TraceParent::from_ids(trace_id, parent_id)
    }

    /// Reads a trace parent from its wire form. Digits of either case are
    /// taken.
    pub fn parse(value: &str) -> (r: Result<TraceParent, TraceParentError>)
        ensures
            r == read(value),
            r is Ok <==> is_wire_form(value@),
    {
        let length = value.len();
        if length != TRACEPARENT_LENGTH {
            proof {
                if is_wire_form(value@) {
                    lemma_wire_form_is_ascii(value@);
                    vstd::utf8::is_ascii_chars_encode_utf8(value@);
                }
            }
            return Err(TraceParentError::Length(length));
        }
        let text = chars_of(value);
        if text.len() != TRACEPARENT_LENGTH {
            return Err(TraceParentError::Format);
        }
        proof {
            lemma_wire_form_fields(value@);
            lemma_pow16_of_widths();
        }
        if text[2] != '-' || text[35] != '-' || text[52] != '-' {
            return Err(TraceParentError::Format);
        }
        let digits = text.as_slice();
        let version = match parse_hex(digits, 0, 2) {
            Some(version) => version,
            None => {
                return Err(TraceParentError::Format);
            },
        };
        let trace_id = match parse_hex(digits, 3, 35) {
            Some(trace_id) => trace_id,
            None => {
                return Err(TraceParentError::Format);
            },
        };
        let parent_id = match parse_hex(digits, 36, 52) {
            Some(parent_id) => parent_id,
            None => {
                return Err(TraceParentError::Format);
            },
        };
        let flags = match parse_hex(digits, 53, 55) {
            Some(flags) => flags,
            None => {
                return Err(TraceParentError::Format);
            },
        };
        proof {
            lemma_hex_value_bound(value@.subrange(0, 2));
            lemma_hex_value_bound(value@.subrange(36, 52));
            lemma_hex_value_bound(value@.subrange(53, 55));
        }
        Ok(
            TraceParent {
                version: version as u8,
                trace_id,
                parent_id: parent_id as u64,
                flags: flags as u8,
            },
        )
    }

    /// The wire form of the trace parent, as the value of its header.
    pub fn header(&self) -> (r: String)
        ensures
            r@ == wire_form(*self),
    {
        let mut out = String::new();
        push_hex(&mut out, self.version as u128, 2);
        out.append("-");
        push_hex(&mut out, self.trace_id, 32);
        out.append("-");
        push_hex(&mut out, self.parent_id as u128, 16);
        out.append("-");
        push_hex(&mut out, self.flags as u128, 2);
        proof {
            reveal_strlit("-");
        }
        out
    }

    /// The trace id alone, in 32 hexadecimal digits: what a log line shows
    /// of a trace parent.
    pub fn to_string(&self) -> (r: String)
        ensures
            r@ == hex_text(self.trace_id as nat, 32),
    {
        let mut out = String::new();
        push_hex(&mut out, self.trace_id, 32);
        out
    }
}

impl TryFrom<&str> for TraceParent {
    type Error = TraceParentError;

    fn try_from(value: &str) -> (r: Result<TraceParent, TraceParentError>) {
        TraceParent::parse(value)
    }
}

impl vstd::std_specs::convert::TryFromSpecImpl<&str> for TraceParent {
    open spec fn obeys_try_from_spec() -> bool {
        true
    }

    open spec fn try_from_spec(value: &str) -> Result<TraceParent, TraceParentError> {
        read(value)
    }
}

/// Draws a trace id and a parent id from the generator of the current
/// thread: `rand::thread_rng`, then `Rng::gen` once for each number. The
/// contract promises nothing of the numbers. The generator is seeded from
/// the operating system and gives up only where that has no entropy.
#[verifier::external_body]
fn random_ids() -> (ids: (u128, u64)) {
    let mut rng = rand::thread_rng();
    (rng.gen(), rng.gen())
}

/// The wire form of a trace parent is 55 characters long.
pub proof fn lemma_wire_form_length(parent: TraceParent)
    ensures
        wire_form(parent).len() == 55,
        is_wire_form(wire_form(parent)),
{
    lemma_wire_form_parts(parent);
    lemma_wire_form_fields(wire_form(parent));
}

proof fn lemma_wire_form_parts(parent: TraceParent)
    ensures
        wire_form(parent).len() == 55,
        wire_form(parent)[2] == '-',
        wire_form(parent)[35] == '-',
        wire_form(parent)[52] == '-',
        wire_form(parent).subrange(0, 2) == hex_text(parent.version as nat, 2),
        wire_form(parent).subrange(3, 35) == hex_text(parent.trace_id as nat, 32),
        wire_form(parent).subrange(36, 52) == hex_text(parent.parent_id as nat, 16),
        wire_form(parent).subrange(53, 55) == hex_text(parent.flags as nat, 2),
        all_hex(hex_text(parent.version as nat, 2)),
        all_hex(hex_text(parent.trace_id as nat, 32)),
        all_hex(hex_text(parent.parent_id as nat, 16)),
        all_hex(hex_text(parent.flags as nat, 2)),
{
    lemma_hex_text_is_hex(parent.version as nat, 2);
    lemma_hex_text_is_hex(parent.trace_id as nat, 32);
    lemma_hex_text_is_hex(parent.parent_id as nat, 16);
    lemma_hex_text_is_hex(parent.flags as nat, 2);
}

/// The wire form of a trace parent can stand as the value of a header: it
/// holds visible ASCII characters only.
pub proof fn lemma_wire_form_is_header_text(parent: TraceParent)
    ensures
        is_header_text(wire_form(parent)),
{
    lemma_wire_form_length(parent);
    let text = wire_form(parent);
    assert forall|at: int| 0 <= at < text.len() implies is_header_char(#[trigger] text[at]) by {
        if !is_dash_place(at) {
            assert(is_hex_digit(text[at]));
        }
    }
}

/// Round trip: the wire form of a trace parent parses, and it parses to
/// that trace parent, field by field.
pub proof fn lemma_round_trip(parent: TraceParent)
    ensures
        parsed(wire_form(parent)) == Some(parent),
{
    lemma_wire_form_parts(parent);
    lemma_wire_form_fields(wire_form(parent));
    lemma_pow16_of_widths();
    lemma_hex_value_of_text(parent.version as nat, 2);
    lemma_hex_value_of_text(parent.trace_id as nat, 32);
    lemma_hex_value_of_text(parent.parent_id as nat, 16);
    lemma_hex_value_of_text(parent.flags as nat, 2);
}

/// A text that is not exactly 55 characters long does not parse.
pub proof fn lemma_wrong_length_fails(text: Seq<char>)
    requires
        text.len() != 55,
    ensures
        parsed(text) is None,
{
}

} // verus!
