use mesh_proxy::traceparent::{
    TraceParent, TraceParentError, BAGGAGE_HEADER, TRACEPARENT_HEADER, TRACEPARENT_LENGTH,
};

const SAMPLE: &str = "00-4bf92f3577b34da6a3ce929d0e0e4736-00f067aa0ba902b7-01";

fn sample() -> TraceParent {
    TraceParent {
        version: 0,
        trace_id: 0x4bf92f3577b34da6a3ce929d0e0e4736,
        parent_id: 0x00f067aa0ba902b7,
        flags: 1,
    }
}

#[test]
fn header_names_are_lower_case() {
    assert_eq!(BAGGAGE_HEADER, "baggage");
    assert_eq!(TRACEPARENT_HEADER, "traceparent");
    assert_eq!(TRACEPARENT_LENGTH, 55);
}

#[test]
fn wire_form_parses_field_by_field() {
    assert!(TraceParent::parse(SAMPLE) == Ok(sample()));
}

#[test]
fn header_is_the_wire_form() {
    assert_eq!(sample().header(), SAMPLE);
    let zero = TraceParent { version: 0, trace_id: 0, parent_id: 0, flags: 0 };
    assert_eq!(zero.header(), "00-00000000000000000000000000000000-0000000000000000-00");
    let full = TraceParent {
        version: u8::MAX,
        trace_id: u128::MAX,
        parent_id: u64::MAX,
        flags: u8::MAX,
    };
    assert_eq!(full.header(), "ff-ffffffffffffffffffffffffffffffff-ffffffffffffffff-ff");
    let mixed = TraceParent { version: 0x0a, trace_id: 0x1f, parent_id: 0xabc, flags: 0xf0 };
    assert_eq!(mixed.header(), "0a-0000000000000000000000000000001f-0000000000000abc-f0");
}

#[test]
fn header_round_trips_through_parse() {
    for parent in [
        sample(),
        TraceParent { version: 0, trace_id: 0, parent_id: 0, flags: 0 },
        TraceParent { version: 255, trace_id: u128::MAX, parent_id: u64::MAX, flags: 255 },
        TraceParent { version: 1, trace_id: 1 << 127, parent_id: 1 << 63, flags: 0x80 },
        TraceParent { version: 0x10, trace_id: 0xdead_beef, parent_id: 0xcafe, flags: 0x0f },
    ] {
        let header = parent.header();
        assert_eq!(header.len(), 55);
        assert!(TraceParent::parse(&header) == Ok(parent));
    }
}

#[test]
fn fresh_trace_parent_round_trips() {
    let fresh = TraceParent::new();
    assert_eq!(fresh.version, 0);
    assert_eq!(fresh.flags, 0);
    assert!(TraceParent::parse(&fresh.header()) == Ok(fresh));
}

#[test]
fn fresh_trace_parents_differ() {
    let first = TraceParent::new();
    let second = TraceParent::new();
    assert!(first.trace_id != second.trace_id || first.parent_id != second.parent_id);
}

#[test]
fn from_ids_sets_version_and_flags_to_zero() {
    let parent = TraceParent::from_ids(7, 9);
    assert!(parent == TraceParent { version: 0, trace_id: 7, parent_id: 9, flags: 0 });
}

#[test]
fn display_form_is_the_trace_id_alone() {
    assert_eq!(sample().to_string(), "4bf92f3577b34da6a3ce929d0e0e4736");
    let small = TraceParent { version: 9, trace_id: 0x2a, parent_id: 7, flags: 3 };
    assert_eq!(small.to_string(), "0000000000000000000000000000002a");
}

#[test]
fn digits_of_either_case_are_read() {
    let upper = "00-4BF92F3577B34DA6A3CE929D0E0E4736-00F067AA0BA902B7-01";
    assert!(TraceParent::parse(upper) == Ok(sample()));
}

#[test]
fn wrong_length_is_told_with_the_length() {
    assert!(TraceParent::parse("") == Err(TraceParentError::Length(0)));
    assert!(TraceParent::parse(&SAMPLE[..54]) == Err(TraceParentError::Length(54)));
    let longer = format!("{}0", SAMPLE);
    assert!(TraceParent::parse(&longer) == Err(TraceParentError::Length(56)));
    assert!(TraceParent::parse("00-0-0-00") == Err(TraceParentError::Length(9)));
}

#[test]
fn length_is_counted_in_bytes() {
    let wide = format!("{}\u{e9}", &SAMPLE[..54]);
    assert_eq!(wide.chars().count(), 55);
    assert!(TraceParent::parse(&wide) == Err(TraceParentError::Length(56)));
    let narrow = format!("{}\u{e9}", &SAMPLE[..53]);
    assert_eq!(narrow.len(), 55);
    assert!(TraceParent::parse(&narrow) == Err(TraceParentError::Format));
}

#[test]
fn misplaced_dash_or_foreign_character_is_a_format_error() {
    for text in [
        "00+4bf92f3577b34da6a3ce929d0e0e4736-00f067aa0ba902b7-01",
        "00-4bf92f3577b34da6a3ce929d0e0e4736_00f067aa0ba902b7-01",
        "00-4bf92f3577b34da6a3ce929d0e0e4736-00f067aa0ba902b7 01",
        "0-04bf92f3577b34da6a3ce929d0e0e4736-00f067aa0ba902b7-01",
        "00-4bf92f3577b34da6a3ce929d0e0e47360-0f067aa0ba902b7-01",
        "00-4bf92f3577b34da6a3ce929d0e0e4736-00f067aa0ba902b70-1",
        "00-4bf92f3577b34da6a3ce929d0e0e473g-00f067aa0ba902b7-01",
        "0x-4bf92f3577b34da6a3ce929d0e0e4736-00f067aa0ba902b7-01",
        "+0-4bf92f3577b34da6a3ce929d0e0e4736-00f067aa0ba902b7-01",
        "00-+bf92f3577b34da6a3ce929d0e0e4736-00f067aa0ba902b7-01",
        "00-4bf92f3577b34da6a3ce929d0e0e4736-00f067aa0ba902b7-0 ",
        "00-4bf92f3577b34da6-a3ce929d0e0e473-00f067aa0ba902b7-01",
        "0000000000000000000000000000000000000000000000000000000",
        "-------------------------------------------------------",
        "0-0-0-0-00000000000000000000000000000000000000000000000",
    ] {
        assert_eq!(text.len(), 55);
        assert!(TraceParent::parse(text) == Err(TraceParentError::Format), "{:?}", text);
    }
}
