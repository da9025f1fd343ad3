//! Hexadecimal notation of fixed width.

use vstd::prelude::*;
use vstd::string::StringExecFns;

verus! {

/// Whether a character is a hexadecimal digit, in either case.
pub open spec fn is_hex_digit(c: char) -> bool {
    ('0' <= c <= '9') || ('a' <= c <= 'f') || ('A' <= c <= 'F')
}

/// The value of a hexadecimal digit.
pub open spec fn hex_digit_value(c: char) -> nat
    recommends
        is_hex_digit(c),
{
    if '0' <= c <= '9' {
        (c as int - '0' as int) as nat
    } else if 'a' <= c <= 'f' {
        (c as int - 'a' as int + 10) as nat
    } else {
        (c as int - 'A' as int + 10) as nat
    }
}

/// Whether every character of a text is a hexadecimal digit.
pub open spec fn all_hex(digits: Seq<char>) -> bool {
    forall|i: int| 0 <= i < digits.len() ==> is_hex_digit(#[trigger] digits[i])
}

/// The number that hexadecimal digits spell, most significant digit first.
pub open spec fn hex_value(digits: Seq<char>) -> nat
    recommends
        all_hex(digits),
    decreases digits.len(),
{
    if digits.len() == 0 {
        0
    } else {
        16 * hex_value(digits.drop_last()) + hex_digit_value(digits.last())
    }
}

/// The lower-case digit of a value below sixteen.
pub open spec fn hex_char(value: nat) -> char
    recommends
        value < 16,
{
    if value < 10 {
        ('0' as nat + value) as char
    } else {
        ('a' as nat + value - 10) as char
    }
}

/// The last `width` hexadecimal digits of a number, in lower case, most
/// significant digit first and padded with zeros.
pub open spec fn hex_text(value: nat, width: nat) -> Seq<char>
    decreases width,
{
    if width == 0 {
        Seq::empty()
    } else {
        hex_text(value / 16, (width - 1) as nat).push(hex_char(value % 16))
    }
}

/// Sixteen to the power `n`.
pub open spec fn pow16(n: nat) -> nat
    decreases n,
{
    if n == 0 {
        1
    } else {
        16 * pow16((n - 1) as nat)
    }
}

/// Powers of sixteen are positive and grow with the exponent.
pub proof fn lemma_pow16_increases(low: nat, high: nat)
    requires
        low <= high,
    ensures
        pow16(low) <= pow16(high),
        pow16(low) > 0,
    decreases high,
{
    if low < high {
        lemma_pow16_increases(low, (high - 1) as nat);
    } else if low > 0 {
        lemma_pow16_increases((low - 1) as nat, (low - 1) as nat);
    }
}

/// The widths of the integer types in hexadecimal digits.
pub proof fn lemma_pow16_of_widths()
    ensures
        pow16(2) == 0x100,
        pow16(16) == 0x1_0000_0000_0000_0000,
        pow16(31) == 0x1000_0000_0000_0000_0000_0000_0000_0000,
        pow16(32) == 0x1_0000_0000_0000_0000_0000_0000_0000_0000,
{
    reveal_with_fuel(pow16, 33);
}

/// Digits spell a number below sixteen to the power of their count.
pub proof fn lemma_hex_value_bound(digits: Seq<char>)
    requires
        all_hex(digits),
    ensures
        hex_value(digits) < pow16(digits.len()),
    decreases digits.len(),
{
    if digits.len() > 0 {
        lemma_hex_value_bound(digits.drop_last());
    }
}

/// The notation of a number has the width asked for and holds digits only.
pub proof fn lemma_hex_text_is_hex(value: nat, width: nat)
    ensures
        hex_text(value, width).len() == width,
        all_hex(hex_text(value, width)),
    decreases width,
{
    if width > 0 {
        lemma_hex_text_is_hex(value / 16, (width - 1) as nat);
    }
}

/// Reading the notation of a number gives the number back, where the width
/// holds it.
pub proof fn lemma_hex_value_of_text(value: nat, width: nat)
    requires
        value < pow16(width),
    ensures
        hex_value(hex_text(value, width)) == value,
    decreases width,
{
    if width > 0 {
        let shorter = hex_text(value / 16, (width - 1) as nat);
        lemma_hex_value_of_text(value / 16, (width - 1) as nat);
        assert(hex_text(value, width).drop_last() =~= shorter);
    }
}

/// The value of a character read as a hexadecimal digit.
pub(crate) fn hex_digit(c: char) -> (r: Option<u8>)
    ensures
        r is Some <==> is_hex_digit(c),
        r matches Some(value) ==> value == hex_digit_value(c),
{
    if '0' <= c && c <= '9' {
        Some((c as u32 - '0' as u32) as u8)
    } else if 'a' <= c && c <= 'f' {
        Some((c as u32 - 'a' as u32 + 10) as u8)
    } else if 'A' <= c && c <= 'F' {
        Some((c as u32 - 'A' as u32 + 10) as u8)
    } else {
        None
    }
}

/// Reads `text[from..to]` as one hexadecimal number.
pub(crate) fn parse_hex(text: &[char], from: usize, to: usize) -> (r: Option<u128>)
    requires
        from <= to <= text@.len(),
        to - from <= 32,
    ensures
        r is Some <==> all_hex(text@.subrange(from as int, to as int)),
        r matches Some(value) ==> value == hex_value(text@.subrange(from as int, to as int)),
{
    let mut value: u128 = 0;
    let mut at: usize = from;
    while at < to
        invariant
            from <= at <= to <= text@.len(),
            to - from <= 32,
            all_hex(text@.subrange(from as int, at as int)),
            value == hex_value(text@.subrange(from as int, at as int)),
        decreases to - at,
    {
        let ghost read = text@.subrange(from as int, at as int);
        let ghost longer = text@.subrange(from as int, at + 1);
        proof {
            assert(longer.drop_last() =~= read);
        }
        match hex_digit(text[at]) {
            Some(digit) => {
                proof {
                    lemma_hex_value_bound(read);
                    lemma_pow16_increases(read.len(), 31);
                    lemma_pow16_of_widths();
                    assert(all_hex(longer)) by {
                        assert forall|i: int| 0 <= i < read.len() implies longer[i] == read[i] by {}
                    }
                }
                value = value * 16 + digit as u128;
            },
            None => {
                proof {
                    let whole = text@.subrange(from as int, to as int);
                    assert(whole[at - from] == longer.last());
                }
                return None;
            },
        }
        at = at + 1;
    }
    Some(value)
}

/// The one-character text of a hexadecimal digit.
fn hex_digit_text(value: u8) -> (r: &'static str)
    requires
        value < 16,
    ensures
        r@ == seq![hex_char(value as nat)],
{
    proof {
        reveal_strlit("0");
        reveal_strlit("1");
        reveal_strlit("2");
        reveal_strlit("3");
        reveal_strlit("4");
        reveal_strlit("5");
        reveal_strlit("6");
        reveal_strlit("7");
        reveal_strlit("8");
        reveal_strlit("9");
        reveal_strlit("a");
        reveal_strlit("b");
        reveal_strlit("c");
        reveal_strlit("d");
        reveal_strlit("e");
        reveal_strlit("f");
    }
    let r = match value {
        0 => "0",
        1 => "1",
        2 => "2",
        3 => "3",
        4 => "4",
        5 => "5",
        6 => "6",
        7 => "7",
        8 => "8",
        9 => "9",
        10 => "a",
        11 => "b",
        12 => "c",
        13 => "d",
        14 => "e",
        _ => "f",
    };
    r
}

/// Appends the last `width` hexadecimal digits of a number to a text.
pub(crate) fn push_hex(out: &mut String, value: u128, width: usize)
    ensures
        final(out)@ == old(out)@ + hex_text(value as nat, width as nat),
    decreases width,
{
    if width > 0 {
        push_hex(out, value / 16, width - 1);
        let digit: u128 = value % 16;
        out.append(hex_digit_text(digit as u8));
    }
}

} // verus!
