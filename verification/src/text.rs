//! Texts as sequences of characters: fields between marks, and decimal
//! numbers.

use vstd::prelude::*;

verus! {

/// The characters of a text.
pub(crate) fn chars_of(text: &str) -> (r: Vec<char>)
    ensures
        r@ == text@,
{
    let mut out: Vec<char> = Vec::new();
    for c in it: text.chars()
        invariant
            out@ == it.seq().take(it.index() as int),
            it.seq() == text@,
    {
        out.push(c);
    }
    out
}

/// The place of the first `mark` in a text, or the length of the text
/// where it holds none.
pub open spec fn first_index(text: Seq<char>, mark: char) -> int
    decreases text.len(),
{
    if text.len() == 0 || text[0] == mark {
        0
    } else {
        1 + first_index(text.drop_first(), mark)
    }
}

/// The fields of a text between marks. A text without a mark is one field;
/// two marks in a row, or a mark at either end, enclose an empty field.
pub open spec fn split(text: Seq<char>, mark: char) -> Seq<Seq<char>>
    decreases text.len(),
{
    let at = first_index(text, mark);
    if 0 <= at < text.len() {
        seq![text.take(at)] + split(text.skip(at + 1), mark)
    } else {
        seq![text]
    }
}

/// The first mark stands where no mark stands before.
pub proof fn lemma_first_index(text: Seq<char>, mark: char)
    ensures
        0 <= first_index(text, mark) <= text.len(),
        first_index(text, mark) < text.len() ==> text[first_index(text, mark)] == mark,
        forall|i: int| 0 <= i < first_index(text, mark) ==> text[i] != mark,
    decreases text.len(),
{
    if text.len() != 0 && text[0] != mark {
        let rest = text.drop_first();
        lemma_first_index(rest, mark);
        assert forall|i: int| 0 <= i < first_index(text, mark) implies text[i] != mark by {
            if i > 0 {
                assert(text[i] == rest[i - 1]);
            }
        }
    }
}

/// A place before which no mark stands, and which holds a mark or is the
/// end of the text, is the place of the first mark.
pub proof fn lemma_first_index_is(text: Seq<char>, mark: char, at: int)
    requires
        0 <= at <= text.len(),
        at < text.len() ==> text[at] == mark,
        forall|i: int| 0 <= i < at ==> text[i] != mark,
    ensures
        first_index(text, mark) == at,
{
    lemma_first_index(text, mark);
}

/// The place of the first `mark` in `text[from..to]`, or `to` where there
/// is none.
pub(crate) fn find_mark(text: &[char], from: usize, to: usize, mark: char) -> (r: usize)
    requires
        from <= to <= text@.len(),
    ensures
        from <= r <= to,
        r - from == first_index(text@.subrange(from as int, to as int), mark),
        r < to ==> text@[r as int] == mark,
{
    let ghost part = text@.subrange(from as int, to as int);
    let mut at: usize = from;
    while at < to
        invariant
            from <= at <= to <= text@.len(),
            part == text@.subrange(from as int, to as int),
            forall|i: int| 0 <= i < at - from ==> part[i] != mark,
        decreases to - at,
    {
        if text[at] == mark {
            proof {
                lemma_first_index_is(part, mark, at - from);
            }
            return at;
        }
        at = at + 1;
    }
    proof {
        lemma_first_index_is(part, mark, part.len() as int);
    }
    to
}

/// The fields of `text[from..to]` between marks, each as the range of
/// places it takes in `text`.
pub(crate) fn split_fields(text: &[char], from: usize, to: usize, mark: char) -> (fields: Vec<
    (usize, usize),
>)
    requires
        from <= to <= text@.len(),
    ensures
        fields@.len() == split(text@.subrange(from as int, to as int), mark).len(),
        forall|i: int|
            0 <= i < fields@.len() ==> {
                &&& from <= (#[trigger] fields@[i]).0 <= fields@[i].1 <= to
                &&& text@.subrange(fields@[i].0 as int, fields@[i].1 as int) == split(
                    text@.subrange(from as int, to as int),
                    mark,
                )[i]
            },
{
    let ghost whole = split(text@.subrange(from as int, to as int), mark);
    let mut fields: Vec<(usize, usize)> = Vec::new();
    let mut start: usize = from;
    let mut at: usize = from;
    while at < to
        invariant
            from <= start <= at <= to <= text@.len(),
            whole == split(text@.subrange(from as int, to as int), mark),
            forall|i: int| start <= i < at ==> text@[i] != mark,
            fields@.len() + split(text@.subrange(start as int, to as int), mark).len()
                == whole.len(),
            forall|i: int|
                0 <= i < fields@.len() ==> {
                    &&& from <= (#[trigger] fields@[i]).0 <= fields@[i].1 <= to
                    &&& text@.subrange(fields@[i].0 as int, fields@[i].1 as int) == whole[i]
                },
            forall|i: int|
                0 <= i < split(text@.subrange(start as int, to as int), mark).len() ==> split(
                    text@.subrange(start as int, to as int),
                    mark,
                )[i] == #[trigger] whole[fields@.len() + i],
        decreases to - at,
    {
        if text[at] == mark {
            let ghost rest = text@.subrange(start as int, to as int);
            let ghost after = text@.subrange(at + 1, to as int);
            proof {
                lemma_first_index_is(rest, mark, at - start);
                assert(rest.skip(at - start + 1) =~= after);
                assert(split(rest, mark)[0] == whole[fields@.len() + 0int]);
                assert forall|i: int| 0 <= i < split(after, mark).len() implies split(
                    after,
                    mark,
                )[i] == #[trigger] whole[fields@.len() + 1 + i] by {
                    assert(split(rest, mark)[i + 1] == whole[fields@.len() + (i + 1)]);
                }
            }
            fields.push((start, at));
            start = at + 1;
        }
        at = at + 1;
    }
    proof {
        let rest = text@.subrange(start as int, to as int);
        lemma_first_index_is(rest, mark, rest.len() as int);
        assert(split(rest, mark)[0] == whole[fields@.len() + 0int]);
    }
    fields.push((start, to));
    fields
}

/// Whether a character is a decimal digit.
pub open spec fn is_decimal_digit(c: char) -> bool {
    '0' <= c <= '9'
}

/// Whether every character of a text is a decimal digit.
pub open spec fn all_decimal(digits: Seq<char>) -> bool {
    forall|i: int| 0 <= i < digits.len() ==> is_decimal_digit(#[trigger] digits[i])
}

/// The number that decimal digits spell.
pub open spec fn decimal_value(digits: Seq<char>) -> nat
    recommends
        all_decimal(digits),
    decreases digits.len(),
{
    if digits.len() == 0 {
        0
    } else {
        10 * decimal_value(digits.drop_last()) + (digits.last() as int - '0' as int) as nat
    }
}

/// Whether a text is a decimal number up to `limit`: one digit or more,
/// with as many zeros in front as one likes.
pub open spec fn is_decimal_up_to(digits: Seq<char>, limit: nat) -> bool {
    &&& digits.len() >= 1
    &&& all_decimal(digits)
    &&& decimal_value(digits) <= limit
}

/// The longer the digits, the larger the number they spell.
pub proof fn lemma_decimal_value_grows(digits: Seq<char>, upto: int)
    requires
        all_decimal(digits),
        0 <= upto <= digits.len(),
    ensures
        decimal_value(digits.take(upto)) <= decimal_value(digits),
    decreases digits.len() - upto,
{
    if upto < digits.len() {
        let shorter = digits.drop_last();
        if upto < shorter.len() {
            lemma_decimal_value_grows(shorter, upto);
            assert(shorter.take(upto) =~= digits.take(upto));
        }
    } else {
        assert(digits.take(upto) =~= digits);
    }
}

/// Reads `text[from..to]` as a decimal number up to `limit`.
pub(crate) fn parse_decimal(text: &[char], from: usize, to: usize, limit: u32) -> (r: Option<u32>)
    requires
        from <= to <= text@.len(),
    ensures
        r is Some <==> is_decimal_up_to(text@.subrange(from as int, to as int), limit as nat),
        r matches Some(value) ==> value == decimal_value(
            text@.subrange(from as int, to as int),
        ),
{
    if from == to {
        return None;
    }
    let ghost digits = text@.subrange(from as int, to as int);
    let mut value: u64 = 0;
    let mut at: usize = from;
    while at < to
        invariant
            from <= at <= to <= text@.len(),
            digits == text@.subrange(from as int, to as int),
            all_decimal(digits.take(at - from)),
            value == decimal_value(digits.take(at - from)),
            value <= limit,
        decreases to - at,
    {
        let c = text[at];
        let ghost read = digits.take(at - from);
        let ghost longer = digits.take(at - from + 1);
        proof {
            assert(longer.drop_last() =~= read);
        }
        if !('0' <= c && c <= '9') {
            assert(digits[at - from] == c);
            return None;
        }
        value = value * 10 + (c as u32 - '0' as u32) as u64;
        proof {
            assert(all_decimal(longer)) by {
                assert forall|i: int| 0 <= i < read.len() implies longer[i] == read[i] by {}
            }
        }
        if value > limit as u64 {
            proof {
                if all_decimal(digits) {
                    lemma_decimal_value_grows(digits, at - from + 1);
                }
            }
            return None;
        }
        at = at + 1;
    }
    assert(digits.take(to - from) =~= digits);
    Some(value as u32)
}

} // verus!
