//! Laws of text operations.

use vstd::prelude::*;

use crate::text::{
    chars_of, decimal, keep_last, replace_first, same_text, starts_with, strip_prefixes,
    text_before, text_of_bytes, trim,
};

verus! {

pub(crate) proof fn lemma_found_at(text: Seq<char>, pattern: Seq<char>, from: int, at: int)
    requires
        0 <= from <= at,
        at + pattern.len() <= text.len(),
        text.skip(at).take(pattern.len() as int) == pattern,
        forall|j: int|
            from <= j < at ==> (#[trigger] text.skip(j)).take(pattern.len() as int) != pattern,
    ensures
        crate::text::first_from(text, pattern, from) == Some(at),
    decreases at - from,
{
    let n = pattern.len() as int;
    assert(text.skip(from).take(n) =~= text.subrange(from, from + n));
    if from < at {
        lemma_found_at(text, pattern, from + 1, at);
    }
}

pub(crate) proof fn lemma_found_nowhere(text: Seq<char>, pattern: Seq<char>, from: int)
    requires
        0 <= from,
        forall|j: int|
            from <= j && j + pattern.len() <= text.len() ==> (#[trigger] text.skip(j)).take(
                pattern.len() as int,
            ) != pattern,
    ensures
        crate::text::first_from(text, pattern, from) is None,
    decreases text.len() - from + 1,
{
    let n = pattern.len() as int;
    if from + n <= text.len() {
        assert(text.skip(from).take(n) =~= text.subrange(from, from + n));
        lemma_found_nowhere(text, pattern, from + 1);
    }
}

/// Wherever a pattern first stands in a text, that occurrence and no other is
/// replaced.
pub proof fn law_first_occurrence_is_replaced(
    text: &str,
    pattern: &str,
    with: &str,
    at: int,
    replaced: String,
)
    requires
        call_ensures(replace_first, (text, pattern, with), replaced),
        0 <= at,
        at + pattern@.len() <= text@.len(),
        text@.skip(at).take(pattern@.len() as int) == pattern@,
        forall|j: int|
            0 <= j < at ==> (#[trigger] text@.skip(j)).take(pattern@.len() as int) != pattern@,
    ensures
        replaced@ == text@.take(at) + with@ + text@.skip(at + pattern@.len()),
{
    lemma_found_at(text@, pattern@, 0, at);
}

/// A text in which a pattern stands nowhere stays as it is.
pub proof fn law_nothing_is_replaced(text: &str, pattern: &str, with: &str, replaced: String)
    requires
        call_ensures(replace_first, (text, pattern, with), replaced),
        forall|j: int|
            0 <= j && j + pattern@.len() <= text@.len() ==> (#[trigger] text@.skip(j)).take(
                pattern@.len() as int,
            ) != pattern@,
    ensures
        replaced@ == text@,
{
    lemma_found_nowhere(text@, pattern@, 0);
}

pub(crate) proof fn lemma_trim_start(left: Seq<char>, rest: Seq<char>)
    requires
        forall|i: int| 0 <= i < left.len() ==> crate::text::is_white_space(#[trigger] left[i]),
    ensures
        crate::text::trimmed_start(left + rest) == crate::text::trimmed_start(rest),
    decreases left.len(),
{
    if left.len() == 0 {
        assert(left + rest =~= rest);
    } else {
        assert((left + rest).drop_first() =~= left.drop_first() + rest);
        lemma_trim_start(left.drop_first(), rest);
    }
}

pub(crate) proof fn lemma_trim_end(rest: Seq<char>, right: Seq<char>)
    requires
        forall|i: int| 0 <= i < right.len() ==> crate::text::is_white_space(#[trigger] right[i]),
    ensures
        crate::text::trimmed_end(rest + right) == crate::text::trimmed_end(rest),
    decreases right.len(),
{
    if right.len() == 0 {
        assert(rest + right =~= rest);
    } else {
        assert((rest + right).drop_last() =~= rest + right.drop_last());
        assert((rest + right).last() == right[right.len() - 1]);
        lemma_trim_end(rest, right.drop_last());
    }
}

pub(crate) proof fn lemma_trimmed(left: Seq<char>, core: Seq<char>, right: Seq<char>)
    requires
        forall|i: int| 0 <= i < left.len() ==> crate::text::is_white_space(#[trigger] left[i]),
        forall|i: int| 0 <= i < right.len() ==> crate::text::is_white_space(#[trigger] right[i]),
        core.len() > 0 ==> !crate::text::is_white_space(core[0])
            && !crate::text::is_white_space(core.last()),
    ensures
        crate::text::trimmed(left + core + right) == core,
{
    assert(left + core + right =~= left + (core + right));
    lemma_trim_start(left, core + right);
    if core.len() > 0 {
        assert((core + right)[0] == core[0]);
        lemma_trim_end(core, right);
    } else {
        assert(core + right =~= right + seq![]);
        lemma_trim_start(right, seq![]);
        assert(core =~= seq![]);
    }
}

/// A text with a character that is not white space is not blank.
pub(crate) proof fn lemma_not_blank(text: Seq<char>, at: int)
    requires
        0 <= at < text.len(),
        !crate::text::is_white_space(text[at]),
    ensures
        crate::text::trimmed(text).len() > 0,
{
    lemma_start_stays(text, at);
    lemma_end_stays(crate::text::trimmed_start(text));
}

proof fn lemma_start_stays(text: Seq<char>, at: int)
    requires
        0 <= at < text.len(),
        !crate::text::is_white_space(text[at]),
    ensures
        crate::text::trimmed_start(text).len() > 0,
        !crate::text::is_white_space(crate::text::trimmed_start(text)[0]),
    decreases text.len(),
{
    if crate::text::is_white_space(text[0]) {
        lemma_start_stays(text.drop_first(), at - 1);
    }
}

proof fn lemma_end_stays(text: Seq<char>)
    requires
        text.len() > 0,
        !crate::text::is_white_space(text[0]),
    ensures
        crate::text::trimmed_end(text).len() > 0,
    decreases text.len(),
{
    if crate::text::is_white_space(text.last()) {
        lemma_end_stays(text.drop_last());
    }
}

/// A text of white space alone is blank.
pub(crate) proof fn lemma_blank(text: Seq<char>)
    requires
        forall|i: int| 0 <= i < text.len() ==> crate::text::is_white_space(#[trigger] text[i]),
    ensures
        crate::text::trimmed(text).len() == 0,
{
    assert(text + Seq::<char>::empty() + Seq::<char>::empty() =~= text);
    lemma_trimmed(text, seq![], seq![]);
}

/// Trimming takes the white space at both ends and nothing else: what stands
/// between is kept whole.
pub proof fn law_trim_keeps_the_core(
    text: &str,
    left: Seq<char>,
    core: Seq<char>,
    right: Seq<char>,
    kept: String,
)
    requires
        call_ensures(trim, (text,), kept),
        text@ == left + core + right,
        forall|i: int| 0 <= i < left.len() ==> crate::text::is_white_space(#[trigger] left[i]),
        forall|i: int| 0 <= i < right.len() ==> crate::text::is_white_space(#[trigger] right[i]),
        core.len() > 0 ==> !crate::text::is_white_space(core[0])
            && !crate::text::is_white_space(core.last()),
    ensures
        kept@ == core,
{
    lemma_trimmed(left, core, right);
}

pub(crate) proof fn lemma_before(front: Seq<char>, rest: Seq<char>, stop: char)
    requires
        !front.contains(stop),
        rest.len() > 0 ==> rest[0] == stop,
    ensures
        crate::text::before(front + rest, stop) == front,
    decreases front.len(),
{
    let whole = front + rest;
    if front.len() == 0 {
        assert(whole =~= rest);
        assert(front =~= seq![]);
    } else {
        assert(front[0] != stop);
        let shorter = front.drop_first();
        assert(!shorter.contains(stop)) by {
            if shorter.contains(stop) {
                let k = choose|k: int| 0 <= k < shorter.len() && shorter[k] == stop;
                assert(front[k + 1] == stop);
            }
        }
        assert(whole.drop_first() =~= shorter + rest);
        lemma_before(shorter, rest, stop);
        assert(seq![whole[0]] + shorter =~= front);
    }
}

/// Everything ahead of the first mark is kept, and all of a text without one.
pub proof fn law_text_before_is_whole(
    text: &str,
    stop: char,
    front: Seq<char>,
    rest: Seq<char>,
    kept: String,
)
    requires
        call_ensures(text_before, (text, stop), kept),
        text@ == front + rest,
        !front.contains(stop),
        rest.len() > 0 ==> rest[0] == stop,
    ensures
        kept@ == front,
{
    lemma_before(front, rest, stop);
}

/// Stripping takes whole copies of the prefix off the front, as long as there
/// is one, and nothing else.
pub proof fn law_prefixes_are_stripped(
    text: &str,
    shorter: &str,
    prefix: &str,
    kept: String,
    of_shorter: String,
)
    requires
        call_ensures(strip_prefixes, (text, prefix), kept),
        call_ensures(strip_prefixes, (shorter, prefix), of_shorter),
    ensures
        prefix@.len() > 0 && text@ == prefix@ + shorter@ ==> kept@ == of_shorter@,
        prefix@.len() == 0 || text@.len() < prefix@.len() || text@.take(prefix@.len() as int)
            != prefix@ ==> kept@ == text@,
{
    if prefix@.len() > 0 && text@ == prefix@ + shorter@ {
        assert(text@.take(prefix@.len() as int) =~= prefix@);
        assert(text@.skip(prefix@.len() as int) =~= shorter@);
    }
}

/// Of a text as many characters are kept as asked for, from its end.
pub proof fn law_the_end_is_kept(
    text: &str,
    count: usize,
    front: Seq<char>,
    end: Seq<char>,
    kept: String,
)
    requires
        call_ensures(keep_last, (text, count), kept),
        text@ == front + end,
        end.len() == count || (front.len() == 0 && end.len() <= count),
    ensures
        kept@ == end,
{
    assert(kept@ =~= end);
}

/// Texts are the same when their characters are, and a text begins with each of
/// its fronts and with nothing else.
pub proof fn law_texts_are_told_apart(
    left: &str,
    right: &str,
    same: bool,
    starts: bool,
    chars: Vec<char>,
)
    requires
        call_ensures(same_text, (left, right), same),
        call_ensures(starts_with, (left, right), starts),
        call_ensures(chars_of, (left,), chars),
    ensures
        same <==> left@ == right@,
        starts <==> exists|rest: Seq<char>| left@ == #[trigger] (right@ + rest),
        chars@ == left@,
{
    if starts {
        assert(left@ =~= right@ + left@.skip(right@.len() as int));
    }
    if exists|rest: Seq<char>| left@ == #[trigger] (right@ + rest) {
        let rest = choose|rest: Seq<char>| left@ == #[trigger] (right@ + rest);
        assert(left@.take(right@.len() as int) =~= right@);
    }
}

/// A number is written in decimal: a digit is itself, and a number above nine
/// is its tens followed by its last digit.
pub proof fn law_numbers_are_decimal(
    value: u16,
    tens: u16,
    last: u16,
    text: String,
    of_tens: String,
)
    requires
        call_ensures(decimal, (value,), text),
        call_ensures(decimal, (tens,), of_tens),
        value == 10 * tens + last,
        last < 10,
    ensures
        tens == 0 ==> text@ == seq![(48 + last) as char],
        tens > 0 ==> text@ == of_tens@.push((48 + last) as char),
{
    assert(value / 10 == tens && value % 10 == last);
}

proof fn lemma_three_digits(value: nat)
    requires
        100 <= value < 1000,
    ensures
        crate::text::decimal_text(value) == seq![
            (48 + value / 100) as char,
            (48 + value / 10 % 10) as char,
            (48 + value % 10) as char,
        ],
{
    reveal_with_fuel(crate::text::decimal_text, 3);
    assert(value / 10 / 10 == value / 100);
    assert(crate::text::decimal_text(value) =~= seq![
        (48 + value / 100) as char,
        (48 + value / 10 % 10) as char,
        (48 + value % 10) as char,
    ]);
}

/// A status code is written with its three digits.
pub proof fn law_status_codes_have_three_digits(status: u16, text: String)
    requires
        call_ensures(decimal, (status,), text),
        100 <= status < 1000,
    ensures
        text@ == seq![
            (48 + status / 100) as char,
            (48 + status / 10 % 10) as char,
            (48 + status % 10) as char,
        ],
{
    lemma_three_digits(status as nat);
}

/// The bytes of a text are read as that text.
pub proof fn law_texts_survive_their_bytes(text: Seq<char>, bytes: &[u8], read: String)
    requires
        call_ensures(text_of_bytes, (bytes,), read),
        bytes@ == vstd::utf8::encode_utf8(text),
    ensures
        read@ == text,
{
    vstd::utf8::encode_utf8_valid_utf8(text);
    vstd::utf8::encode_utf8_decode_utf8(text);
}

/// The bytes of one text and then another are the bytes of both together.
pub(crate) proof fn lemma_encode_concat(first: Seq<char>, second: Seq<char>)
    ensures
        vstd::utf8::encode_utf8(first + second) == vstd::utf8::encode_utf8(first)
            + vstd::utf8::encode_utf8(second),
    decreases first.len(),
{
    if first.len() == 0 {
        assert(first + second =~= second);
        assert(vstd::utf8::encode_utf8(first) + vstd::utf8::encode_utf8(second)
            =~= vstd::utf8::encode_utf8(second));
    } else {
        assert((first + second).drop_first() =~= first.drop_first() + second);
        lemma_encode_concat(first.drop_first(), second);
        let head = vstd::utf8::encode_scalar(first[0] as u32);
        assert((first + second)[0] == first[0]);
        assert(head + (vstd::utf8::encode_utf8(first.drop_first()) + vstd::utf8::encode_utf8(second))
            =~= head + vstd::utf8::encode_utf8(first.drop_first()) + vstd::utf8::encode_utf8(
            second,
        ));
    }
}

/// The bytes of one character hold a line feed only where it is one.
proof fn lemma_scalar_line_feed(scalar: u32)
    requires
        scalar != 10,
    ensures
        !vstd::utf8::encode_scalar(scalar).contains(10),
{
    assert(scalar <= 0x7f && scalar != 10 ==> (scalar & 0x7f) as u8 != 10) by (bit_vector);
    assert(forall|b: u8| #[trigger] (0x80u8 | b) != 10) by (bit_vector);
    assert(forall|b: u8| #[trigger] (0xC0u8 | b) != 10) by (bit_vector);
    assert(forall|b: u8| #[trigger] (0xE0u8 | b) != 10) by (bit_vector);
    assert(forall|b: u8| #[trigger] (0xF0u8 | b) != 10) by (bit_vector);
    let bytes = vstd::utf8::encode_scalar(scalar);
    if bytes.contains(10) {
        let k = choose|k: int| 0 <= k < bytes.len() && bytes[k] == 10;
        assert(0 <= k < 4);
        if k == 0 {
        } else if k == 1 {
        } else if k == 2 {
        } else {
        }
    }
}

/// The bytes of a text hold a line feed only where the text does.
pub(crate) proof fn lemma_encode_line_feed(text: Seq<char>)
    requires
        !text.contains('\n'),
    ensures
        !vstd::utf8::encode_utf8(text).contains(10),
    decreases text.len(),
{
    if text.len() > 0 {
        let rest = text.drop_first();
        assert(!rest.contains('\n')) by {
            if rest.contains('\n') {
                let k = choose|k: int| 0 <= k < rest.len() && rest[k] == '\n';
                assert(text[k + 1] == '\n');
            }
        }
        assert(text[0] != '\n');
        lemma_encode_line_feed(rest);
        vstd::utf8::char_u32_cast(text[0], text[0] as u32);
        assert(text[0] as u32 != 10) by {
            if text[0] as u32 == 10 {
                assert(text[0] == 10u32 as char);
            }
        }
        lemma_scalar_line_feed(text[0] as u32);
        let head = vstd::utf8::encode_scalar(text[0] as u32);
        let tail = vstd::utf8::encode_utf8(rest);
        if (head + tail).contains(10) {
            let k = choose|k: int| 0 <= k < (head + tail).len() && (head + tail)[k] == 10;
            if k < head.len() {
                assert(head[k] == 10);
            } else {
                assert(tail[k - head.len()] == 10);
            }
        }
    }
}

} // verus!
