//! Text operations that the shell's rules are stated over: comparison,
//! trimming, searching, and the decimal form of small numbers.
//!
//! A text is its sequence of characters; every operation counts characters,
//! never bytes.

use vstd::prelude::*;

verus! {

/// Unicode white space: the characters of the `White_Space` property.
pub open spec fn is_white_space(c: char) -> bool {
    let code = c as u32;
    ||| 0x9 <= code <= 0xD
    ||| code == 0x20
    ||| code == 0x85
    ||| code == 0xA0
    ||| code == 0x1680
    ||| 0x2000 <= code <= 0x200A
    ||| code == 0x2028
    ||| code == 0x2029
    ||| code == 0x202F
    ||| code == 0x205F
    ||| code == 0x3000
}

/// `text` without its leading white space.
pub open spec fn trimmed_start(text: Seq<char>) -> Seq<char>
    decreases text.len(),
{
    if text.len() > 0 && is_white_space(text[0]) {
        trimmed_start(text.drop_first())
    } else {
        text
    }
}

/// `text` without its trailing white space.
pub open spec fn trimmed_end(text: Seq<char>) -> Seq<char>
    decreases text.len(),
{
    if text.len() > 0 && is_white_space(text.last()) {
        trimmed_end(text.drop_last())
    } else {
        text
    }
}

/// `text` without white space at either end.
pub open spec fn trimmed(text: Seq<char>) -> Seq<char> {
    trimmed_end(trimmed_start(text))
}

/// Whether `text` begins with `prefix`.
pub open spec fn begins_with(text: Seq<char>, prefix: Seq<char>) -> bool {
    prefix.len() <= text.len() && text.take(prefix.len() as int) == prefix
}

/// Whether `pattern` stands in `text` at the index `at`.
pub open spec fn occurs_at(text: Seq<char>, pattern: Seq<char>, at: int) -> bool {
    0 <= at && at + pattern.len() <= text.len() && text.subrange(at, at + pattern.len()) == pattern
}

/// The first index from `from` on at which `pattern` stands in `text`.
pub open spec fn first_from(text: Seq<char>, pattern: Seq<char>, from: int) -> Option<int>
    decreases text.len() - from + 1,
{
    if from < 0 || from + pattern.len() > text.len() {
        None
    } else if occurs_at(text, pattern, from) {
        Some(from)
    } else {
        first_from(text, pattern, from + 1)
    }
}

/// `text` with the first occurrence of `pattern` replaced by `with`.
pub open spec fn replaced_first(text: Seq<char>, pattern: Seq<char>, with: Seq<char>) -> Seq<char> {
    match first_from(text, pattern, 0) {
        Some(at) => text.take(at) + with + text.skip(at + pattern.len()),
        None => text,
    }
}

/// `text` without the copies of a non-empty `prefix` that it begins with.
pub open spec fn without_prefix(text: Seq<char>, prefix: Seq<char>) -> Seq<char>
    decreases text.len(),
{
    if prefix.len() > 0 && begins_with(text, prefix) {
        without_prefix(text.skip(prefix.len() as int), prefix)
    } else {
        text
    }
}

/// What stands in `text` before the first `stop`, or all of it.
pub open spec fn before(text: Seq<char>, stop: char) -> Seq<char>
    decreases text.len(),
{
    if text.len() == 0 || text[0] == stop {
        seq![]
    } else {
        seq![text[0]] + before(text.drop_first(), stop)
    }
}

/// The last `count` characters of `text`, or all of it where it has fewer.
pub open spec fn last_chars(text: Seq<char>, count: nat) -> Seq<char> {
    if text.len() <= count {
        text
    } else {
        text.skip(text.len() - count)
    }
}

/// The digit of a number below ten.
pub open spec fn digit(value: nat) -> char {
    if value == 0 {
        '0'
    } else if value == 1 {
        '1'
    } else if value == 2 {
        '2'
    } else if value == 3 {
        '3'
    } else if value == 4 {
        '4'
    } else if value == 5 {
        '5'
    } else if value == 6 {
        '6'
    } else if value == 7 {
        '7'
    } else if value == 8 {
        '8'
    } else {
        '9'
    }
}

/// A number in decimal, without leading zeros.
pub open spec fn decimal_text(value: nat) -> Seq<char>
    decreases value,
{
    if value < 10 {
        seq![digit(value)]
    } else {
        decimal_text(value / 10).push(digit(value % 10))
    }
}

/// What `String::from_utf8_lossy` makes of bytes.
pub uninterp spec fn utf8_lossy(bytes: Seq<u8>) -> Seq<char>;

/// The text of `bytes`, from `String::from_utf8_lossy`.
///
/// Trusted of it: the text is a function of the bytes, and bytes that are
/// valid UTF-8 give exactly the text that they encode. What stands in the
/// place of invalid bytes is left unsaid.
#[verifier::external_body]
fn lossy_text(bytes: &[u8]) -> (text: String)
    ensures
        text@ == utf8_lossy(bytes@),
        vstd::utf8::valid_utf8(bytes@) ==> text@ == vstd::utf8::decode_utf8(bytes@),
{
    String::from_utf8_lossy(bytes).into_owned()
}

/// The text of bytes: what valid UTF-8 encodes, and otherwise what
/// `String::from_utf8_lossy` makes of them.
pub open spec fn decoded(bytes: Seq<u8>) -> Seq<char> {
    if vstd::utf8::valid_utf8(bytes) {
        vstd::utf8::decode_utf8(bytes)
    } else {
        utf8_lossy(bytes)
    }
}

/// The text of bytes, with invalid UTF-8 replaced.
pub fn text_of_bytes(bytes: &[u8]) -> (text: String)
    ensures
        text@ == decoded(bytes@),
        text@ == utf8_lossy(bytes@),
{
    lossy_text(bytes)
}

/// Whether `c` is Unicode white space.
pub fn white_space(c: char) -> (white: bool)
    ensures
        white == is_white_space(c),
{
    let code: u32 = c as u32;
    (0x9 <= code && code <= 0xD) || code == 0x20 || code == 0x85 || code == 0xA0 || code == 0x1680
        || (0x2000 <= code && code <= 0x200A) || code == 0x2028 || code == 0x2029 || code == 0x202F
        || code == 0x205F || code == 0x3000
}

/// The characters of `text`.
pub fn chars_of(text: &str) -> (chars: Vec<char>)
    ensures
        chars@ == text@,
{
    let mut chars: Vec<char> = Vec::new();
    for c in it: text.chars()
        invariant
            it.seq() == text@,
            chars@ == text@.take(it.index()),
    {
        chars.push(c);
    }
    assert(text@.take(text@.len() as int) == text@);
    chars
}

/// Whether two texts are the same.
pub fn same_text(left: &str, right: &str) -> (same: bool)
    ensures
        same == (left@ == right@),
{
    let a = chars_of(left);
    let b = chars_of(right);
    if a.len() != b.len() {
        return false;
    }
    let mut i: usize = 0;
    while i < a.len()
        invariant
            i <= a.len(),
            a.len() == b.len(),
            a@ == left@,
            b@ == right@,
            forall|k: int| 0 <= k < i ==> a[k] == b[k],
        decreases a.len() - i,
    {
        if a[i] != b[i] {
            assert(left@[i as int] != right@[i as int]);
            return false;
        }
        i += 1;
    }
    assert(left@ =~= right@);
    true
}

/// Whether `pattern` stands in `chars` at `at`.
fn matches_at(chars: &Vec<char>, pattern: &Vec<char>, at: usize) -> (found: bool)
    requires
        at + pattern.len() <= chars.len(),
    ensures
        found == occurs_at(chars@, pattern@, at as int),
{
    let mut i: usize = 0;
    while i < pattern.len()
        invariant
            at + pattern.len() <= chars.len(),
            i <= pattern.len(),
            forall|k: int| 0 <= k < i ==> chars[at + k] == pattern[k],
        decreases pattern.len() - i,
    {
        if chars[at + i] != pattern[i] {
            assert(chars@.subrange(at as int, at + pattern.len())[i as int] != pattern@[i as int]);
            return false;
        }
        i += 1;
    }
    assert(chars@.subrange(at as int, at + pattern.len()) =~= pattern@);
    true
}

/// Whether `text` begins with `prefix`.
pub fn starts_with(text: &str, prefix: &str) -> (found: bool)
    ensures
        found == begins_with(text@, prefix@),
{
    let chars = chars_of(text);
    let pattern = chars_of(prefix);
    if pattern.len() > chars.len() {
        return false;
    }
    assert(text@.subrange(0, prefix@.len() as int) =~= text@.take(prefix@.len() as int));
    matches_at(&chars, &pattern, 0)
}

proof fn lemma_trimmed_start_skip(text: Seq<char>, from: int)
    requires
        0 <= from < text.len(),
        is_white_space(text[from]),
    ensures
        trimmed_start(text.skip(from)) == trimmed_start(text.skip(from + 1)),
{
    assert(text.skip(from).drop_first() =~= text.skip(from + 1));
}

/// `text` without white space at either end.
pub fn trim(text: &str) -> (kept: String)
    ensures
        kept@ == trimmed(text@),
{
    let chars = chars_of(text);
    let mut low: usize = 0;
    assert(text@.skip(0) =~= text@);
    while low < chars.len() && white_space(chars[low])
        invariant
            low <= chars.len(),
            chars@ == text@,
            trimmed_start(text@) == trimmed_start(text@.skip(low as int)),
        decreases chars.len() - low,
    {
        proof {
            lemma_trimmed_start_skip(text@, low as int);
        }
        low += 1;
    }
    let ghost body = text@.skip(low as int);
    assert(trimmed_start(text@) == body);
    let mut high: usize = chars.len();
    assert(text@.subrange(low as int, high as int) =~= body);
    while low < high && white_space(chars[high - 1])
        invariant
            low <= high <= chars.len(),
            chars@ == text@,
            trimmed_end(body) == trimmed_end(text@.subrange(low as int, high as int)),
        decreases high,
    {
        proof {
            let part = text@.subrange(low as int, high as int);
            assert(part.drop_last() =~= text@.subrange(low as int, high - 1));
        }
        high -= 1;
    }
    text.substring_char(low, high).to_owned()
}

/// Where a first occurrence is found, the pattern stands.
pub(crate) proof fn lemma_first_occurs(text: Seq<char>, pattern: Seq<char>, from: int)
    ensures
        first_from(text, pattern, from) matches Some(at) ==> occurs_at(text, pattern, at) && from
            <= at,
    decreases text.len() - from + 1,
{
    if !(from < 0 || from + pattern.len() > text.len()) && !occurs_at(text, pattern, from) {
        lemma_first_occurs(text, pattern, from + 1);
    }
}

/// `text` with the first occurrence of `pattern` replaced by `with`.
pub fn replace_first(text: &str, pattern: &str, with: &str) -> (replaced: String)
    ensures
        replaced@ == replaced_first(text@, pattern@, with@),
{
    let chars = chars_of(text);
    let wanted = chars_of(pattern);
    if wanted.len() > chars.len() {
        return text.to_owned();
    }
    let last: usize = chars.len() - wanted.len();
    let mut at: usize = 0;
    loop
        invariant
            at <= last,
            last + wanted.len() == chars.len(),
            chars@ == text@,
            wanted@ == pattern@,
            first_from(text@, pattern@, 0) == first_from(text@, pattern@, at as int),
        decreases last - at,
    {
        if matches_at(&chars, &wanted, at) {
            let mut replaced = text.substring_char(0, at).to_owned();
            replaced.append(with);
            replaced.append(text.substring_char(at + wanted.len(), chars.len()));
            assert(text@.subrange(0, at as int) =~= text@.take(at as int));
            assert(text@.subrange(at + pattern@.len(), text@.len() as int) =~= text@.skip(
                at + pattern@.len(),
            ));
            return replaced;
        }
        if at == last {
            return text.to_owned();
        }
        at += 1;
    }
}

/// `text` without the copies of a non-empty `prefix` that it begins with.
pub fn strip_prefixes(text: &str, prefix: &str) -> (kept: String)
    ensures
        kept@ == without_prefix(text@, prefix@),
{
    let chars = chars_of(text);
    let wanted = chars_of(prefix);
    let mut at: usize = 0;
    assert(text@.skip(0) =~= text@);
    while wanted.len() > 0 && wanted.len() <= chars.len() - at && matches_at(&chars, &wanted, at)
        invariant
            at <= chars.len(),
            chars@ == text@,
            wanted@ == prefix@,
            without_prefix(text@, prefix@) == without_prefix(text@.skip(at as int), prefix@),
        decreases chars.len() - at,
    {
        proof {
            let rest = text@.skip(at as int);
            assert(rest.take(prefix@.len() as int) =~= text@.subrange(
                at as int,
                at + prefix@.len(),
            ));
            assert(rest.skip(prefix@.len() as int) =~= text@.skip(at + prefix@.len()));
        }
        at += wanted.len();
    }
    proof {
        let rest = text@.skip(at as int);
        if prefix@.len() > 0 && begins_with(rest, prefix@) {
            assert(rest.take(prefix@.len() as int) =~= text@.subrange(
                at as int,
                at + prefix@.len(),
            ));
        }
        assert(text@.subrange(at as int, text@.len() as int) =~= rest);
    }
    text.substring_char(at, chars.len()).to_owned()
}

/// What stands in `text` before the first `stop`, or all of it.
pub fn text_before(text: &str, stop: char) -> (kept: String)
    ensures
        kept@ == before(text@, stop),
{
    let chars = chars_of(text);
    let mut at: usize = 0;
    assert(text@.skip(0) =~= text@);
    assert(text@.take(0) + before(text@, stop) =~= before(text@, stop));
    while at < chars.len() && chars[at] != stop
        invariant
            at <= chars.len(),
            chars@ == text@,
            before(text@, stop) == text@.take(at as int) + before(text@.skip(at as int), stop),
        decreases chars.len() - at,
    {
        proof {
            let rest = text@.skip(at as int);
            assert(rest.drop_first() =~= text@.skip(at + 1));
            assert(text@.take(at as int) + (seq![rest[0]] + before(rest.drop_first(), stop))
                =~= text@.take(at + 1) + before(text@.skip(at + 1), stop));
        }
        at += 1;
    }
    assert(text@.take(at as int) + before(text@.skip(at as int), stop) =~= text@.take(at as int));
    assert(text@.subrange(0, at as int) =~= text@.take(at as int));
    text.substring_char(0, at).to_owned()
}

/// The last `count` characters of `text`, or all of it where it has fewer.
pub fn keep_last(text: &str, count: usize) -> (kept: String)
    ensures
        kept@ == last_chars(text@, count as nat),
{
    let length: usize = text.unicode_len();
    if length <= count {
        return text.to_owned();
    }
    assert(text@.subrange(length - count, length as int) =~= text@.skip(length - count));
    text.substring_char(length - count, length).to_owned()
}

fn digit_text(value: u16) -> (text: &'static str)
    requires
        value < 10,
    ensures
        text@ == seq![digit(value as nat)],
{
    proof {
        reveal_strlit("0");
        reveal_strlit("1");
        reveal_strlit("2");
        reveal_strlit("3");
        reveal_strlit("4");
        reveal_strlit("5");
        reveal_strlit("6");
        reveal_strlit("7");
        reveal_strlit("8");
        reveal_strlit("9");
    }
    if value == 0 {
        "0"
    } else if value == 1 {
        "1"
    } else if value == 2 {
        "2"
    } else if value == 3 {
        "3"
    } else if value == 4 {
        "4"
    } else if value == 5 {
        "5"
    } else if value == 6 {
        "6"
    } else if value == 7 {
        "7"
    } else if value == 8 {
        "8"
    } else {
        "9"
    }
}

/// `value` in decimal.
pub fn decimal(value: u16) -> (text: String)
    ensures
        text@ == decimal_text(value as nat),
    decreases value,
{
    if value < 10 {
        digit_text(value).to_owned()
    } else {
        let mut text = decimal(value / 10);
        text.append(digit_text(value % 10));
        assert(text@ =~= decimal_text(value as nat));
        text
    }
}

} // verus!
