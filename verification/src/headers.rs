//! HTTP header fields, held in an `http::HeaderMap`.
//!
//! A map is spoken of through [`header_fields`]: its fields in the order in
//! which the map hands them out. That order is the map's own, except that the
//! values of one name keep theirs, so the rules of the shell speak of
//! [`values_of`] a name.

use vstd::prelude::*;

use crate::text::{same_text, text_of_bytes};

verus! {

/// A field's value: its bytes, and whether it is marked sensitive.
pub type FieldValue = (Seq<u8>, bool);

/// The number of fields up to which a map always takes one more.
pub const ROOM_FOR_ONE_MORE: usize = 6553;

#[verifier::external_type_specification]
#[verifier::external_body]
#[verifier::reject_recursive_types(T)]
pub struct ExHeaderMap<T>(http::HeaderMap<T>);

#[verifier::external_type_specification]
#[verifier::external_body]
pub struct ExHeaderValue(http::HeaderValue);

/// The fields that a header map holds, in the order of `HeaderMap::iter`:
/// name, value bytes, and whether the value is marked sensitive.
pub uninterp spec fn header_fields(map: http::HeaderMap<http::HeaderValue>) -> Seq<
    (Seq<char>, Seq<u8>, bool),
>;

/// The values of the fields called `name`, in order.
pub open spec fn values_of(
    fields: Seq<(Seq<char>, Seq<u8>, bool)>,
    name: Seq<char>,
) -> Seq<FieldValue>
    decreases fields.len(),
{
    if fields.len() == 0 {
        seq![]
    } else {
        let earlier = values_of(fields.drop_last(), name);
        if fields.last().0 == name {
            earlier.push((fields.last().1, fields.last().2))
        } else {
            earlier
        }
    }
}

/// The values that `map` has for `name`, in order.
pub open spec fn header_values(
    map: http::HeaderMap<http::HeaderValue>,
    name: Seq<char>,
) -> Seq<FieldValue> {
    values_of(header_fields(map), name)
}

/// `after` is `before` with `value` as the only value of `name`.
pub open spec fn field_set(
    before: http::HeaderMap<http::HeaderValue>,
    after: http::HeaderMap<http::HeaderValue>,
    name: Seq<char>,
    value: FieldValue,
) -> bool {
    &&& header_values(after, name) == seq![value]
    &&& forall|other: Seq<char>|
        other != name ==> #[trigger] header_values(after, other) == header_values(before, other)
    &&& header_fields(after).len() <= header_fields(before).len() + 1
}

/// `after` is `before` with `value` behind the other values of `name`.
pub open spec fn field_appended(
    before: http::HeaderMap<http::HeaderValue>,
    after: http::HeaderMap<http::HeaderValue>,
    name: Seq<char>,
    value: FieldValue,
) -> bool {
    &&& header_values(after, name) == header_values(before, name).push(value)
    &&& forall|other: Seq<char>|
        other != name ==> #[trigger] header_values(after, other) == header_values(before, other)
    &&& header_fields(after).len() == header_fields(before).len() + 1
}

/// A field name that the shell writes itself: lower-case letters and hyphens.
pub open spec fn plain_name(name: Seq<char>) -> bool {
    &&& 1 <= name.len() <= 64
    &&& forall|i: int| 0 <= i < name.len() ==> 'a' <= #[trigger] name[i] <= 'z' || name[i] == '-'
}

/// A byte that a field value may hold.
pub open spec fn value_byte(byte: u8) -> bool {
    (32 <= byte && byte != 127) || byte == 9
}

/// A byte that a field value may hold and that is visible ASCII, a space or a
/// tab.
pub open spec fn visible_byte(byte: u8) -> bool {
    32 <= byte < 127 || byte == 9
}

/// A text that can stand as a field value.
pub open spec fn field_safe(text: Seq<char>) -> bool {
    forall|i: int|
        0 <= i < vstd::utf8::encode_utf8(text).len() ==> value_byte(
            #[trigger] vstd::utf8::encode_utf8(text)[i],
        )
}

/// Bytes that are all visible.
pub open spec fn all_visible(bytes: Seq<u8>) -> bool {
    forall|i: int| 0 <= i < bytes.len() ==> visible_byte(#[trigger] bytes[i])
}

/// The text of bytes that are each one character.
pub open spec fn byte_text(bytes: Seq<u8>) -> Seq<char> {
    bytes.map_values(|byte: u8| byte as char)
}

/// An empty map, from `HeaderMap::new`.
#[verifier::external_body]
pub(crate) fn no_fields() -> (map: http::HeaderMap<http::HeaderValue>)
    ensures
        header_fields(map) == Seq::<(Seq<char>, Seq<u8>, bool)>::empty(),
{
    http::HeaderMap::new()
}

/// The field names in the order of `HeaderMap::iter`, one for each value.
#[verifier::external_body]
pub(crate) fn field_names(map: &http::HeaderMap<http::HeaderValue>) -> (names: Vec<String>)
    ensures
        names.len() == header_fields(*map).len(),
        forall|i: int| 0 <= i < names.len() ==> #[trigger] names[i]@ == header_fields(*map)[i].0,
{
    map.iter().map(|(name, _)| name.as_str().to_string()).collect()
}

/// Appends the field that stands at `at` in the order of `from` to `to`, by
/// `HeaderMap::try_append`.
///
/// Trusted of it: on success the copied value, with its sensitivity mark,
/// stands behind the other values of its name and the other names keep theirs;
/// it succeeds while `to` has few enough fields: an index of the largest size,
/// 32768, has to double only at a fifth of as many names. With more fields it
/// rests on how their hashes fall, which a seed of the process can decide, and
/// nothing is said of it. After a refusal nothing is said of `to`.
#[verifier::external_body]
pub(crate) fn append_field(
    to: &mut http::HeaderMap<http::HeaderValue>,
    from: &http::HeaderMap<http::HeaderValue>,
    at: usize,
) -> (done: bool)
    requires
        at < header_fields(*from).len(),
    ensures
        done ==> field_appended(
            *old(to),
            *final(to),
            header_fields(*from)[at as int].0,
            (header_fields(*from)[at as int].1, header_fields(*from)[at as int].2),
        ),
        header_fields(*old(to)).len() <= ROOM_FOR_ONE_MORE ==> done,
{
    match from.iter().nth(at) {
        Some((name, value)) => to.try_append(name.clone(), value.clone()).is_ok(),
        None => false,
    }
}

/// Sets the field `name` of `to` to the text `value`, by
/// `HeaderMap::try_insert`, with the mark that `HeaderValue::set_sensitive`
/// gives.
///
/// Trusted of it: on success the bytes of `value`, with the mark, are the only
/// value of `name` and the other names keep theirs; it succeeds as
/// [`append_field`] does.
#[verifier::external_body]
pub(crate) fn set_field(
    to: &mut http::HeaderMap<http::HeaderValue>,
    name: &str,
    value: &str,
    sensitive: bool,
) -> (done: bool)
    requires
        plain_name(name@),
        field_safe(value@),
    ensures
        done ==> field_set(
            *old(to),
            *final(to),
            name@,
            (vstd::utf8::encode_utf8(value@), sensitive),
        ),
        header_fields(*old(to)).len() <= ROOM_FOR_ONE_MORE ==> done,
{
    let name = http::HeaderName::from_lowercase(name.as_bytes()).expect("plain header name");
    let mut value = http::HeaderValue::from_str(value).expect("header-safe text");
    value.set_sensitive(sensitive);
    to.try_insert(name, value).is_ok()
}

/// The bytes of the first value of `name`, from `HeaderMap::get`.
#[verifier::external_body]
pub(crate) fn first_value(map: &http::HeaderMap<http::HeaderValue>, name: &str) -> (found: Option<
    Vec<u8>,
>)
    requires
        plain_name(name@),
    ensures
        found is Some <==> header_values(*map, name@).len() > 0,
        found matches Some(bytes) ==> bytes@ == header_values(*map, name@)[0].0,
{
    map.get(name).map(|value| value.as_bytes().to_vec())
}

/// Bytes that are all visible are their own text.
pub(crate) proof fn lemma_byte_text(bytes: Seq<u8>)
    requires
        all_visible(bytes),
    ensures
        vstd::utf8::valid_utf8(bytes),
        vstd::utf8::decode_utf8(bytes) == byte_text(bytes),
        vstd::utf8::encode_utf8(byte_text(bytes)) == bytes,
        field_safe(byte_text(bytes)),
{
    let text = byte_text(bytes);
    assert forall|i: int| 0 <= i < text.len() implies (#[trigger] text[i]) as u32 <= 0x7f by {
        assert(visible_byte(bytes[i]));
    }
    assert(vstd::utf8::is_ascii_chars(text));
    vstd::utf8::is_ascii_chars_encode_utf8(text);
    assert(vstd::utf8::encode_utf8(text) =~= bytes);
    vstd::utf8::encode_utf8_valid_utf8(text);
    vstd::utf8::encode_utf8_decode_utf8(text);
    assert forall|i: int| 0 <= i < bytes.len() implies value_byte(#[trigger] bytes[i]) by {
        assert(visible_byte(bytes[i]));
    }
}

/// A printable ASCII text can stand as a field value.
pub(crate) proof fn lemma_printable_safe(text: Seq<char>)
    requires
        forall|i: int| 0 <= i < text.len() ==> ' ' <= #[trigger] text[i] <= '~',
    ensures
        field_safe(text),
{
    assert(vstd::utf8::is_ascii_chars(text));
    vstd::utf8::is_ascii_chars_encode_utf8(text);
    let bytes = vstd::utf8::encode_utf8(text);
    assert forall|i: int| 0 <= i < bytes.len() implies value_byte(
        #[trigger] bytes[i],
    ) by {
        assert(text[i] as u8 == bytes[i]);
    }
}

/// The text of a field value, where every byte of it is visible.
pub fn visible_text(bytes: &Vec<u8>) -> (text: Option<String>)
    ensures
        text is Some <==> all_visible(bytes@),
        text matches Some(found) ==> found@ == byte_text(bytes@),
{
    let mut i: usize = 0;
    while i < bytes.len()
        invariant
            i <= bytes.len(),
            forall|k: int| 0 <= k < i ==> visible_byte(#[trigger] bytes@[k]),
        decreases bytes.len() - i,
    {
        let byte: u8 = bytes[i];
        if !((32 <= byte && byte < 127) || byte == 9) {
            assert(!visible_byte(bytes@[i as int]));
            return None;
        }
        i += 1;
    }
    proof {
        lemma_byte_text(bytes@);
    }
    Some(text_of_bytes(bytes.as_slice()))
}

/// Whether `text` can stand as a field value.
pub fn is_field_safe(text: &str) -> (safe: bool)
    ensures
        safe == field_safe(text@),
{
    let bytes = text.as_bytes();
    let mut i: usize = 0;
    while i < bytes.len()
        invariant
            i <= bytes.len(),
            bytes@ == vstd::utf8::encode_utf8(text@),
            forall|k: int| 0 <= k < i ==> value_byte(#[trigger] bytes@[k]),
        decreases bytes.len() - i,
    {
        let byte: u8 = bytes[i];
        if !((32 <= byte && byte != 127) || byte == 9) {
            assert(!value_byte(bytes@[i as int]));
            return false;
        }
        i += 1;
    }
    true
}

/// Whether `name` is one of `names`.
pub open spec fn named_in(names: Seq<&str>, name: Seq<char>) -> bool {
    exists|i: int| 0 <= i < names.len() && #[trigger] names[i]@ == name
}

/// `to` has the fields of `from` but for those that `dropped` names: every
/// value of each other name, in order.
pub open spec fn kept_except(
    from: http::HeaderMap<http::HeaderValue>,
    to: http::HeaderMap<http::HeaderValue>,
    dropped: Seq<&str>,
) -> bool {
    forall|name: Seq<char>| #[trigger]
        header_values(to, name) == (if named_in(dropped, name) {
            seq![]
        } else {
            header_values(from, name)
        })
}

/// The fields that are not called by a name in `dropped`.
pub open spec fn kept_fields(
    fields: Seq<(Seq<char>, Seq<u8>, bool)>,
    dropped: Seq<&str>,
) -> Seq<(Seq<char>, Seq<u8>, bool)>
    decreases fields.len(),
{
    if fields.len() == 0 {
        seq![]
    } else {
        let earlier = kept_fields(fields.drop_last(), dropped);
        if named_in(dropped, fields.last().0) {
            earlier
        } else {
            earlier.push(fields.last())
        }
    }
}

/// The number of fields of `map` that are not called by a name in `dropped`.
pub open spec fn kept_count(map: http::HeaderMap<http::HeaderValue>, dropped: Seq<&str>) -> nat {
    kept_fields(header_fields(map), dropped).len()
}

/// `one` and `other` differ only in the fields that `dropped` names.
pub open spec fn alike_except(
    one: http::HeaderMap<http::HeaderValue>,
    other: http::HeaderMap<http::HeaderValue>,
    dropped: Seq<&str>,
) -> bool {
    forall|name: Seq<char>|
        !named_in(dropped, name) ==> #[trigger] header_values(one, name) == header_values(
            other,
            name,
        )
}

proof fn lemma_kept_values(
    fields: Seq<(Seq<char>, Seq<u8>, bool)>,
    dropped: Seq<&str>,
    name: Seq<char>,
)
    ensures
        values_of(kept_fields(fields, dropped), name) == (if named_in(dropped, name) {
            seq![]
        } else {
            values_of(fields, name)
        }),
    decreases fields.len(),
{
    if fields.len() > 0 {
        lemma_kept_values(fields.drop_last(), dropped, name);
        let earlier = kept_fields(fields.drop_last(), dropped);
        assert(earlier.push(fields.last()).drop_last() =~= earlier);
    }
}

/// More fields keep no fewer.
proof fn lemma_kept_grows(
    fields: Seq<(Seq<char>, Seq<u8>, bool)>,
    dropped: Seq<&str>,
    at: int,
)
    requires
        0 <= at <= fields.len(),
    ensures
        kept_fields(fields.take(at), dropped).len() <= kept_fields(fields, dropped).len(),
    decreases fields.len(),
{
    if at == fields.len() {
        assert(fields.take(at) =~= fields);
    } else {
        assert(fields.drop_last().take(at) =~= fields.take(at));
        lemma_kept_grows(fields.drop_last(), dropped, at);
    }
}

/// No more fields are kept than there are.
pub(crate) proof fn lemma_kept_at_most(
    fields: Seq<(Seq<char>, Seq<u8>, bool)>,
    dropped: Seq<&str>,
)
    ensures
        kept_fields(fields, dropped).len() <= fields.len(),
    decreases fields.len(),
{
    if fields.len() > 0 {
        lemma_kept_at_most(fields.drop_last(), dropped);
    }
}

/// The index of the last field called `name`, and what is left without it.
proof fn lemma_last_field(fields: Seq<(Seq<char>, Seq<u8>, bool)>, name: Seq<char>) -> (at: int)
    requires
        values_of(fields, name).len() > 0,
    ensures
        0 <= at < fields.len(),
        forall|other: Seq<char>| #[trigger]
            values_of(fields.remove(at), other) == (if other == name {
                values_of(fields, other).drop_last()
            } else {
                values_of(fields, other)
            }),
    decreases fields.len(),
{
    if fields.last().0 == name {
        let at = fields.len() - 1;
        assert(fields.remove(at) =~= fields.drop_last());
        let value = (fields.last().1, fields.last().2);
        assert(values_of(fields.drop_last(), name).push(value).drop_last() =~= values_of(
            fields.drop_last(),
            name,
        ));
        at
    } else {
        let at = lemma_last_field(fields.drop_last(), name);
        let left = fields.drop_last().remove(at);
        assert(fields.remove(at) =~= left.push(fields.last()));
        assert(left.push(fields.last()).drop_last() =~= left);
        assert forall|other: Seq<char>| #[trigger]
            values_of(fields.remove(at), other) == (if other == name {
                values_of(fields, other).drop_last()
            } else {
                values_of(fields, other)
            }) by {
            assert(values_of(left, other) == (if other == name {
                values_of(fields.drop_last(), other).drop_last()
            } else {
                values_of(fields.drop_last(), other)
            }));
        }
        at
    }
}

/// Fields with the same values for every name are equally many.
proof fn lemma_values_count(
    one: Seq<(Seq<char>, Seq<u8>, bool)>,
    other: Seq<(Seq<char>, Seq<u8>, bool)>,
)
    requires
        forall|name: Seq<char>| #[trigger] values_of(one, name) == values_of(other, name),
    ensures
        one.len() == other.len(),
    decreases one.len(),
{
    if one.len() == 0 {
        if other.len() > 0 {
            let name = other.last().0;
            assert(values_of(one, name) == values_of(other, name));
            assert(values_of(other, name).len() > 0);
        }
    } else {
        let name = one.last().0;
        assert(values_of(one, name) == values_of(other, name));
        let at = lemma_last_field(other, name);
        let left = other.remove(at);
        let value = (one.last().1, one.last().2);
        assert forall|each: Seq<char>| #[trigger]
            values_of(one.drop_last(), each) == values_of(left, each) by {
            assert(values_of(one, each) == values_of(other, each));
            if each == name {
                assert(values_of(one.drop_last(), each).push(value).drop_last() =~= values_of(
                    one.drop_last(),
                    each,
                ));
            }
        }
        lemma_values_count(one.drop_last(), left);
    }
}

/// Maps that differ only in dropped fields keep equally many.
pub(crate) proof fn lemma_alike_count(
    one: http::HeaderMap<http::HeaderValue>,
    other: http::HeaderMap<http::HeaderValue>,
    dropped: Seq<&str>,
)
    requires
        alike_except(one, other, dropped),
    ensures
        kept_count(one, dropped) == kept_count(other, dropped),
{
    let first = kept_fields(header_fields(one), dropped);
    let second = kept_fields(header_fields(other), dropped);
    assert forall|name: Seq<char>| #[trigger] values_of(first, name) == values_of(second, name) by {
        lemma_kept_values(header_fields(one), dropped, name);
        lemma_kept_values(header_fields(other), dropped, name);
        if !named_in(dropped, name) {
            assert(header_values(one, name) == header_values(other, name));
        }
    }
    lemma_values_count(first, second);
}

/// Whether `name` is one of `names`.
fn is_named_in(names: &[&'static str], name: &str) -> (found: bool)
    ensures
        found == named_in(names@, name@),
{
    let mut i: usize = 0;
    while i < names.len()
        invariant
            i <= names.len(),
            forall|k: int| 0 <= k < i ==> #[trigger] names@[k]@ != name@,
        decreases names.len() - i,
    {
        if same_text(names[i], name) {
            assert(names@[i as int]@ == name@);
            return true;
        }
        i += 1;
    }
    false
}

/// The fields of `from` but for those that `dropped` names: every value of each
/// other name, in order. `None` where a map cannot hold so many.
pub fn copy_except(
    from: &http::HeaderMap<http::HeaderValue>,
    dropped: &[&'static str],
) -> (copied: Option<http::HeaderMap<http::HeaderValue>>)
    ensures
        kept_count(*from, dropped@) <= ROOM_FOR_ONE_MORE ==> copied is Some,
        copied matches Some(to) ==> kept_except(*from, to, dropped@) && header_fields(to).len()
            == kept_count(*from, dropped@),
{
    let names = field_names(from);
    let ghost fields = header_fields(*from);
    let mut to = no_fields();
    let mut at: usize = 0;
    assert(fields.take(0) =~= Seq::<(Seq<char>, Seq<u8>, bool)>::empty());
    while at < names.len()
        invariant
            at <= names.len(),
            fields == header_fields(*from),
            names.len() == fields.len(),
            forall|i: int| 0 <= i < names.len() ==> #[trigger] names[i]@ == fields[i].0,
            header_fields(to).len() == kept_fields(fields.take(at as int), dropped@).len(),
            forall|name: Seq<char>| #[trigger]
                header_values(to, name) == (if named_in(dropped@, name) {
                    seq![]
                } else {
                    values_of(fields.take(at as int), name)
                }),
        decreases names.len() - at,
    {
        let ghost before = to;
        let ghost later = fields.take(at + 1);
        let ghost name = fields[at as int].0;
        assert(later.drop_last() =~= fields.take(at as int));
        assert(later.last() == fields[at as int]);
        if !is_named_in(dropped, names[at].as_str()) {
            if !append_field(&mut to, from, at) {
                proof {
                    lemma_kept_grows(fields, dropped@, at + 1);
                }
                return None;
            }
        }
        assert forall|other: Seq<char>| #[trigger]
            header_values(to, other) == (if named_in(dropped@, other) {
                seq![]
            } else {
                values_of(later, other)
            }) by {
            if other != name {
                assert(header_values(to, other) == header_values(before, other));
            }
        }
        at += 1;
    }
    assert(fields.take(fields.len() as int) =~= fields);
    Some(to)
}

} // verus!
