//! Header maps and header values of the `http` crate.
use vstd::prelude::*;

use crate::http::text;

verus! {

/// A header map is opaque; [`header_fields`] says what it holds.
#[verifier::external_type_specification]
#[verifier::external_body]
#[verifier::reject_recursive_types(T)]
pub struct ExHeaderMap<T>(::http::HeaderMap<T>);

/// A header value is opaque; [`header_value_bytes`] says what it holds.
#[verifier::external_type_specification]
#[verifier::external_body]
pub struct ExHeaderValue(::http::HeaderValue);

/// What a header map holds: for each name that it holds, in lower case, the bytes of the values
/// under that name, in the order in which they were added. A name that it holds has a value.
pub uninterp spec fn header_fields(headers: ::http::HeaderMap) -> Map<Seq<char>, Seq<Seq<u8>>>;

/// The bytes of a header value.
pub uninterp spec fn header_value_bytes(value: ::http::HeaderValue) -> Seq<u8>;

/// The fields of a header map that holds nothing.
pub open spec fn no_fields() -> Map<Seq<char>, Seq<Seq<u8>>> {
    Map::empty()
}

/// The values that a header map holds under a name.
pub open spec fn field_values(headers: ::http::HeaderMap, name: Seq<char>) -> Seq<Seq<u8>> {
    if header_fields(headers).dom().contains(name) {
        header_fields(headers)[name]
    } else {
        Seq::empty()
    }
}

/// Whether a byte stands for a character that header text can hold.
pub open spec fn is_text_byte(byte: u8) -> bool {
    byte == 0x09 || 0x20 <= byte <= 0x7e
}

/// The text of a header value, if all of its bytes are text.
pub open spec fn header_text(bytes: Seq<u8>) -> Option<Seq<char>> {
    if forall|i: int| 0 <= i < bytes.len() ==> is_text_byte(#[trigger] bytes[i]) {
        Some(Seq::new(bytes.len(), |i: int| bytes[i] as char))
    } else {
        None
    }
}

/// The decimal digits of a number, as ASCII bytes.
pub open spec fn decimal(number: nat) -> Seq<u8>
    decreases number,
{
    let digit = (0x30 + number % 10) as u8;
    if number < 10 {
        seq![digit]
    } else {
        decimal(number / 10).push(digit)
    }
}

/// Whether a header name is written in lower case, as header maps keep their names.
pub open spec fn is_lower_case(name: Seq<char>) -> bool {
    forall|i: int| 0 <= i < name.len() ==> !('A' <= #[trigger] name[i] <= 'Z')
}

/// `HeaderMap::new` makes a map that holds nothing.
#[verifier::external_body]
pub(crate) fn empty_headers() -> (r: ::http::HeaderMap)
    ensures
        header_fields(r) == no_fields(),
{
    ::http::HeaderMap::new()
}

/// `HeaderValue::to_str` gives the value as text if every byte of it is visible ASCII or a tab,
/// and fails otherwise.
#[verifier::external_body]
fn value_to_str<'a>(value: &'a ::http::HeaderValue) -> (r: Option<&'a str>)
    ensures
        match header_text(header_value_bytes(*value)) {
            Some(text) => r matches Some(found) && found@ == text,
            None => r is None,
        },
{
    value.to_str().ok()
}

/// `HeaderMap::get` returns the first of the values under a name, if there is one.
#[verifier::external_body]
pub(crate) fn first_value<'a>(headers: &'a ::http::HeaderMap, name: &str) -> (r: Option<
    &'a ::http::HeaderValue,
>)
    requires
        is_lower_case(name@),
    ensures
        match r {
            Some(value) => field_values(*headers, name@).len() > 0 && header_value_bytes(*value)
                == field_values(*headers, name@)[0],
            None => field_values(*headers, name@).len() == 0,
        },
{
    headers.get(name)
}

/// `HeaderMap::get_all` walks all the values under a name, in order.
#[verifier::external_body]
pub(crate) fn all_values<'a>(headers: &'a ::http::HeaderMap, name: &str) -> (r: Vec<
    &'a ::http::HeaderValue,
>)
    requires
        is_lower_case(name@),
    ensures
        r@.len() == field_values(*headers, name@).len(),
        forall|i: int|
            0 <= i < r@.len() ==> header_value_bytes(*#[trigger] r@[i]) == field_values(
                *headers,
                name@,
            )[i],
{
    headers.get_all(name).iter().collect()
}

/// `HeaderValue::from` a `u64` writes the number in decimal.
#[verifier::external_body]
pub(crate) fn number_value(number: u64) -> (r: ::http::HeaderValue)
    ensures
        header_value_bytes(r) == decimal(number as nat),
{
    ::http::HeaderValue::from(number)
}

/// `HeaderMap::insert` under `retry-after`, on a map that holds nothing: the map then holds that
/// one value under that name.
#[verifier::external_body]
pub(crate) fn insert_retry_after(headers: &mut ::http::HeaderMap, value: ::http::HeaderValue)
    requires
        header_fields(*old(headers)) == no_fields(),
    ensures
        header_fields(*final(headers)) == no_fields().insert(
            "retry-after"@,
            seq![header_value_bytes(value)],
        ),
{
    headers.insert(::http::header::RETRY_AFTER, value);
}

/// The text of a header value, if all of its bytes are text.
pub(crate) fn value_text<'a>(value: &'a ::http::HeaderValue) -> (r: Option<&'a str>)
    ensures
        match header_text(header_value_bytes(*value)) {
            Some(text) => r matches Some(found) && found@ == text
                && text::is_header_text(text),
            None => r is None,
        },
{
    let r = value_to_str(value);
    proof {
        if let Some(text) = header_text(header_value_bytes(*value)) {
            assert(text::is_header_text(text));
        }
    }
    r
}

/// The number that decimal digits spell.
pub open spec fn spelled_number(digits: Seq<u8>) -> int
    decreases digits.len(),
{
    if digits.len() == 0 {
        0
    } else {
        10 * spelled_number(digits.drop_last()) + (digits.last() - 0x30)
    }
}

/// The decimal digits of a number are digits, spell the number, and have no zero in front unless
/// the number is zero.
pub proof fn law_decimal_spells_the_number(number: nat)
    ensures
        spelled_number(decimal(number)) == number,
        decimal(number).len() > 0,
        forall|i: int|
            0 <= i < decimal(number).len() ==> 0x30 <= #[trigger] decimal(number)[i] <= 0x39,
        decimal(number)[0] == 0x30 ==> number == 0 && decimal(number).len() == 1,
    decreases number,
{
    let digits = decimal(number);
    if number < 10 {
        assert(spelled_number(digits.drop_last()) == 0);
    } else {
        let init = decimal(number / 10);
        law_decimal_spells_the_number(number / 10);
        assert(digits.drop_last() == init);
        assert(digits[0] == init[0]);
        assert forall|i: int| 0 <= i < digits.len() implies 0x30 <= #[trigger] digits[i]
            <= 0x39 by {
            if i < init.len() {
                assert(digits[i] == init[i]);
            }
        }
    }
}

/// A header value is text exactly when each of its bytes is a tab or from the space to the tilde,
/// and the text has each byte for a character.
pub proof fn law_header_text(bytes: Seq<u8>)
    ensures
        header_text(bytes) is None <==> exists|i: int|
            0 <= i < bytes.len() && #[trigger] bytes[i] != 9 && !(32 <= bytes[i] <= 126),
        header_text(bytes) matches Some(text) ==> text.len() == bytes.len() && forall|i: int|
            0 <= i < text.len() ==> #[trigger] text[i] as u32 == bytes[i],
{
    if header_text(bytes) is None {
        let i = choose|i: int| 0 <= i < bytes.len() && !is_text_byte(#[trigger] bytes[i]);
        assert(bytes[i] != 9);
    }
}

} // verus!
