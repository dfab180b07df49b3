//! Reading response headers as text.

use vstd::prelude::*;

use reqwest::header::HeaderMap;

use crate::text::push_char;

verus! {

#[verifier::external_type_specification]
#[verifier::external_body]
#[verifier::reject_recursive_types(T)]
pub struct ExHeaderMap<T>(reqwest::header::HeaderMap<T>);

#[verifier::external_type_specification]
#[verifier::external_body]
pub struct ExHeaderValue(reqwest::header::HeaderValue);

/// What a header map holds: for each header name, in lower case, the values
/// stored under it, first value first.
pub uninterp spec fn header_values(headers: HeaderMap) -> Map<Seq<char>, Seq<Seq<u8>>>;

/// A header name made of lower-case ASCII letters, digits and `-`.
pub open spec fn is_plain_header_name(name: Seq<char>) -> bool {
    &&& name.len() > 0
    &&& forall|i: int|
        0 <= i < name.len() ==> ('a' <= #[trigger] name[i] && name[i] <= 'z') || ('0' <= name[i]
            && name[i] <= '9') || name[i] == '-'
}

/// The first value stored under `name`, if any.
pub open spec fn first_header(headers: HeaderMap, name: Seq<char>) -> Option<Seq<u8>> {
    let values = header_values(headers);
    if values.contains_key(name) && values[name].len() > 0 {
        Some(values[name][0])
    } else {
        None
    }
}

/// `HeaderMap::get` with a header name, and the bytes of the value it finds.
/// For a lower-case name of letters, digits and `-`, `get` hashes the name and
/// returns the first value stored under it; the contract states that case only
/// and leaves other names unsaid.
#[verifier::external_body]
fn header_bytes(headers: &HeaderMap, name: &str) -> (r: Option<Vec<u8>>)
    ensures
        is_plain_header_name(name@) ==> match r {
            Some(b) => header_values(*headers).contains_key(name@)
                && header_values(*headers)[name@].len() > 0 && header_values(*headers)[name@][0]
                == b@,
            None => !(header_values(*headers).contains_key(name@) && header_values(
                *headers,
            )[name@].len() > 0),
        },
{
    headers.get(name).map(|value| value.as_bytes().to_vec())
}

/// `HeaderValue::to_str`: a value made only of visible ASCII characters and tabs
/// reads as that text; any other value is refused.
pub open spec fn visible_text(bytes: Seq<u8>) -> Option<Seq<char>> {
    if forall|i: int| 0 <= i < bytes.len() ==> is_visible_ascii(#[trigger] bytes[i]) {
        Some(bytes.map_values(|b: u8| b as char))
    } else {
        None
    }
}

pub open spec fn is_visible_ascii(b: u8) -> bool {
    (32 <= b && b < 127) || b == 9
}

/// The text of a header value, as `HeaderValue::to_str` gives it.
pub fn value_text(bytes: &Vec<u8>) -> (r: Option<String>)
    ensures
        match r {
            Some(s) => visible_text(bytes@) == Some(s@),
            None => visible_text(bytes@) is None,
        },
{
    let mut out = String::new();
    let mut i: usize = 0;
    while i < bytes.len()
        invariant
            i <= bytes@.len(),
            out@ =~= bytes@.take(i as int).map_values(|b: u8| b as char),
            forall|k: int| 0 <= k < i ==> is_visible_ascii(#[trigger] bytes@[k]),
        decreases bytes.len() - i,
    {
        let b = bytes[i];
        if !((32 <= b && b < 127) || b == 9) {
            return None;
        }
        push_char(&mut out, b as char);
        assert(bytes@.take(i + 1) =~= bytes@.take(i as int).push(b));
        i = i + 1;
    }
    assert(bytes@.take(i as int) =~= bytes@);
    Some(out)
}

/// The text of the first value under `name`: `headers.get(name)` then `to_str`.
pub open spec fn header_text(headers: HeaderMap, name: Seq<char>) -> Option<Seq<char>> {
    match first_header(headers, name) {
        Some(b) => visible_text(b),
        None => None,
    }
}

/// Reads a header as text: absent, or not visible ASCII, gives `None`.
pub fn text_of(headers: &HeaderMap, name: &str) -> (r: Option<String>)
    requires
        is_plain_header_name(name@),
    ensures
        match r {
            Some(s) => header_text(*headers, name@) == Some(s@),
            None => header_text(*headers, name@) is None,
        },
{
    match header_bytes(headers, name) {
        Some(b) => value_text(&b),
        None => None,
    }
}

/// Whether a header is present at all.
pub fn has_header(headers: &HeaderMap, name: &str) -> (r: bool)
    requires
        is_plain_header_name(name@),
    ensures
        r == first_header(*headers, name@) is Some,
{
    header_bytes(headers, name).is_some()
}

} // verus!
