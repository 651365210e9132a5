//! The two places where cookies meet the headers of a message: the `Cookie`
//! header values of a request, and the `Set-Cookie` header values of a
//! response.
//!
//! The headers themselves are an `http::HeaderMap`. This module says what
//! such a map holds and wraps the two of its methods that the library calls.

use http::header::COOKIE;
use http::header::SET_COOKIE;
use http::HeaderMap;
use http::HeaderValue;
use vstd::prelude::*;
use vstd::slice::slice_index_get;
use vstd::string::StringSliceAdditionalSpecFns;

verus! {

/// `http::HeaderValue`, of which the verifier sees nothing.
#[verifier::external_type_specification]
#[verifier::external_body]
pub struct ExHeaderValue(HeaderValue);

/// `http::HeaderMap`, of which the verifier sees nothing but what the items
/// below say.
#[verifier::external_type_specification]
#[verifier::external_body]
#[verifier::reject_recursive_types(T)]
pub struct ExHeaderMap<T>(HeaderMap<T>);

/// The values that `headers` holds, by header name in lower case: the
/// bytes of each value, a name's values in the order in which they came.
pub uninterp spec fn header_values(headers: HeaderMap) -> Map<Seq<char>, Seq<Seq<u8>>>;

/// The name of the request header that carries cookies.
pub open spec fn cookie_name() -> Seq<char> {
    "cookie"@
}

/// The name of the response header that sets a cookie.
pub open spec fn set_cookie_name() -> Seq<char> {
    "set-cookie"@
}

/// The values that a map with these contents holds under `name`.
pub open spec fn values_under(contents: Map<Seq<char>, Seq<Seq<u8>>>, name: Seq<char>) -> Seq<
    Seq<u8>,
> {
    if contents.dom().contains(name) {
        contents[name]
    } else {
        Seq::empty()
    }
}

/// Whether a byte is a visible ASCII character, a space or a tab.
pub open spec fn is_visible(byte: u8) -> bool {
    (32 <= byte && byte < 127) || byte == 9
}

/// Whether a byte may stand in a header value: any byte but a control
/// character, the tab being allowed.
pub open spec fn is_sendable(byte: u8) -> bool {
    (32 <= byte && byte != 127) || byte == 9
}

/// Whether every byte of `value` is visible.
pub open spec fn all_visible(value: Seq<u8>) -> bool {
    forall|i: int| 0 <= i < value.len() ==> is_visible(#[trigger] value[i])
}

/// Whether every byte of `value` may stand in a header value.
pub open spec fn all_sendable(value: Seq<u8>) -> bool {
    forall|i: int| 0 <= i < value.len() ==> is_sendable(#[trigger] value[i])
}

/// The characters that the bytes of an ASCII text stand for.
pub open spec fn ascii_text(value: Seq<u8>) -> Seq<char> {
    Seq::new(value.len(), |i: int| value[i] as char)
}

/// The text that says why a header value cannot be read.
pub open spec fn unreadable() -> Seq<char> {
    "failed to convert header to a str"@
}

/// What reading a header value as text gives: its characters where every
/// byte is visible, else the text of the failure.
pub open spec fn reading(value: Seq<u8>) -> Result<Seq<char>, Seq<char>> {
    if all_visible(value) {
        Ok(ascii_text(value))
    } else {
        Err(unreadable())
    }
}

/// What came of reading a header value, as mathematical values.
pub open spec fn read_view(read: Result<String, String>) -> Result<Seq<char>, Seq<char>> {
    match read {
        Ok(text) => Ok(text@),
        Err(message) => Err(message@),
    }
}

/// `http::HeaderMap::get_all` under `cookie`, each value read with
/// `http::HeaderValue::to_str`: the values of the `Cookie` headers in
/// order, each as its text, or as the text that the error's `Display` writes
/// where a byte of it is not visible.
#[verifier::external_body]
pub(crate) fn cookie_values(headers: &HeaderMap) -> (values: Vec<Result<String, String>>)
    ensures
        values.len() == values_under(header_values(*headers), cookie_name()).len(),
        forall|i: int|
            0 <= i < values.len() ==> read_view(#[trigger] values[i]) == reading(
                values_under(header_values(*headers), cookie_name())[i],
            ),
{
    headers
        .get_all(COOKIE)
        .iter()
        .map(|v| v.to_str().map(str::to_owned).map_err(|e| e.to_string()))
        .collect()
}

/// `http::HeaderMap::try_append` under `set-cookie`, of the value that
/// `http::HeaderValue::from_str` makes of `line`: where it answers `true`,
/// the bytes of `line` are the last value under `set-cookie` and nothing
/// else changed; where the map cannot grow it answers `false` and nothing
/// changed.
#[verifier::external_body]
pub(crate) fn append_set_cookie(headers: &mut HeaderMap, line: &str) -> (done: bool)
    requires
        all_sendable(line.spec_bytes()),
    ensures
        done ==> header_values(*final(headers)) == header_values(*old(headers)).insert(
            set_cookie_name(),
            values_under(header_values(*old(headers)), set_cookie_name()).push(line.spec_bytes()),
        ),
        !done ==> header_values(*final(headers)) == header_values(*old(headers)),
{
    match HeaderValue::from_str(line) {
        Ok(value) => headers.try_append(SET_COOKIE, value).is_ok(),
        Err(_) => false,
    }
}

/// Whether `line` can be sent as a header value.
pub fn can_send(line: &str) -> (yes: bool)
    ensures
        yes == all_sendable(line.spec_bytes()),
{
    let bytes = line.as_bytes();
    let mut i: usize = 0;
    while i < bytes.len()
        invariant
            i <= bytes.len(),
            bytes@ == line.spec_bytes(),
            forall|k: int| 0 <= k < i ==> is_sendable(#[trigger] bytes@[k]),
        decreases bytes.len() - i,
    {
        let byte = *slice_index_get(bytes, i);
        if !((32 <= byte && byte != 127) || byte == 9) {
            return false;
        }
        i += 1;
    }
    true
}

} // verus!
