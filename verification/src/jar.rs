//! The cookie jar of one request: the cookies it holds by name, and the
//! changes made to it since it was decoded.
//!
//! The jar itself is `cookie_rs::CookieJar`. This module says what that jar
//! holds, wraps each of its methods that the library calls, and offers the
//! operations with their contracts.

use cookie_rs::cookie::SameSite as Policy;
use cookie_rs::CookieJar;
use std::time::Duration;
use vstd::prelude::*;

use crate::cookie::Cookie;
use crate::cookie::CookieView;
use crate::cookie::SameSite;
use crate::text::precedes;

verus! {

/// `cookie_rs::CookieJar`, of which the verifier sees nothing but what the
/// items below say.
#[verifier::external_type_specification]
#[verifier::external_body]
pub struct ExCookieJar<'a>(CookieJar<'a>);

/// A change made to a jar under one name since the jar was decoded.
pub enum Change {
    /// A cookie was stored under the name.
    Stored(CookieView),
    /// The name was removed.
    Removed,
}

/// The cookies that `jar` holds now, by name.
pub uninterp spec fn jar_cookies(jar: CookieJar<'static>) -> Map<Seq<char>, CookieView>;

/// The changes made to `jar` since it was decoded, by name: for each name
/// the last one.
pub uninterp spec fn jar_changes(jar: CookieJar<'static>) -> Map<Seq<char>, Change>;

/// What decoding a `Cookie` header value in lenient mode gives: the cookies
/// by name, or the text of the failure.
pub uninterp spec fn lenient_decoding(text: Seq<char>) -> Result<Map<Seq<char>, CookieView>, Seq<char>>;

/// What decoding a `Cookie` header value in strict mode gives: the cookies
/// by name, or the text of the failure.
pub uninterp spec fn strict_decoding(text: Seq<char>) -> Result<Map<Seq<char>, CookieView>, Seq<char>>;

/// What decoding gives in the chosen mode.
pub open spec fn decoding(strict: bool, text: Seq<char>) -> Result<Map<Seq<char>, CookieView>, Seq<char>> {
    if strict {
        strict_decoding(text)
    } else {
        lenient_decoding(text)
    }
}

/// The decoding that gives a jar without cookies.
pub open spec fn empty_decoding() -> Result<Map<Seq<char>, CookieView>, Seq<char>> {
    Ok(Map::empty())
}

/// A jar's changes where none was made.
pub open spec fn no_changes() -> Map<Seq<char>, Change> {
    Map::empty()
}

/// What came of a decoding, as mathematical values: the cookies of the jar
/// by name, or the text of the failure.
pub open spec fn decoded_view(decoded: Result<CookieJar<'static>, String>) -> Result<
    Map<Seq<char>, CookieView>,
    Seq<char>,
> {
    match decoded {
        Ok(jar) => Ok(jar_cookies(jar)),
        Err(message) => Err(message@),
    }
}

/// Whether `names` holds each member of `set` once, in ascending order.
pub open spec fn is_listing(names: Seq<Seq<char>>, set: Set<Seq<char>>) -> bool {
    &&& forall|i: int, j: int| 0 <= i < j < names.len() ==> precedes(names[i], names[j])
    &&& forall|i: int| 0 <= i < names.len() ==> set.contains(#[trigger] names[i])
    &&& forall|n: Seq<char>| set.contains(n) ==> names.contains(n)
}

/// The names of `all`, in order.
pub open spec fn names_of(all: Seq<CookieView>) -> Seq<Seq<char>> {
    Seq::new(all.len(), |i: int| all[i].name)
}

/// The views of `all`, in order.
pub open spec fn views_of(all: Seq<Cookie>) -> Seq<CookieView> {
    Seq::new(all.len(), |i: int| all[i]@)
}

/// Whether `all` holds each cookie of `cookies` once, in ascending order of
/// the names.
pub open spec fn lists(all: Seq<CookieView>, cookies: Map<Seq<char>, CookieView>) -> bool {
    &&& is_listing(names_of(all), cookies.dom())
    &&& forall|i: int| 0 <= i < all.len() ==> cookies[all[i].name] == #[trigger] all[i]
}

/// The suffix of the header value that tells a client to drop a cookie.
pub open spec fn removal_suffix() -> Seq<char> {
    "=removed; Max-Age=0"@
}

/// The `Set-Cookie` header value that tells a client of one change.
pub open spec fn change_line(name: Seq<char>, change: Change) -> Seq<char> {
    match change {
        Change::Stored(cookie) => cookie.line(),
        Change::Removed => name + removal_suffix(),
    }
}

/// Whether `lines` holds one header value for each change, in ascending
/// order of the names.
pub open spec fn serializes(lines: Seq<Seq<char>>, changes: Map<Seq<char>, Change>) -> bool {
    exists|names: Seq<Seq<char>>|
        {
            &&& #[trigger] is_listing(names, changes.dom())
            &&& lines.len() == names.len()
            &&& forall|i: int|
                0 <= i < names.len() ==> lines[i] == change_line(names[i], changes[names[i]])
        }
}

/// The views of `lines`, in order.
pub open spec fn lines_of(lines: Seq<String>) -> Seq<Seq<char>> {
    Seq::new(lines.len(), |i: int| lines[i]@)
}

/// `cookie_rs::CookieJar::add`: stores the cookie under its name, in place
/// of what the jar held or had removed under that name, and records that as
/// the last change under the name.
#[verifier::external_body]
fn jar_add(jar: &mut CookieJar<'static>, cookie: Cookie)
    ensures
        jar_cookies(*final(jar)) == jar_cookies(*old(jar)).insert(cookie@.name, cookie@),
        jar_changes(*final(jar)) == jar_changes(*old(jar)).insert(
            cookie@.name,
            Change::Stored(cookie@),
        ),
{
    let mut c = cookie_rs::Cookie::new(cookie.name, cookie.value);
    if let Some(v) = cookie.domain { c.set_domain(v) }
    if let Some(v) = cookie.expires { c.set_expires(v) }
    c.set_http_only(cookie.http_only);
    if let Some(v) = cookie.max_age { c.set_max_age(Duration::from_secs(v)) }
    c.set_partitioned(cookie.partitioned);
    if let Some(v) = cookie.path { c.set_path(v) }
    c.set_secure(cookie.secure);
    match cookie.same_site {
        Some(SameSite::Strict) => c.set_same_site(Policy::Strict),
        Some(SameSite::Lax) => c.set_same_site(Policy::Lax),
        Some(SameSite::Unrestricted) => c.set_same_site(Policy::None),
        None => (),
    }
    jar.add(c)
}

/// `cookie_rs::CookieJar::remove`: drops what the jar holds under the name,
/// if anything, and records the removal as the last change under the name.
#[verifier::external_body]
fn jar_remove(jar: &mut CookieJar<'static>, name: String)
    ensures
        jar_cookies(*final(jar)) == jar_cookies(*old(jar)).remove(name@),
        jar_changes(*final(jar)) == jar_changes(*old(jar)).insert(name@, Change::Removed),
{
    jar.remove(name)
}

/// `cookie_rs::CookieJar::get`: the cookie that the jar holds under the
/// name, which is the name of that cookie, or nothing where it holds none.
#[verifier::external_body]
fn jar_get(jar: &CookieJar<'static>, name: &str) -> (found: Option<Cookie>)
    ensures
        found matches Some(c) ==> jar_cookies(*jar).dom().contains(name@) && c@
            == jar_cookies(*jar)[name@] && c@.name == name@,
        found is None ==> !jar_cookies(*jar).dom().contains(name@),
{
    jar.get(name).map(|c| Cookie {
        name: c.name().to_owned(), value: c.value().to_owned(),
        domain: c.domain().map(str::to_owned),
        expires: c.expires().map(str::to_owned),
        path: c.path().map(str::to_owned),
        max_age: c.max_age().map(|d| d.as_secs()),
        http_only: c.http_only().unwrap_or(false),
        partitioned: c.partitioned().unwrap_or(false),
        secure: c.secure().unwrap_or(false),
        same_site: c.same_site().map(|s| match s {
            Policy::Strict => SameSite::Strict,
            Policy::Lax => SameSite::Lax,
            Policy::None => SameSite::Unrestricted,
        }),
    })
}

/// `cookie_rs::CookieJar::cookie`: every cookie that the jar holds, once, in
/// ascending order of the names. The jar keeps its cookies in sets ordered
/// by name, and the order of `str` is the order of the characters' codes.
#[verifier::external_body]
fn jar_all(jar: &CookieJar<'static>) -> (all: Vec<Cookie>)
    ensures
        lists(views_of(all@), jar_cookies(*jar)),
{
    jar.cookie().into_iter().map(|c| Cookie {
        name: c.name().to_owned(), value: c.value().to_owned(),
        domain: c.domain().map(str::to_owned),
        expires: c.expires().map(str::to_owned),
        path: c.path().map(str::to_owned),
        max_age: c.max_age().map(|d| d.as_secs()),
        http_only: c.http_only().unwrap_or(false),
        partitioned: c.partitioned().unwrap_or(false),
        secure: c.secure().unwrap_or(false),
        same_site: c.same_site().map(|s| match s {
            Policy::Strict => SameSite::Strict,
            Policy::Lax => SameSite::Lax,
            Policy::None => SameSite::Unrestricted,
        }),
    }).collect()
}

/// `cookie_rs::CookieJar::as_header_values`: one `Set-Cookie` header value
/// for each change, in ascending order of the names. A stored cookie gives
/// the text that its `Display` writes, a removal the name followed by
/// `=removed; Max-Age=0`.
#[verifier::external_body]
fn jar_header_values(jar: &CookieJar<'static>) -> (lines: Vec<String>)
    ensures
        serializes(lines_of(lines@), jar_changes(*jar)),
{
    jar.as_header_values()
}

/// `cookie_rs::CookieJar::parse`: decodes a `Cookie` header value in lenient
/// mode. The jar that comes back has no change recorded, and the text of a
/// failure is what the error's `Display` writes. A text without characters
/// decodes to a jar without cookies.
#[verifier::external_body]
fn jar_parse(text: String) -> (decoded: Result<CookieJar<'static>, String>)
    ensures
        decoded_view(decoded) == lenient_decoding(text@),
        decoded matches Ok(jar) ==> jar_changes(jar) == no_changes(),
        text@.len() == 0 ==> decoded_view(decoded) == empty_decoding(),
{
    CookieJar::parse(text).map_err(|e| e.to_string())
}

/// `cookie_rs::CookieJar::parse_strict`: decodes a `Cookie` header value in
/// strict mode. The jar that comes back has no change recorded, and the text
/// of a failure is what the error's `Display` writes. A text without
/// characters decodes to a jar without cookies.
#[verifier::external_body]
fn jar_parse_strict(text: String) -> (decoded: Result<CookieJar<'static>, String>)
    ensures
        decoded_view(decoded) == strict_decoding(text@),
        decoded matches Ok(jar) ==> jar_changes(jar) == no_changes(),
        text@.len() == 0 ==> decoded_view(decoded) == empty_decoding(),
{
    CookieJar::parse_strict(text).map_err(|e| e.to_string())
}

/// Stores `cookie` in the jar under its name. What the jar held under that
/// name is replaced; every other name keeps what it had.
pub fn insert(jar: &mut CookieJar<'static>, cookie: Cookie)
    ensures
        jar_cookies(*final(jar)) == jar_cookies(*old(jar)).insert(cookie@.name, cookie@),
        jar_changes(*final(jar)) == jar_changes(*old(jar)).insert(
            cookie@.name,
            Change::Stored(cookie@),
        ),
{
    jar_add(jar, cookie)
}

/// Removes the cookie of that name from the jar; a jar without it keeps
/// its cookies. Either way the removal is recorded.
pub fn discard(jar: &mut CookieJar<'static>, name: &str)
    ensures
        jar_cookies(*final(jar)) == jar_cookies(*old(jar)).remove(name@),
        jar_changes(*final(jar)) == jar_changes(*old(jar)).insert(name@, Change::Removed),
{
    jar_remove(jar, name.to_owned())
}

/// The cookie that a jar with these cookies gives for `name`.
pub open spec fn lookup(cookies: Map<Seq<char>, CookieView>, name: Seq<char>) -> Option<
    CookieView,
> {
    if cookies.dom().contains(name) {
        Some(cookies[name])
    } else {
        None
    }
}

/// The view of a cookie that may be absent.
pub open spec fn found_view(found: Option<Cookie>) -> Option<CookieView> {
    match found {
        Some(c) => Some(c@),
        None => None,
    }
}

/// The cookie that the jar holds under `name`, if it holds one.
pub fn find(jar: &CookieJar<'static>, name: &str) -> (found: Option<Cookie>)
    ensures
        found_view(found) == lookup(jar_cookies(*jar), name@),
        found matches Some(c) ==> c@.name == name@,
{
    jar_get(jar, name)
}

/// Every cookie that the jar holds, in ascending order of the names.
pub fn list(jar: &CookieJar<'static>) -> (all: Vec<Cookie>)
    ensures
        lists(views_of(all@), jar_cookies(*jar)),
{
    jar_all(jar)
}

/// The `Set-Cookie` header values that tell a client what changed in the
/// jar: one for each name that was stored or removed since the jar was
/// decoded, in ascending order of the names. A cookie that came with the
/// request and was not touched gives none.
pub fn serialize(jar: &CookieJar<'static>) -> (lines: Vec<String>)
    ensures
        serializes(lines_of(lines@), jar_changes(*jar)),
{
    jar_header_values(jar)
}

/// Decodes a `Cookie` header value into a jar, in strict or in lenient
/// mode. The new jar has no change recorded.
pub fn decode(text: String, strict: bool) -> (decoded: Result<CookieJar<'static>, String>)
    ensures
        decoded_view(decoded) == decoding(strict, text@),
        decoded matches Ok(jar) ==> jar_changes(jar) == no_changes(),
        text@.len() == 0 ==> decoded_view(decoded) == empty_decoding(),
{
    if strict {
        jar_parse_strict(text)
    } else {
        jar_parse(text)
    }
}

} // verus!
