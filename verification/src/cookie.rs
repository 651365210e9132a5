//! A single cookie: its name, its value and its attributes, and what the
//! `Set-Cookie` header value that sets it reads.

use vstd::prelude::*;

use crate::text::folded;
use crate::text::same_but_for_case;

verus! {

/// The `SameSite` attribute of a cookie.
#[derive(Clone, Copy, Debug, PartialEq, Eq)]
pub enum SameSite {
    /// Sent with same-site requests only.
    Strict,
    /// Sent with same-site requests and top-level navigations.
    Lax,
    /// Sent with every request; written `SameSite=None` in a header.
    Unrestricted,
}

impl SameSite {
    /// The word that stands for the policy in a header.
    pub open spec fn word(self) -> Seq<char> {
        match self {
            SameSite::Strict => "Strict"@,
            SameSite::Lax => "Lax"@,
            SameSite::Unrestricted => "None"@,
        }
    }
}

/// What a cookie is, as mathematical values.
#[verifier::ext_equal]
pub struct CookieView {
    /// The name, by which a jar keeps the cookie.
    pub name: Seq<char>,
    /// The value.
    pub value: Seq<char>,
    /// The `Domain` attribute, if it is set.
    pub domain: Option<Seq<char>>,
    /// The `Expires` attribute, if it is set: a date as it stands in the
    /// header.
    pub expires: Option<Seq<char>>,
    /// Whether the `HttpOnly` attribute is set.
    pub http_only: bool,
    /// The `Max-Age` attribute in whole seconds, if it is set.
    pub max_age: Option<u64>,
    /// Whether the `Partitioned` attribute is set.
    pub partitioned: bool,
    /// The `Path` attribute, if it is set.
    pub path: Option<Seq<char>>,
    /// The `SameSite` attribute, if it is set.
    pub same_site: Option<SameSite>,
    /// Whether the `Secure` attribute is set.
    pub secure: bool,
}

/// The decimal digit for `d`, for `d` below ten.
pub open spec fn digit(d: nat) -> char {
    seq!['0', '1', '2', '3', '4', '5', '6', '7', '8', '9'][d as int]
}

/// The decimal numeral of `n`, without leading zeros.
pub open spec fn decimal(n: nat) -> Seq<char>
    decreases n,
{
    if n < 10 {
        seq![digit(n)]
    } else {
        decimal(n / 10).push(digit(n % 10))
    }
}

/// The label and the text behind it where there is a text, else nothing.
pub open spec fn optional(label: Seq<char>, text: Option<Seq<char>>) -> Seq<char> {
    match text {
        Some(t) => label + t,
        None => Seq::empty(),
    }
}

/// The label where the flag is set, else nothing.
pub open spec fn flag(label: Seq<char>, on: bool) -> Seq<char> {
    if on {
        label
    } else {
        Seq::empty()
    }
}

/// The decimal numeral of a number of seconds that may be absent.
pub open spec fn numeral_of(seconds: Option<u64>) -> Option<Seq<char>> {
    match seconds {
        Some(s) => Some(decimal(s as nat)),
        None => None,
    }
}

/// The word of a policy that may be absent.
pub open spec fn word_of(same_site: Option<SameSite>) -> Option<Seq<char>> {
    match same_site {
        Some(s) => Some(s.word()),
        None => None,
    }
}

impl CookieView {
    /// The cookie of that name and value with no attribute set.
    pub open spec fn plain(name: Seq<char>, value: Seq<char>) -> CookieView {
        CookieView {
            name,
            value,
            domain: None,
            expires: None,
            http_only: false,
            max_age: None,
            partitioned: false,
            path: None,
            same_site: None,
            secure: false,
        }
    }

    /// The `Set-Cookie` header value that sets this cookie: name and value,
    /// then each attribute that is set, in alphabetical order.
    pub open spec fn line(self) -> Seq<char> {
        self.name + "="@ + self.value
            + optional("; Domain="@, self.domain)
            + optional("; Expires="@, self.expires)
            + flag("; HttpOnly"@, self.http_only)
            + optional("; Max-Age="@, numeral_of(self.max_age))
            + flag("; Partitioned"@, self.partitioned)
            + optional("; Path="@, self.path)
            + optional("; SameSite="@, word_of(self.same_site))
            + flag("; Secure"@, self.secure)
    }
}

/// A cookie.
///
/// Two cookies are equal where they agree in name, value and every
/// attribute, the `Domain` and the `Path` being compared without regard to
/// the case of ASCII letters.
#[derive(Clone, Debug, Eq)]
pub struct Cookie {
    pub(crate) name: String,
    pub(crate) value: String,
    pub(crate) domain: Option<String>,
    pub(crate) expires: Option<String>,
    pub(crate) http_only: bool,
    pub(crate) max_age: Option<u64>,
    pub(crate) partitioned: bool,
    pub(crate) path: Option<String>,
    pub(crate) same_site: Option<SameSite>,
    pub(crate) secure: bool,
}

/// The view of a text that may be absent.
pub open spec fn text_view(text: Option<String>) -> Option<Seq<char>> {
    match text {
        Some(s) => Some(s@),
        None => None,
    }
}

/// The view of a borrowed text that may be absent.
pub open spec fn slice_view(text: Option<&str>) -> Option<Seq<char>> {
    match text {
        Some(s) => Some(s@),
        None => None,
    }
}

impl View for Cookie {
    type V = CookieView;

    closed spec fn view(&self) -> CookieView {
        CookieView {
            name: self.name@,
            value: self.value@,
            domain: text_view(self.domain),
            expires: text_view(self.expires),
            http_only: self.http_only,
            max_age: self.max_age,
            partitioned: self.partitioned,
            path: text_view(self.path),
            same_site: self.same_site,
            secure: self.secure,
        }
    }
}

/// Whether two texts that may be absent are both absent or the same but
/// for the case of ASCII letters.
pub open spec fn same_folded(a: Option<Seq<char>>, b: Option<Seq<char>>) -> bool {
    match (a, b) {
        (Some(x), Some(y)) => folded(x) == folded(y),
        (None, None) => true,
        _ => false,
    }
}

impl CookieView {
    /// Whether two cookies are equal: the same in name, value and every
    /// attribute, `Domain` and `Path` without regard to the case of ASCII
    /// letters.
    pub open spec fn matches(self, other: CookieView) -> bool {
        &&& self.name == other.name
        &&& self.value == other.value
        &&& same_folded(self.domain, other.domain)
        &&& self.expires == other.expires
        &&& self.http_only == other.http_only
        &&& self.max_age == other.max_age
        &&& self.partitioned == other.partitioned
        &&& same_folded(self.path, other.path)
        &&& self.same_site == other.same_site
        &&& self.secure == other.secure
    }
}

/// Whether the two texts are both absent or the same.
fn equal_texts(a: &Option<String>, b: &Option<String>) -> (same: bool)
    ensures
        same == (text_view(*a) == text_view(*b)),
{
    match (a, b) {
        (Some(x), Some(y)) => *x == *y,
        (None, None) => true,
        _ => false,
    }
}

/// Whether the two texts are both absent or the same but for the case of
/// ASCII letters.
fn equal_folded(a: &Option<String>, b: &Option<String>) -> (same: bool)
    ensures
        same == same_folded(text_view(*a), text_view(*b)),
{
    match (a, b) {
        (Some(x), Some(y)) => same_but_for_case(x.as_str(), y.as_str()),
        (None, None) => true,
        _ => false,
    }
}

/// Whether the two policies are both absent or the same.
fn equal_policies(a: Option<SameSite>, b: Option<SameSite>) -> (same: bool)
    ensures
        same == (a == b),
{
    match (a, b) {
        (Some(SameSite::Strict), Some(SameSite::Strict)) => true,
        (Some(SameSite::Lax), Some(SameSite::Lax)) => true,
        (Some(SameSite::Unrestricted), Some(SameSite::Unrestricted)) => true,
        (None, None) => true,
        _ => false,
    }
}

/// Whether the two numbers are both absent or the same.
fn equal_seconds(a: Option<u64>, b: Option<u64>) -> (same: bool)
    ensures
        same == (a == b),
{
    match (a, b) {
        (Some(x), Some(y)) => x == y,
        (None, None) => true,
        _ => false,
    }
}

impl PartialEq for Cookie {
    fn eq(&self, other: &Cookie) -> (same: bool) {
        self.name == other.name && self.value == other.value && equal_folded(
            &self.domain,
            &other.domain,
        ) && equal_texts(&self.expires, &other.expires) && self.http_only == other.http_only
            && equal_seconds(self.max_age, other.max_age) && self.partitioned
            == other.partitioned && equal_folded(&self.path, &other.path) && equal_policies(
            self.same_site,
            other.same_site,
        ) && self.secure == other.secure
    }
}

impl vstd::std_specs::cmp::PartialEqSpecImpl for Cookie {
    open spec fn obeys_eq_spec() -> bool {
        true
    }

    open spec fn eq_spec(&self, other: &Cookie) -> bool {
        self@.matches(other@)
    }
}

impl From<&str> for Cookie {
    /// The cookie of that name with an empty value and no attribute set.
    fn from(name: &str) -> (cookie: Cookie)
        ensures
            cookie@ == CookieView::plain(name@, Seq::empty()),
    {
        proof {
            reveal_strlit("");
        }
        assert(""@ =~= Seq::<char>::empty());
        Cookie::new(name, "")
    }
}

/// What `from` gives is stated by its own `ensures`, over the view: two
/// cookies of one view need not be one value.
impl vstd::std_specs::convert::FromSpecImpl<&str> for Cookie {
    open spec fn obeys_from_spec() -> bool {
        false
    }

    open spec fn from_spec(name: &str) -> Cookie {
        arbitrary()
    }
}

impl From<(&str, &str)> for Cookie {
    /// The cookie of that name and value with no attribute set.
    fn from(pair: (&str, &str)) -> (cookie: Cookie)
        ensures
            cookie@ == CookieView::plain(pair.0@, pair.1@),
    {
        Cookie::new(pair.0, pair.1)
    }
}

/// What `from` gives is stated by its own `ensures`, over the view.
impl vstd::std_specs::convert::FromSpecImpl<(&str, &str)> for Cookie {
    open spec fn obeys_from_spec() -> bool {
        false
    }

    open spec fn from_spec(pair: (&str, &str)) -> Cookie {
        arbitrary()
    }
}

impl Cookie {
    /// A cookie of that name and value with no attribute set.
    pub fn new(name: &str, value: &str) -> (cookie: Cookie)
        ensures
            cookie@ == CookieView::plain(name@, value@),
    {
        Cookie {
            name: name.to_owned(),
            value: value.to_owned(),
            domain: None,
            expires: None,
            http_only: false,
            max_age: None,
            partitioned: false,
            path: None,
            same_site: None,
            secure: false,
        }
    }

    /// The cookie with its `Domain` attribute set to `domain`.
    pub fn with_domain(self, domain: &str) -> (cookie: Cookie)
        ensures
            cookie@ == (CookieView { domain: Some(domain@), ..self@ }),
    {
        let mut cookie = self;
        cookie.domain = Some(domain.to_owned());
        cookie
    }

    /// The cookie with its `Expires` attribute set to `expires`, a date as
    /// it is to stand in the header.
    pub fn with_expires(self, expires: &str) -> (cookie: Cookie)
        ensures
            cookie@ == (CookieView { expires: Some(expires@), ..self@ }),
    {
        let mut cookie = self;
        cookie.expires = Some(expires.to_owned());
        cookie
    }

    /// The cookie with its `HttpOnly` attribute set or not.
    pub fn with_http_only(self, http_only: bool) -> (cookie: Cookie)
        ensures
            cookie@ == (CookieView { http_only, ..self@ }),
    {
        let mut cookie = self;
        cookie.http_only = http_only;
        cookie
    }

    /// The cookie with its `Max-Age` attribute set to that many seconds.
    pub fn with_max_age(self, seconds: u64) -> (cookie: Cookie)
        ensures
            cookie@ == (CookieView { max_age: Some(seconds), ..self@ }),
    {
        let mut cookie = self;
        cookie.max_age = Some(seconds);
        cookie
    }

    /// The cookie with its `Partitioned` attribute set or not.
    pub fn with_partitioned(self, partitioned: bool) -> (cookie: Cookie)
        ensures
            cookie@ == (CookieView { partitioned, ..self@ }),
    {
        let mut cookie = self;
        cookie.partitioned = partitioned;
        cookie
    }

    /// The cookie with its `Path` attribute set to `path`.
    pub fn with_path(self, path: &str) -> (cookie: Cookie)
        ensures
            cookie@ == (CookieView { path: Some(path@), ..self@ }),
    {
        let mut cookie = self;
        cookie.path = Some(path.to_owned());
        cookie
    }

    /// The cookie with its `SameSite` attribute set to `same_site`.
    pub fn with_same_site(self, same_site: SameSite) -> (cookie: Cookie)
        ensures
            cookie@ == (CookieView { same_site: Some(same_site), ..self@ }),
    {
        let mut cookie = self;
        cookie.same_site = Some(same_site);
        cookie
    }

    /// The cookie with its `Secure` attribute set or not.
    pub fn with_secure(self, secure: bool) -> (cookie: Cookie)
        ensures
            cookie@ == (CookieView { secure, ..self@ }),
    {
        let mut cookie = self;
        cookie.secure = secure;
        cookie
    }

    /// The name of the cookie.
    pub fn name(&self) -> (name: &str)
        ensures
            name@ == self@.name,
    {
        self.name.as_str()
    }

    /// The value of the cookie.
    pub fn value(&self) -> (value: &str)
        ensures
            value@ == self@.value,
    {
        self.value.as_str()
    }

    /// The `Domain` attribute, if it is set.
    pub fn domain(&self) -> (domain: Option<&str>)
        ensures
            slice_view(domain) == self@.domain,
    {
        as_slice(&self.domain)
    }

    /// The `Expires` attribute, if it is set.
    pub fn expires(&self) -> (expires: Option<&str>)
        ensures
            slice_view(expires) == self@.expires,
    {
        as_slice(&self.expires)
    }

    /// Whether the `HttpOnly` attribute is set.
    pub fn http_only(&self) -> (http_only: bool)
        ensures
            http_only == self@.http_only,
    {
        self.http_only
    }

    /// The `Max-Age` attribute in seconds, if it is set.
    pub fn max_age(&self) -> (seconds: Option<u64>)
        ensures
            seconds == self@.max_age,
    {
        self.max_age
    }

    /// Whether the `Partitioned` attribute is set.
    pub fn partitioned(&self) -> (partitioned: bool)
        ensures
            partitioned == self@.partitioned,
    {
        self.partitioned
    }

    /// The `Path` attribute, if it is set.
    pub fn path(&self) -> (path: Option<&str>)
        ensures
            slice_view(path) == self@.path,
    {
        as_slice(&self.path)
    }

    /// The `SameSite` attribute, if it is set.
    pub fn same_site(&self) -> (same_site: Option<SameSite>)
        ensures
            same_site == self@.same_site,
    {
        self.same_site
    }

    /// Whether the `Secure` attribute is set.
    pub fn secure(&self) -> (secure: bool)
        ensures
            secure == self@.secure,
    {
        self.secure
    }
}

/// The text behind an owned text that may be absent.
fn as_slice(text: &Option<String>) -> (slice: Option<&str>)
    ensures
        slice_view(slice) == text_view(*text),
{
    match text {
        Some(t) => Some(t.as_str()),
        None => None,
    }
}

} // verus!
