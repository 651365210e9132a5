//! The layer and the middleware: what is done with the cookies of a request
//! before its handler runs, and with the changes of the handler after it.
//!
//! Before the handler runs, [`CookieMiddleware::on_request`] decodes the
//! request's `Cookie` headers and publishes the outcome in the request's
//! slot; the handler runs whatever the outcome. After it,
//! [`CookieMiddleware::on_response`] writes the changes that the handler
//! made to the jar as `Set-Cookie` headers of the response.

use http::Extensions;
use http::HeaderMap;
use vstd::prelude::*;
use vstd::string::StringSliceAdditionalSpecFns;
use vstd::utf8::encode_utf8;

use crate::headers::all_sendable;
use crate::headers::all_visible;
use crate::headers::append_set_cookie;
use crate::headers::ascii_text;
use crate::headers::can_send;
use crate::headers::cookie_name;
use crate::headers::cookie_values;
use crate::headers::header_values;
use crate::headers::read_view;
use crate::headers::reading;
use crate::headers::set_cookie_name;
use crate::headers::unreadable;
use crate::headers::values_under;
use crate::cookie::CookieView;
use crate::jar::decode;
use crate::jar::decoding;
use crate::jar::empty_decoding;
use crate::jar::lines_of;
use crate::jar::serializes;
use crate::jar::Change;
use crate::manager::CookieManager;
use crate::outcome::copy_of;
use crate::outcome::published;
use crate::outcome::store;
use crate::outcome::ParseOutcome;
use crate::outcome::Rejection;
use crate::text::join;
use crate::text::joined;
use crate::text::texts;

verus! {

/// Makes middlewares that decode in one mode: strict, or lenient by
/// default.
#[derive(Clone, Debug)]
pub struct CookieLayer {
    strict: bool,
}

/// Decodes the cookies of each request for the service that it wraps, and
/// sets the cookies that the service's handler changed.
#[derive(Clone, Debug)]
pub struct CookieMiddleware<S> {
    strict: bool,
    inner: S,
}

impl Default for CookieLayer {
    /// A layer that decodes in lenient mode.
    fn default() -> (layer: Self)
        ensures
            !layer.is_strict(),
    {
        CookieLayer { strict: false }
    }
}

impl CookieLayer {
    /// Whether the layer's middlewares decode in strict mode.
    pub closed spec fn strictness(&self) -> bool {
        self.strict
    }

    /// A layer that decodes in strict mode.
    pub fn strict() -> (layer: Self)
        ensures
            layer.is_strict(),
    {
        CookieLayer { strict: true }
    }

    /// Whether the layer's middlewares decode in strict mode.
    #[verifier::when_used_as_spec(strictness)]
    pub fn is_strict(&self) -> (strict: bool)
        ensures
            strict == self.strictness(),
    {
        self.strict
    }

    /// The middleware that wraps `inner` and decodes in the layer's mode.
    pub fn layer<S>(&self, inner: S) -> (middleware: CookieMiddleware<S>)
        ensures
            middleware.is_strict() == self.is_strict(),
            middleware.wrapped() == inner,
    {
        CookieMiddleware { strict: self.strict, inner }
    }
}

/// Whether every one of `values` can be read as text.
pub open spec fn all_readable(values: Seq<Seq<u8>>) -> bool {
    forall|i: int| 0 <= i < values.len() ==> all_visible(#[trigger] values[i])
}

/// The texts of `values`, in order.
pub open spec fn value_texts(values: Seq<Seq<u8>>) -> Seq<Seq<char>> {
    Seq::new(values.len(), |i: int| ascii_text(values[i]))
}

/// The one text that the values of a request's `Cookie` headers make: the
/// values in order with `"; "` between neighbours, the empty text where
/// there is none, or the text of the failure where one of them cannot be
/// read.
pub open spec fn header_text(values: Seq<Seq<u8>>) -> Result<Seq<char>, Seq<char>> {
    if all_readable(values) {
        Ok(joined(value_texts(values)))
    } else {
        Err(unreadable())
    }
}

/// What decoding the values of a request's `Cookie` headers gives in the
/// chosen mode: the cookies by name, or the text of the failure.
pub open spec fn entry(strict: bool, values: Seq<Seq<u8>>) -> Result<
    Map<Seq<char>, CookieView>,
    Seq<char>,
> {
    match header_text(values) {
        Ok(text) => decoding(strict, text),
        Err(message) => Err(message),
    }
}

/// Whether `outcome` records `decoded`: a manager of a jar made with those
/// cookies, or a rejection as a bad request with that text.
pub open spec fn records(
    outcome: ParseOutcome,
    decoded: Result<Map<Seq<char>, CookieView>, Seq<char>>,
) -> bool {
    match decoded {
        Ok(cookies) => outcome matches Ok(manager) && manager.origin() == cookies,
        Err(message) => outcome matches Err(Rejection::BadRequest(text)) && text@ == message,
    }
}

/// The one text of the `Cookie` headers among `headers`, or the text that
/// says why one of them cannot be read.
pub fn cookie_header(headers: &HeaderMap) -> (text: Result<String, String>)
    ensures
        read_view(text) == header_text(values_under(header_values(*headers), cookie_name())),
{
    let values = cookie_values(headers);
    let ghost raw = values_under(header_values(*headers), cookie_name());
    let mut parts: Vec<String> = Vec::new();
    let mut i: usize = 0;
    while i < values.len()
        invariant
            i <= values.len(),
            raw == values_under(header_values(*headers), cookie_name()),
            values.len() == raw.len(),
            forall|k: int| 0 <= k < values.len() ==> read_view(#[trigger] values[k]) == reading(raw[k]),
            parts.len() == i,
            forall|k: int| 0 <= k < i ==> all_visible(#[trigger] raw[k]),
            forall|k: int| 0 <= k < i ==> (#[trigger] parts[k])@ == ascii_text(raw[k]),
        decreases values.len() - i,
    {
        assert(read_view(values[i as int]) == reading(raw[i as int]));
        match &values[i] {
            Ok(part) => {
                parts.push(part.clone());
            },
            Err(message) => {
                assert(!all_visible(raw[i as int]));
                assert(!all_readable(raw));
                return Err(message.clone());
            },
        }
        i += 1;
    }
    let whole = join(&parts);
    proof {
        assert(all_readable(raw));
        assert(texts(parts@) =~= value_texts(raw));
    }
    Ok(whole)
}

/// Why a `Set-Cookie` header could not be added to a response.
#[derive(Clone, Copy, Debug, PartialEq, Eq)]
pub enum EmitError {
    /// The header value at this place in the list holds a control
    /// character and cannot be sent.
    InvalidValue(usize),
    /// The headers could not grow to take the header value at this place
    /// in the list.
    TooManyHeaders(usize),
}

/// The bytes of `lines`, in order.
pub open spec fn bytes_of(lines: Seq<String>) -> Seq<Seq<u8>> {
    Seq::new(lines.len(), |i: int| encode_utf8(lines[i]@))
}

/// The contents of headers after `lines` were added under `set-cookie`, in
/// order, behind what was there.
pub open spec fn with_set_cookies(
    before: Map<Seq<char>, Seq<Seq<u8>>>,
    lines: Seq<Seq<u8>>,
) -> Map<Seq<char>, Seq<Seq<u8>>> {
    if lines.len() == 0 {
        before
    } else {
        before.insert(set_cookie_name(), values_under(before, set_cookie_name()) + lines)
    }
}

/// Whether going from `before` to `after` with `done` is what adding
/// `lines` as `Set-Cookie` headers comes to: all of them added in order, or
/// those before the first one that could not be added, with the reason.
pub open spec fn emits(
    before: Map<Seq<char>, Seq<Seq<u8>>>,
    after: Map<Seq<char>, Seq<Seq<u8>>>,
    lines: Seq<Seq<u8>>,
    done: Result<(), EmitError>,
) -> bool {
    match done {
        Ok(_) => {
            &&& after == with_set_cookies(before, lines)
            &&& forall|k: int| 0 <= k < lines.len() ==> all_sendable(#[trigger] lines[k])
        },
        Err(EmitError::InvalidValue(at)) => {
            &&& at < lines.len()
            &&& !all_sendable(lines[at as int])
            &&& forall|k: int| 0 <= k < at ==> all_sendable(#[trigger] lines[k])
            &&& after == with_set_cookies(before, lines.take(at as int))
        },
        Err(EmitError::TooManyHeaders(at)) => {
            &&& at < lines.len()
            &&& forall|k: int| 0 <= k <= at ==> all_sendable(#[trigger] lines[k])
            &&& after == with_set_cookies(before, lines.take(at as int))
        },
    }
}

/// Adds each of `lines` to `headers` as one `Set-Cookie` header, in order
/// and behind the `Set-Cookie` headers that are there. It stops at the first
/// one that cannot be added and says which and why; those before it stay
/// added.
pub fn emit(headers: &mut HeaderMap, lines: &Vec<String>) -> (done: Result<(), EmitError>)
    ensures
        emits(header_values(*old(headers)), header_values(*final(headers)), bytes_of(lines@), done),
{
    let ghost before = header_values(*headers);
    let ghost all = bytes_of(lines@);
    let mut i: usize = 0;
    proof {
        assert(all.take(0) =~= Seq::<Seq<u8>>::empty());
    }
    while i < lines.len()
        invariant
            i <= lines.len(),
            before == header_values(*old(headers)),
            all == bytes_of(lines@),
            header_values(*headers) == with_set_cookies(before, all.take(i as int)),
            forall|k: int| 0 <= k < i ==> all_sendable(#[trigger] all[k]),
        decreases lines.len() - i,
    {
        let line = lines[i].as_str();
        assert(line.spec_bytes() == all[i as int]);
        if !can_send(line) {
            return Err(EmitError::InvalidValue(i));
        }
        let ghost current = header_values(*headers);
        let added = append_set_cookie(headers, line);
        if !added {
            return Err(EmitError::TooManyHeaders(i));
        }
        proof {
            let sofar = all.take(i as int);
            let next = all.take(i + 1);
            assert(next =~= sofar.push(all[i as int]));
            assert(values_under(current, set_cookie_name()).push(all[i as int]) =~= values_under(
                before,
                set_cookie_name(),
            ) + next);
            assert(header_values(*headers) =~= with_set_cookies(before, next));
        }
        i += 1;
    }
    proof {
        assert(all.take(lines.len() as int) =~= all);
    }
    Ok(())
}

impl<S> CookieMiddleware<S> {
    /// Whether the middleware decodes in strict mode.
    pub closed spec fn strictness(&self) -> bool {
        self.strict
    }

    /// The service that the middleware wraps.
    pub closed spec fn wrapped(&self) -> S {
        self.inner
    }

    /// Whether the middleware decodes in strict mode.
    #[verifier::when_used_as_spec(strictness)]
    pub fn is_strict(&self) -> (strict: bool)
        ensures
            strict == self.strictness(),
    {
        self.strict
    }

    /// The service that the middleware wraps.
    pub fn inner(&self) -> (inner: &S)
        ensures
            *inner == self.wrapped(),
    {
        &self.inner
    }

    /// The service that the middleware wraps, to be called.
    pub fn inner_mut(&mut self) -> (inner: &mut S)
        ensures
            *inner == old(self).wrapped(),
            final(self).wrapped() == *final(inner),
            final(self).is_strict() == old(self).is_strict(),
    {
        &mut self.inner
    }

    /// What is done with a request before its handler runs.
    ///
    /// The values of the request's `Cookie` headers are joined into one text
    /// and decoded in the middleware's mode. The outcome is published in the
    /// request's slot and returned: the manager of a new jar with the decoded
    /// cookies, or the rejection that records why decoding failed. A request
    /// without a `Cookie` header gets the manager of an empty jar.
    pub fn on_request(&self, headers: &HeaderMap, extensions: &mut Extensions) -> (outcome:
        ParseOutcome)
        ensures
            published(*final(extensions)) == seq![outcome],
            records(
                outcome,
                entry(self.is_strict(), values_under(header_values(*headers), cookie_name())),
            ),
            values_under(header_values(*headers), cookie_name()).len() == 0 ==> records(
                outcome,
                empty_decoding(),
            ),
    {
        let ghost raw = values_under(header_values(*headers), cookie_name());
        let outcome = match cookie_header(headers) {
            Ok(text) => {
                proof {
                    if raw.len() == 0 {
                        assert(value_texts(raw) =~= Seq::<Seq<char>>::empty());
                    }
                }
                match decode(text, self.strict) {
                    Ok(jar) => Ok(CookieManager::new(jar)),
                    Err(message) => Err(Rejection::BadRequest(message)),
                }
            },
            Err(message) => Err(Rejection::BadRequest(message)),
        };
        store(extensions, copy_of(&outcome));
        outcome
    }

    /// What is done with a response after the handler made it.
    ///
    /// Where decoding gave a manager, the changes made to the jar are added
    /// to `headers` as `Set-Cookie` headers, one for each name stored or
    /// removed, in ascending order of the names, as [`emit`] adds them.
    /// Where decoding failed nothing is added.
    pub fn on_response(outcome: &ParseOutcome, headers: &mut HeaderMap) -> (done: Result<
        (),
        EmitError,
    >)
        ensures
            outcome is Err ==> done is Ok && header_values(*final(headers)) == header_values(
                *old(headers),
            ),
            outcome is Ok ==> exists|lines: Seq<String>, changes: Map<Seq<char>, Change>|
                #[trigger] serializes(lines_of(lines), changes) && emits(
                    header_values(*old(headers)),
                    header_values(*final(headers)),
                    bytes_of(lines),
                    done,
                ),
    {
        match outcome {
            Ok(manager) => {
                let lines = manager.as_header_value();
                let done = emit(headers, &lines);
                proof {
                    let changes = choose|changes: Map<Seq<char>, Change>|
                        serializes(lines_of(lines@), changes);
                    assert(serializes(lines_of(lines@), changes));
                }
                done
            },
            Err(_) => Ok(()),
        }
    }
}

} // verus!
