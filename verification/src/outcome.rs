//! What the decoding of a request's cookies came to, and the slot of the
//! request in which that is published for the handler.
//!
//! The slot is kept in the request's `http::Extensions`. This module says
//! what the extensions hold in that slot and wraps the two of their methods
//! that the library calls.

use http::Extensions;
use vstd::prelude::*;

use crate::manager::CookieManager;

verus! {

/// Why a handler gets no manager.
#[derive(Debug)]
pub enum Rejection {
    /// The request's `Cookie` header could not be decoded; the text says
    /// why. A fault of the client.
    BadRequest(String),
    /// No outcome was published for the request: the layer is not part of
    /// the service. A fault of the server's setup.
    NotInstalled,
}

/// The outcome of decoding a request's cookies: the manager of the
/// request's jar, or the reason why there is none.
pub type ParseOutcome = Result<CookieManager, Rejection>;

impl Clone for Rejection {
    /// The same rejection again.
    fn clone(&self) -> (other: Self)
        ensures
            other == *self,
    {
        match self {
            Rejection::BadRequest(text) => Rejection::BadRequest(text.clone()),
            Rejection::NotInstalled => Rejection::NotInstalled,
        }
    }
}

/// The same outcome again: the rejection, or another handle to the same
/// jar.
pub fn copy_of(outcome: &ParseOutcome) -> (copy: ParseOutcome)
    ensures
        copy == *outcome,
{
    match outcome {
        Ok(manager) => Ok(manager.clone()),
        Err(rejection) => Err(rejection.clone()),
    }
}

impl Rejection {
    /// The text that goes with a rejection.
    pub open spec fn message_text(self) -> Seq<char> {
        match self {
            Rejection::BadRequest(text) => text@,
            Rejection::NotInstalled => "CookieLayer is not initialized"@,
        }
    }

    /// The HTTP status code that goes with a rejection.
    pub open spec fn status_code(self) -> u16 {
        match self {
            Rejection::BadRequest(_) => 400,
            Rejection::NotInstalled => 500,
        }
    }

    /// The HTTP status code to answer with: 400 for a header that could not
    /// be decoded, 500 for a layer that is not installed.
    pub fn status(&self) -> (code: u16)
        ensures
            code == self.status_code(),
    {
        match self {
            Rejection::BadRequest(_) => 400,
            Rejection::NotInstalled => 500,
        }
    }

    /// The text to answer with.
    pub fn message(&self) -> (text: String)
        ensures
            text@ == self.message_text(),
    {
        match self {
            Rejection::BadRequest(text) => text.clone(),
            Rejection::NotInstalled => "CookieLayer is not initialized".to_owned(),
        }
    }
}

/// `http::Extensions`, of which the verifier sees nothing but what the
/// items below say.
#[verifier::external_type_specification]
#[verifier::external_body]
pub struct ExExtensions(Extensions);

/// What `extensions` hold in the slot of this library: nothing, or the one
/// outcome that was published last.
pub uninterp spec fn published(extensions: Extensions) -> Seq<ParseOutcome>;

/// `http::Extensions::insert`: the slot then holds that outcome alone,
/// whatever it held.
#[verifier::external_body]
pub(crate) fn store(extensions: &mut Extensions, outcome: ParseOutcome)
    ensures
        published(*final(extensions)) == seq![outcome],
{
    extensions.insert(outcome);
}

/// `http::Extensions::get`: the outcome that the slot holds, or nothing
/// where it holds none.
#[verifier::external_body]
fn load(extensions: &Extensions) -> (slot: Option<&ParseOutcome>)
    ensures
        slot is None <==> published(*extensions).len() == 0,
        slot matches Some(outcome) ==> published(*extensions) == seq![*outcome],
{
    extensions.get::<ParseOutcome>()
}

/// What a handler gets from a slot: the published outcome, or the
/// rejection that says that nothing was published.
pub open spec fn retrieval(slot: Seq<ParseOutcome>) -> ParseOutcome {
    if slot.len() == 0 {
        Err(Rejection::NotInstalled)
    } else {
        slot[0]
    }
}

impl CookieManager {
    /// The manager of the request with these extensions, for its handler.
    ///
    /// Where no outcome was published the layer is not installed, and the
    /// handler gets [`Rejection::NotInstalled`]. Where decoding failed the
    /// handler gets the recorded [`Rejection::BadRequest`]. Otherwise it
    /// gets the manager that was published, which shares its jar with the
    /// layer's copy.
    pub fn from_request_parts(extensions: &Extensions) -> (found: ParseOutcome)
        ensures
            found == retrieval(published(*extensions)),
    {
        match load(extensions) {
            Some(outcome) => copy_of(outcome),
            None => Err(Rejection::NotInstalled),
        }
    }
}

} // verus!
