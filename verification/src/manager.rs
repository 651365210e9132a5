//! The handle through which a request handler reads and changes the jar of
//! its request.
//!
//! Every clone of a [`CookieManager`] reaches the same jar. An operation
//! takes the jar's lock, does one thing to the jar and gives the lock back,
//! so no operation sees another one half done, and none waits while it
//! holds the lock.

use cookie_rs::CookieJar;
use std::sync::Arc;
use std::sync::Mutex;
use std::sync::MutexGuard;
use std::sync::PoisonError;
use vstd::prelude::*;

use crate::cookie::Cookie;
use crate::cookie::CookieView;
use crate::jar::discard;
use crate::jar::find;
use crate::jar::insert;
use crate::jar::jar_changes;
use crate::jar::jar_cookies;
use crate::jar::list;
use crate::jar::lines_of;
use crate::jar::names_of;
use crate::jar::serialize;
use crate::jar::serializes;
use crate::jar::views_of;
use crate::jar::Change;
use crate::text::lemma_precedes_irreflexive;
use crate::text::precedes;

verus! {

/// `std::sync::Mutex`, of which the verifier sees nothing.
#[verifier::external_type_specification]
#[verifier::external_body]
#[verifier::reject_recursive_types(T)]
pub struct ExMutex<T: ?Sized>(Mutex<T>);

/// `std::sync::MutexGuard`, of which the verifier sees nothing.
#[verifier::external_type_specification]
#[verifier::external_body]
#[verifier::reject_recursive_types(T)]
pub struct ExMutexGuard<'a, T: ?Sized + 'a>(MutexGuard<'a, T>);

/// The cookies of the jar that `lock` was made around, by name.
pub uninterp spec fn made_with(lock: Mutex<CookieJar<'static>>) -> Map<Seq<char>, CookieView>;

/// `std::sync::Mutex::new`: a lock made around the jar, and so around its
/// cookies.
#[verifier::external_body]
fn locked(jar: CookieJar<'static>) -> (lock: Mutex<CookieJar<'static>>)
    ensures
        made_with(lock) == jar_cookies(jar),
{
    Mutex::new(jar)
}

/// `std::sync::Arc::clone`: another handle to the same lock.
#[verifier::external_body]
fn shared(lock: &Arc<Mutex<CookieJar<'static>>>) -> (other: Arc<Mutex<CookieJar<'static>>>)
    ensures
        other == *lock,
{
    Arc::clone(lock)
}

/// `std::sync::PoisonError`, of which the verifier sees nothing.
#[verifier::external_type_specification]
#[verifier::external_body]
#[verifier::reject_recursive_types(T)]
pub struct ExPoisonError<T>(PoisonError<T>);

/// `std::sync::Mutex::lock`: waits for the lock and takes it; the guard
/// comes inside an error where an earlier holder panicked. The library
/// takes the lock for one operation on the jar at a time and never while it
/// holds it. Nothing is claimed of the result.
#[verifier::external_body]
fn lock<'a>(jar: &'a Mutex<CookieJar<'static>>) -> Result<
    MutexGuard<'a, CookieJar<'static>>,
    PoisonError<MutexGuard<'a, CookieJar<'static>>>,
> {
    jar.lock()
}

/// `std::sync::PoisonError::into_inner`: the guard that came inside the
/// error. Nothing is claimed of the result.
#[verifier::external_body]
fn recovered<'a>(poisoned: PoisonError<MutexGuard<'a, CookieJar<'static>>>) -> MutexGuard<
    'a,
    CookieJar<'static>,
> {
    poisoned.into_inner()
}

/// Takes the jar's lock. No operation of this library panics while it
/// holds the lock; were the lock poisoned all the same, its guard is taken
/// from the error and the jar is used as it is.
fn acquire<'a>(jar: &'a Mutex<CookieJar<'static>>) -> MutexGuard<'a, CookieJar<'static>> {
    match lock(jar) {
        Ok(guard) => guard,
        Err(poisoned) => recovered(poisoned),
    }
}

/// `DerefMut::deref_mut` of `std::sync::MutexGuard`: the jar behind the
/// lock, for as long as the guard is borrowed. Nothing is claimed of the
/// result.
#[verifier::external_body]
fn opened<'a, 'g>(guard: &'a mut MutexGuard<'g, CookieJar<'static>>) -> &'a mut CookieJar<'static> {
    &mut **guard
}

/// A handle to the jar of one request. Clones share the jar.
pub struct CookieManager {
    jar: Arc<Mutex<CookieJar<'static>>>,
}

impl Clone for CookieManager {
    /// Another handle to the same jar.
    fn clone(&self) -> (other: Self)
        ensures
            other == *self,
    {
        CookieManager { jar: shared(&self.jar) }
    }
}

impl CookieManager {
    /// The cookies that the jar behind the manager's lock held when the
    /// lock was made around it, by name.
    pub closed spec fn origin(&self) -> Map<Seq<char>, CookieView> {
        made_with(*self.jar)
    }

    /// Creates a manager of `jar`: a new lock around that jar, which the
    /// manager and its clones share with nobody else.
    pub fn new(jar: CookieJar<'static>) -> (manager: Self)
        ensures
            manager.origin() == jar_cookies(jar),
    {
        CookieManager { jar: Arc::new(locked(jar)) }
    }

    /// Stores `cookie` in the jar, in place of the cookie of the same name
    /// if the jar holds one.
    ///
    /// The jar is changed as [`insert`] changes it, from what it held when
    /// the lock was taken. Every clone sees the change from then on.
    pub fn add<C: Into<Cookie>>(&self, cookie: C) {
        let cookie: Cookie = cookie.into();
        let mut guard = acquire(&self.jar);
        let jar = opened(&mut guard);
        insert(jar, cookie);
    }

    /// Stores `cookie` in the jar, as [`CookieManager::add`] does.
    pub fn set<C: Into<Cookie>>(&self, cookie: C) {
        self.add(cookie)
    }

    /// Removes the cookie of that name from the jar, if the jar holds one.
    ///
    /// The jar is changed as [`discard`] changes it, from what it held when
    /// the lock was taken. Every clone sees the change from then on.
    pub fn remove(&self, name: &str) {
        let mut guard = acquire(&self.jar);
        let jar = opened(&mut guard);
        discard(jar, name);
    }

    /// The cookie that the jar holds under `name` when the lock is taken,
    /// as [`find`] gives it: what the last operation about `name` left
    /// there, whichever clone it came from. A cookie that comes back has
    /// that name.
    pub fn get(&self, name: &str) -> (found: Option<Cookie>)
        ensures
            found matches Some(c) ==> c@.name == name@,
    {
        let mut guard = acquire(&self.jar);
        let jar = opened(&mut guard);
        find(jar, name)
    }

    /// The cookies that the jar holds when the lock is taken, as [`list`]
    /// gives them: in ascending order of their names, no two of them with
    /// the same name.
    pub fn cookie(&self) -> (all: Vec<Cookie>)
        ensures
            forall|i: int, j: int|
                0 <= i < j < all.len() ==> precedes(all[i]@.name, all[j]@.name),
            forall|i: int, j: int| 0 <= i < j < all.len() ==> all[i]@.name != all[j]@.name,
    {
        let mut guard = acquire(&self.jar);
        let jar = opened(&mut guard);
        let all = list(jar);
        proof {
            let names = names_of(views_of(all@));
            assert forall|i: int, j: int| 0 <= i < j < all.len() implies precedes(
                all[i]@.name,
                all[j]@.name,
            ) by {
                assert(precedes(names[i], names[j]));
            }
            assert forall|i: int, j: int| 0 <= i < j < all.len() implies all[i]@.name
                != all[j]@.name by {
                assert(precedes(names[i], names[j]));
                lemma_precedes_irreflexive(names[i]);
            }
        }
        all
    }

    /// The `Set-Cookie` header values for the changes made to the jar up to
    /// the time when the lock is taken, as [`serialize`] gives them: one for
    /// each name stored or removed, in ascending order of the names.
    pub fn as_header_value(&self) -> (lines: Vec<String>)
        ensures
            exists|changes: Map<Seq<char>, Change>| serializes(lines_of(lines@), changes),
    {
        let mut guard = acquire(&self.jar);
        let jar = opened(&mut guard);
        let lines = serialize(jar);
        assert(serializes(lines_of(lines@), jar_changes(*jar)));
        lines
    }
}

} // verus!
