//! The two-phase passkey ceremonies: registration, bound to a registration
//! token, and discoverable login, which ends in a session.
//!
//! The cryptographic work belongs to an outside ceremony verifier. Its
//! server state is carried here, unread, from `start` to `finish`.
use vstd::prelude::*;

use crate::correlation::{CorrelationStore, Entry, live_value};
use crate::error::ApiError;
use crate::outside::{base58_encode, base58_text, base64url_bytes, base64url_decode};
use crate::session::{Session, SessionStore, SESSION_WINDOW};

verus! {

/// How long a started ceremony may wait for its finish, in milliseconds.
pub const CEREMONY_TTL: u64 = 300_000;

/// A registration that was started and is waiting for its finish.
#[derive(Debug)]
pub struct PendingRegistration<S> {
    /// The user that the registration token resolved to at the start.
    pub user_id: i64,
    /// The verifier's server state for this ceremony.
    pub state: S,
}

/// What finishing the registration `id` yields, given the user that the
/// presented token resolves to now: the pending registration, if it is
/// live and the token still resolves to the user captured at the start;
/// `NotFoundError` otherwise, whichever check failed.
pub open spec fn registration_outcome<S>(
    m: Map<u128, Entry<PendingRegistration<S>>>,
    id: u128,
    token_owner: Option<i64>,
    now: u64,
) -> Result<PendingRegistration<S>, ApiError> {
    match live_value(m, id, now) {
        Some(p) => if token_owner == Some(p.user_id) {
            Ok(p)
        } else {
            Err(ApiError::NotFoundError)
        },
        None => Err(ApiError::NotFoundError),
    }
}

/// What finishing the login `id` yields: its server state if it is live,
/// `NotFoundError` otherwise.
pub open spec fn login_outcome<S>(m: Map<u128, Entry<S>>, id: u128, now: u64) -> Result<
    S,
    ApiError,
> {
    match live_value(m, id, now) {
        Some(s) => Ok(s),
        None => Err(ApiError::NotFoundError),
    }
}

/// Started registrations, each consumable once.
pub struct PendingRegistrations<S> {
    data: CorrelationStore<PendingRegistration<S>>,
}

impl<S> PendingRegistrations<S> {
    pub closed spec fn view(&self) -> Map<u128, Entry<PendingRegistration<S>>> {
        self.data@
    }

    pub fn new() -> (r: Self)
        ensures
            r@ == Map::<u128, Entry<PendingRegistration<S>>>::empty(),
    {
        PendingRegistrations { data: CorrelationStore::new() }
    }

    /// Records a started registration for `user_id`, the owner of the
    /// registration token, and returns its fresh correlation id. It can be
    /// finished until `now + CEREMONY_TTL`. Fails only if every random id
    /// drawn is in use, so never on an empty store.
    pub fn add(&mut self, user_id: i64, state: S, now: u64) -> (r: Result<u128, ApiError>)
        requires
            now + CEREMONY_TTL <= u64::MAX,
        ensures
            r matches Ok(id) ==> {
                &&& !old(self)@.contains_key(id)
                &&& final(self)@ == old(self)@.insert(
                    id,
                    Entry {
                        value: PendingRegistration { user_id, state },
                        expires: (now + CEREMONY_TTL) as u64,
                    },
                )
            },
            r is Err ==> r == Err::<u128, ApiError>(ApiError::StorageError) && final(self)@ == old(self)@,
            old(self)@.dom().len() == 0 ==> r is Ok,
    {
        match self.data.insert(PendingRegistration { user_id, state }, now, CEREMONY_TTL) {
            Some(id) => Ok(id),
            None => Err(ApiError::StorageError),
        }
    }

    /// Consumes the registration `id`. `token_owner` is the user that the
    /// registration token presented at the finish resolves to now (`None`
    /// if it no longer resolves). The entry is gone afterwards whatever the
    /// outcome, so a second finish with the same id fails.
    pub fn remove(&mut self, id: u128, token_owner: Option<i64>, now: u64) -> (r: Result<
        PendingRegistration<S>,
        ApiError,
    >)
        ensures
            r == registration_outcome(old(self)@, id, token_owner, now),
            final(self)@ == old(self)@.remove(id),
    {
        match self.data.take(id, now) {
            Some(pending) => {
                match token_owner {
                    Some(owner) => {
                        if owner == pending.user_id {
                            Ok(pending)
                        } else {
                            Err(ApiError::NotFoundError)
                        }
                    },
                    None => Err(ApiError::NotFoundError),
                }
            },
            None => Err(ApiError::NotFoundError),
        }
    }
}

/// Started discoverable logins, each consumable once.
pub struct PendingLogins<S> {
    data: CorrelationStore<S>,
}

impl<S> PendingLogins<S> {
    pub closed spec fn view(&self) -> Map<u128, Entry<S>> {
        self.data@
    }

    pub fn new() -> (r: Self)
        ensures
            r@ == Map::<u128, Entry<S>>::empty(),
    {
        PendingLogins { data: CorrelationStore::new() }
    }

    /// Records a started login and returns its fresh correlation id. It can
    /// be finished until `now + CEREMONY_TTL`. Fails only if every random id
    /// drawn is in use, so never on an empty store.
    pub fn add(&mut self, state: S, now: u64) -> (r: Result<u128, ApiError>)
        requires
            now + CEREMONY_TTL <= u64::MAX,
        ensures
            r matches Ok(id) ==> {
                &&& !old(self)@.contains_key(id)
                &&& final(self)@ == old(self)@.insert(
                    id,
                    Entry { value: state, expires: (now + CEREMONY_TTL) as u64 },
                )
            },
            r is Err ==> r == Err::<u128, ApiError>(ApiError::StorageError) && final(self)@ == old(self)@,
            old(self)@.dom().len() == 0 ==> r is Ok,
    {
        match self.data.insert(state, now, CEREMONY_TTL) {
            Some(id) => Ok(id),
            None => Err(ApiError::StorageError),
        }
    }

    /// Consumes the login `id` and returns its server state if it is live.
    /// The entry is gone afterwards whatever the outcome.
    pub fn remove(&mut self, id: u128, now: u64) -> (r: Result<S, ApiError>)
        ensures
            r == login_outcome(old(self)@, id, now),
            final(self)@ == old(self)@.remove(id),
    {
        match self.data.take(id, now) {
            Some(state) => Ok(state),
            None => Err(ApiError::NotFoundError),
        }
    }
}

/// Classifies what the ceremony verifier answered: any rejection becomes a
/// `VerificationError`, whatever its cause.
pub fn from_verifier<T, E>(answer: Result<T, E>) -> (r: Result<T, ApiError>)
    ensures
        answer matches Ok(v) ==> r == Ok::<T, ApiError>(v),
        answer is Err ==> r == Err::<T, ApiError>(ApiError::VerificationError),
{
    match answer {
        Ok(v) => Ok(v),
        Err(_) => Err(ApiError::VerificationError),
    }
}

/// What a registration token, as presented by a client, is looked up by:
/// its URL-safe base64 bytes. A token that does not decode matches no
/// stored token, so it fails as `NotFoundError`.
pub fn token_key(token: &str) -> (r: Result<Vec<u8>, ApiError>)
    ensures
        r matches Ok(v) ==> base64url_bytes(token@) == Some(v@),
        r is Err ==> r == Err::<Vec<u8>, ApiError>(ApiError::NotFoundError) && base64url_bytes(
            token@,
        ) is None,
{
    match base64url_decode(token) {
        Some(v) => Ok(v),
        None => Err(ApiError::NotFoundError),
    }
}

/// A fresh registration token: 64 random bytes in base58, which has no
/// punctuation, so that a double click selects the whole token.
pub fn new_registration_token() -> (r: String)
    ensures
        exists|b: Seq<u8>| b.len() == 64 && r@ == base58_text(b),
{
    let first: [u8; 32] = rand::random();
    let second: [u8; 32] = rand::random();
    let mut bytes: Vec<u8> = Vec::new();
    let mut i: usize = 0;
    while i < 64
        invariant
            i <= 64,
            bytes@.len() == i,
        decreases 64 - i,
    {
        if i < 32 {
            bytes.push(first[i]);
        } else {
            bytes.push(second[i - 32]);
        }
        i = i + 1;
    }
    base58_encode(bytes.as_slice())
}

/// The last step of a login, once the verifier has accepted the response
/// for the credential `passkey_id` of `user_id`. The authenticator must
/// also have verified its user locally (a PIN or a biometric gate): where
/// it did not, the login fails as `NotFoundError` and no session opens,
/// though the signature was valid. Otherwise a session opens for the pair;
/// that fails only if every random secret drawn collides with an open
/// session, so never while no session is open.
pub fn finish_login(
    sessions: &mut SessionStore,
    user_verified: bool,
    user_id: i64,
    passkey_id: i64,
    now: u64,
) -> (r: Result<Session, ApiError>)
    requires
        old(sessions).wf(),
        now + SESSION_WINDOW <= u64::MAX,
    ensures
        final(sessions).wf(),
        !user_verified ==> r == Err::<Session, ApiError>(ApiError::NotFoundError) && final(sessions)@ == old(sessions)@,
        r matches Ok(s) ==> {
            &&& user_verified
            &&& s.user_id == user_id
            &&& s.passkey_id == passkey_id
            &&& !old(sessions)@.contains_key(s.secret.hi)
            &&& final(sessions)@ == old(sessions)@.insert(
                s.secret.hi,
                Entry { value: s, expires: (now + SESSION_WINDOW) as u64 },
            )
        },
        user_verified && r is Err ==> r == Err::<Session, ApiError>(ApiError::StorageError)
            && final(sessions)@ == old(sessions)@,
        user_verified && old(sessions)@.dom().len() == 0 ==> r is Ok,
{
    if !user_verified {
        return Err(ApiError::NotFoundError);
    }
    match sessions.create(user_id, passkey_id, now) {
        Some(s) => Ok(s),
        None => Err(ApiError::StorageError),
    }
}

/// A started registration can be finished at most once: after a finish
/// consumed `id`, with any outcome, another finish with `id` fails as
/// `NotFoundError`, whatever token it presents and whenever it comes.
pub proof fn lemma_registration_single_use<S>(
    m: Map<u128, Entry<PendingRegistration<S>>>,
    id: u128,
    token_owner: Option<i64>,
    later: u64,
)
    ensures
        registration_outcome(m.remove(id), id, token_owner, later) == Err::<
            PendingRegistration<S>,
            ApiError,
        >(ApiError::NotFoundError),
{
}

/// A started login can be finished at most once: after a finish consumed
/// `id`, another finish with `id` fails as `NotFoundError`.
pub proof fn lemma_login_single_use<S>(m: Map<u128, Entry<S>>, id: u128, later: u64)
    ensures
        login_outcome(m.remove(id), id, later) == Err::<S, ApiError>(ApiError::NotFoundError),
{
}

} // verus!
