//! Bearer sessions with a sliding expiry.
use vstd::prelude::*;

use crate::outside::{base64url_bytes, base64url_decode, base64url_encode, base64url_text};
use crate::error::ApiError;
use crate::correlation::{CorrelationStore, Entry, live_value, ID_ATTEMPTS};

verus! {

/// How long a session stays valid after its creation or its last
/// successful validation, in milliseconds.
pub const SESSION_WINDOW: u64 = 3_600_000;

/// A 256-bit random bearer secret. The first half doubles as the key under
/// which the session is stored; the whole is compared in constant time.
#[derive(Debug, Clone, Copy, PartialEq, Eq, Structural)]
pub struct SessionSecret {
    pub hi: u128,
    pub lo: u128,
}

/// The sixteen big-endian bytes of `x`.
pub open spec fn be_bytes(x: u128) -> Seq<u8> {
    Seq::new(16, |i: int| ((x >> ((120 - 8 * i) as u32)) & 0xff) as u8)
}

/// The number whose big-endian bytes are `b`, keeping the low 128 bits.
pub open spec fn from_be(b: Seq<u8>) -> u128
    decreases b.len(),
{
    if b.len() == 0 {
        0
    } else {
        (from_be(b.drop_last()) << 8u32) | (b.last() as u128)
    }
}

/// The 32 bytes of a secret: the first half, then the second, big-endian.
pub open spec fn secret_bytes(s: SessionSecret) -> Seq<u8> {
    be_bytes(s.hi) + be_bytes(s.lo)
}

/// The secret that 32 bytes hold.
pub open spec fn secret_of_bytes(b: Seq<u8>) -> SessionSecret {
    SessionSecret { hi: from_be(b.subrange(0, 16)), lo: from_be(b.subrange(16, 32)) }
}

/// What parsing the text `t` of a secret yields: the secret that its
/// base64 bytes hold, where they decode to exactly 32 bytes.
pub open spec fn parsed_secret(t: Seq<char>) -> Option<SessionSecret> {
    match base64url_bytes(t) {
        Some(b) => if b.len() == 32 {
            Some(secret_of_bytes(b))
        } else {
            None
        },
        None => None,
    }
}

fn push_be_bytes(out: &mut Vec<u8>, x: u128)
    ensures
        final(out)@ == old(out)@ + be_bytes(x),
{
    let mut i: u32 = 0;
    while i < 16
        invariant
            i <= 16,
            out@ == old(out)@ + be_bytes(x).subrange(0, i as int),
        decreases 16 - i,
    {
        let shift: u32 = 120 - 8 * i;
        out.push(((x >> shift) & 0xff) as u8);
        proof {
            assert(be_bytes(x).subrange(0, i + 1) =~= be_bytes(x).subrange(0, i as int).push(
                ((x >> shift) & 0xff) as u8,
            ));
        }
        i = i + 1;
    }
    assert(be_bytes(x).subrange(0, 16) =~= be_bytes(x));
}

fn read_be(b: &Vec<u8>, start: usize) -> (r: u128)
    requires
        start + 16 <= b@.len(),
    ensures
        r == from_be(b@.subrange(start as int, start + 16)),
{
    let n = b.len();
    let mut acc: u128 = 0;
    let mut i: usize = 0;
    while i < 16
        invariant
            i <= 16,
            n == b@.len(),
            start + 16 <= b@.len(),
            acc == from_be(b@.subrange(start as int, start + i)),
        decreases 16 - i,
    {
        proof {
            let next = b@.subrange(start as int, start + i + 1);
            assert(next.drop_last() =~= b@.subrange(start as int, start + i));
            assert(next.last() == b@[start + i]);
        }
        acc = (acc << 8u32) | (b[start + i] as u128);
        i = i + 1;
    }
    acc
}

proof fn lemma_from_be_prefix(x: u128, k: int)
    requires
        0 <= k <= 16,
    ensures
        from_be(be_bytes(x).subrange(0, k)) == if k == 0 {
            0u128
        } else {
            x >> ((128 - 8 * k) as u32)
        },
    decreases k,
{
    if k > 0 {
        lemma_from_be_prefix(x, k - 1);
        let p = be_bytes(x).subrange(0, k);
        assert(p.drop_last() =~= be_bytes(x).subrange(0, k - 1));
        let s = (128 - 8 * k) as u32;
        assert(p.last() == ((x >> s) & 0xff) as u8);
        if k == 1 {
            assert(((0u128 << 8u32) | (((x >> 120u32) & 0xff) as u8 as u128)) == x >> 120u32)
                by (bit_vector);
        } else {
            assert(((x >> ((s + 8) as u32)) << 8u32) | (((x >> s) & 0xff) as u8 as u128) == x >> s)
                by (bit_vector)
                requires
                    s <= 112,
            ;
            assert((128 - 8 * (k - 1)) as u32 == (s + 8) as u32);
        }
    }
}

/// Reading back the bytes of a secret gives the secret: the byte form
/// loses nothing.
pub proof fn lemma_secret_bytes_round_trip(s: SessionSecret)
    ensures
        secret_of_bytes(secret_bytes(s)) == s,
{
    lemma_from_be_prefix(s.hi, 16);
    lemma_from_be_prefix(s.lo, 16);
    let b = secret_bytes(s);
    assert(b.subrange(0, 16) =~= be_bytes(s.hi).subrange(0, 16));
    assert(b.subrange(16, 32) =~= be_bytes(s.lo).subrange(0, 16));
    let hi = s.hi;
    let lo = s.lo;
    assert((hi >> 0u32) == hi) by (bit_vector);
    assert((lo >> 0u32) == lo) by (bit_vector);
}

impl SessionSecret {
    /// The secret as the client sees it: its 32 bytes in URL-safe base64
    /// without padding.
    /// Parsing the text gives the secret back.
    pub fn encode(&self) -> (r: String)
        ensures
            r@ == base64url_text(secret_bytes(*self)),
            parsed_secret(r@) == Some(*self),
    {
        let mut bytes: Vec<u8> = Vec::new();
        push_be_bytes(&mut bytes, self.hi);
        push_be_bytes(&mut bytes, self.lo);
        proof {
            assert(bytes@ =~= secret_bytes(*self));
            lemma_secret_bytes_round_trip(*self);
        }
        base64url_encode(bytes.as_slice())
    }

    /// Reads a secret from its text; `None` unless the text is URL-safe
    /// base64 of exactly 32 bytes.
    pub fn parse(text: &str) -> (r: Option<Self>)
        ensures
            r == parsed_secret(text@),
    {
        match base64url_decode(text) {
            Some(bytes) => {
                if bytes.len() == 32 {
                    let hi = read_be(&bytes, 0);
                    let lo = read_be(&bytes, 16);
                    Some(SessionSecret { hi, lo })
                } else {
                    None
                }
            },
            None => None,
        }
    }

    /// A fresh secret from the thread-local random generator.
    pub fn new() -> (r: Self) {
        let hi: u128 = rand::random();
        let lo: u128 = rand::random();
        SessionSecret { hi, lo }
    }
}

/// Compares two secrets without a branch or an early exit that depends on
/// their content.
pub fn secrets_match(a: &SessionSecret, b: &SessionSecret) -> (r: bool)
    ensures
        r == (*a == *b),
{
    let x = a.hi;
    let y = b.hi;
    let z = a.lo;
    let w = b.lo;
    let diff = (x ^ y) | (z ^ w);
    assert(diff == 0 <==> (x == y && z == w)) by (bit_vector)
        requires
            diff == (x ^ y) | (z ^ w),
    ;
    diff == 0
}

/// An authenticated session: who logged in, and with which passkey.
#[derive(Debug, Clone, Copy, PartialEq, Eq, Structural)]
pub struct Session {
    pub secret: SessionSecret,
    pub user_id: i64,
    pub passkey_id: i64,
}

impl Session {
    pub fn secret(&self) -> (r: &SessionSecret)
        ensures
            *r == self.secret,
    {
        &self.secret
    }

    pub fn user_id(&self) -> (r: i64)
        ensures
            r == self.user_id,
    {
        self.user_id
    }

    pub fn passkey_id(&self) -> (r: i64)
        ensures
            r == self.passkey_id,
    {
        self.passkey_id
    }
}

/// The sessions that are open, keyed by the first half of their secret.
pub struct SessionStore {
    sessions: CorrelationStore<Session>,
}

/// What validating `secret` at `now` yields in a store whose entries are
/// `m`: the session, if one is held under the secret's key, has not
/// expired, and carries exactly that secret.
pub open spec fn validated(m: Map<u128, Entry<Session>>, secret: SessionSecret, now: u64) -> Option<
    Session,
> {
    match live_value(m, secret.hi, now) {
        Some(s) => if s.secret == secret {
            Some(s)
        } else {
            None
        },
        None => None,
    }
}

impl SessionStore {
    pub closed spec fn view(&self) -> Map<u128, Entry<Session>> {
        self.sessions@
    }

    /// Every session is stored under the first half of its own secret.
    pub closed spec fn wf(&self) -> bool {
        forall|k: u128| #[trigger]
            self@.contains_key(k) ==> self@[k].value.secret.hi == k
    }

    pub fn new() -> (r: Self)
        ensures
            r@ == Map::<u128, Entry<Session>>::empty(),
            r.wf(),
    {
        SessionStore { sessions: CorrelationStore::new() }
    }

    /// Opens a session under `secret`, valid until `now + SESSION_WINDOW`.
    /// `None`, with the store unchanged, if a session already uses the
    /// secret's key.
    pub fn create_with_secret(
        &mut self,
        secret: SessionSecret,
        user_id: i64,
        passkey_id: i64,
        now: u64,
    ) -> (r: Option<Session>)
        requires
            old(self).wf(),
            now + SESSION_WINDOW <= u64::MAX,
        ensures
            final(self).wf(),
            !old(self)@.contains_key(secret.hi) ==> {
                let s = Session { secret, user_id, passkey_id };
                &&& r == Some(s)
                &&& final(self)@ == old(self)@.insert(
                    secret.hi,
                    Entry { value: s, expires: (now + SESSION_WINDOW) as u64 },
                )
            },
            old(self)@.contains_key(secret.hi) ==> r is None && final(self)@ == old(self)@,
            old(self)@.dom().len() == 0 ==> r is Some,
    {
        let session = Session { secret, user_id, passkey_id };
        let inserted = self.sessions.insert_with_id(secret.hi, session, now, SESSION_WINDOW);
        proof {
            assert forall|k: u128| #[trigger] self@.contains_key(k) implies self@[k].value.secret.hi
                == k by {
                if !(inserted is Ok && k == secret.hi) {
                    assert(old(self)@.contains_key(k));
                }
            }
        }
        match inserted {
            Ok(()) => Some(session),
            Err(_) => None,
        }
    }

    /// Opens a session for `user_id`, authenticated by `passkey_id`, under a
    /// fresh random secret. The secret is disclosed to the client once, in
    /// the returned session. `None` only if every random draw collided with
    /// an open session, so never on an empty store; the store is then
    /// unchanged.
    pub fn create(&mut self, user_id: i64, passkey_id: i64, now: u64) -> (r: Option<Session>)
        requires
            old(self).wf(),
            now + SESSION_WINDOW <= u64::MAX,
        ensures
            final(self).wf(),
            r matches Some(s) ==> {
                &&& s.user_id == user_id
                &&& s.passkey_id == passkey_id
                &&& !old(self)@.contains_key(s.secret.hi)
                &&& final(self)@ == old(self)@.insert(
                    s.secret.hi,
                    Entry { value: s, expires: (now + SESSION_WINDOW) as u64 },
                )
            },
            r is None ==> final(self)@ == old(self)@,
            old(self)@.dom().len() == 0 ==> r is Some,
    {
        let mut attempt: u32 = 0;
        while attempt < ID_ATTEMPTS
            invariant
                self.wf(),
                self@ == old(self)@,
                now + SESSION_WINDOW <= u64::MAX,
                old(self)@.dom().len() == 0 ==> attempt == 0,
            decreases ID_ATTEMPTS - attempt,
        {
            let secret = SessionSecret::new();
            let created = self.create_with_secret(secret, user_id, passkey_id, now);
            if created.is_some() {
                return created;
            }
            attempt = attempt + 1;
        }
        None
    }

    /// Validates a presented secret. On a match before expiry the session's
    /// expiry moves to `now + SESSION_WINDOW` and a copy is returned;
    /// otherwise `None`, and the store is unchanged. The stored and the
    /// presented secrets are compared in constant time.
    pub fn get(&mut self, secret: &SessionSecret, now: u64) -> (r: Option<Session>)
        requires
            old(self).wf(),
            now + SESSION_WINDOW <= u64::MAX,
        ensures
            final(self).wf(),
            r == validated(old(self)@, *secret, now),
            r matches Some(s) ==> final(self)@ == old(self)@.insert(
                secret.hi,
                Entry { value: s, expires: (now + SESSION_WINDOW) as u64 },
            ),
            r is None ==> final(self)@ == old(self)@,
    {
        match self.sessions.peek(secret.hi, now) {
            Some(found) => {
                if secrets_match(&found.secret, secret) {
                    self.sessions.peek_and_refresh(secret.hi, now, SESSION_WINDOW)
                } else {
                    None
                }
            },
            None => None,
        }
    }
}

/// A session opened or last validated at `created` (which stores it with
/// expiry `created + SESSION_WINDOW`, see `create` and `get`) and not
/// validated since is found by validation until its window ends, and never
/// from then on.
pub proof fn lemma_session_lapses(
    m: Map<u128, Entry<Session>>,
    s: Session,
    created: u64,
    now: u64,
)
    requires
        created + SESSION_WINDOW <= u64::MAX,
    ensures
        ({
            let opened = m.insert(
                s.secret.hi,
                Entry { value: s, expires: (created + SESSION_WINDOW) as u64 },
            );
            &&& now < created + SESSION_WINDOW ==> validated(opened, s.secret, now) == Some(s)
            &&& now >= created + SESSION_WINDOW ==> validated(opened, s.secret, now) is None
        }),
{
}

/// The scheme word that precedes a session secret in an `Authorization`
/// header.
pub const BEARER_PREFIX: &'static str = "Bearer ";

/// The text after the bearer prefix of a header value, if it has one.
pub open spec fn bearer_text(header: Seq<char>) -> Option<Seq<char>> {
    if header.len() >= BEARER_PREFIX@.len() && header.subrange(0, BEARER_PREFIX@.len() as int)
        == BEARER_PREFIX@ {
        Some(header.subrange(BEARER_PREFIX@.len() as int, header.len() as int))
    } else {
        None
    }
}

/// What authenticating a request with the `Authorization` header `header`
/// yields at `now`: its session, if the header carries a bearer secret that
/// validates; `InvalidSessionError` otherwise, for a missing header, a
/// malformed secret and an unknown or expired session alike.
pub open spec fn authentication(
    m: Map<u128, Entry<Session>>,
    header: Option<&str>,
    now: u64,
) -> Result<Session, ApiError> {
    let found = match header {
        Some(h) => match bearer_text(h@) {
            Some(t) => match parsed_secret(t) {
                Some(secret) => validated(m, secret, now),
                None => None,
            },
            None => None,
        },
        None => None,
    };
    match found {
        Some(s) => Ok(s),
        None => Err(ApiError::InvalidSessionError),
    }
}

/// The text after the bearer prefix of `header`, if it has one.
pub fn bearer_token(header: &str) -> (r: Option<&str>)
    ensures
        r matches Some(t) ==> bearer_text(header@) == Some(t@),
        r is None ==> bearer_text(header@) is None,
{
    proof {
        reveal_strlit("Bearer ");
    }
    let n = header.unicode_len();
    let p = BEARER_PREFIX.unicode_len();
    if n < p {
        return None;
    }
    let mut i: usize = 0;
    while i < p
        invariant
            i <= p,
            p == BEARER_PREFIX@.len(),
            p <= n,
            n == header@.len(),
            forall|j: int| 0 <= j < i ==> header@[j] == BEARER_PREFIX@[j],
        decreases p - i,
    {
        if header.get_char(i) != BEARER_PREFIX.get_char(i) {
            assert(header@.subrange(0, p as int)[i as int] != BEARER_PREFIX@[i as int]);
            return None;
        }
        i = i + 1;
    }
    assert(header@.subrange(0, p as int) =~= BEARER_PREFIX@);
    Some(header.substring_char(p, n))
}

impl SessionStore {
    /// Authenticates a request by its `Authorization` header, validating
    /// (and so refreshing) the session it names.
    pub fn authenticate(&mut self, header: Option<&str>, now: u64) -> (r: Result<Session, ApiError>)
        requires
            old(self).wf(),
            now + SESSION_WINDOW <= u64::MAX,
        ensures
            final(self).wf(),
            r == authentication(old(self)@, header, now),
            r matches Ok(s) ==> final(self)@ == old(self)@.insert(
                s.secret.hi,
                Entry { value: s, expires: (now + SESSION_WINDOW) as u64 },
            ),
            r is Err ==> final(self)@ == old(self)@,
    {
        let text = match header {
            Some(h) => bearer_token(h),
            None => None,
        };
        let secret = match text {
            Some(t) => SessionSecret::parse(t),
            None => None,
        };
        let found = match secret {
            Some(s) => self.get(&s, now),
            None => None,
        };
        match found {
            Some(s) => Ok(s),
            None => Err(ApiError::InvalidSessionError),
        }
    }
}

/// Validation slides the window: a session found at `now` is stored again
/// with an expiry no earlier than before (it was stored at or before `now`
/// with the same window), and is then found at every time up to the new
/// expiry.
pub proof fn lemma_validation_extends(
    m: Map<u128, Entry<Session>>,
    secret: SessionSecret,
    now: u64,
    later: u64,
)
    requires
        now + SESSION_WINDOW <= u64::MAX,
        validated(m, secret, now) is Some,
        m[secret.hi].expires <= now + SESSION_WINDOW,
        now <= later < now + SESSION_WINDOW,
    ensures
        ({
            let s = validated(m, secret, now)->Some_0;
            let refreshed = m.insert(
                secret.hi,
                Entry { value: s, expires: (now + SESSION_WINDOW) as u64 },
            );
            &&& refreshed[secret.hi].expires >= m[secret.hi].expires
            &&& validated(refreshed, secret, later) == Some(s)
        }),
{
}

/// A header that carries the bearer prefix and the text of `secret`
/// authenticates exactly as validating `secret` does: the session if it is
/// open, `InvalidSessionError` once it has lapsed.
pub proof fn lemma_bearer_header_authenticates(
    m: Map<u128, Entry<Session>>,
    header: &str,
    text: Seq<char>,
    secret: SessionSecret,
    now: u64,
)
    requires
        header@ == BEARER_PREFIX@ + text,
        parsed_secret(text) == Some(secret),
    ensures
        authentication(m, Some(header), now) == match validated(m, secret, now) {
            Some(s) => Ok::<Session, ApiError>(s),
            None => Err(ApiError::InvalidSessionError),
        },
{
    let n = BEARER_PREFIX@.len() as int;
    assert(header@.subrange(0, n) =~= BEARER_PREFIX@);
    assert(header@.subrange(n, header@.len() as int) =~= text);
}

} // verus!
