//! The server's secret seed for the passkey PRF extension, from which
//! clients derive the keys that encrypt their files.
use vstd::prelude::*;

use crate::outside::{base64url_encode, base64url_text};

verus! {

/// The length of a seed, in bytes.
pub const SEED_LEN: usize = 32;

/// A 32-byte secret seed.
pub struct PrfSeed {
    seed: Vec<u8>,
}

/// The bytes of a fixed-size array, in order.
fn array_to_vec(a: &[u8; 32]) -> (r: Vec<u8>)
    ensures
        r@ == a@,
{
    let mut out: Vec<u8> = Vec::new();
    let mut i: usize = 0;
    while i < 32
        invariant
            i <= 32,
            out@ == a@.subrange(0, i as int),
        decreases 32 - i,
    {
        out.push(a[i]);
        proof {
            assert(a@.subrange(0, i + 1) =~= a@.subrange(0, i as int).push(a@[i as int]));
        }
        i = i + 1;
    }
    assert(a@.subrange(0, 32) =~= a@);
    out
}

impl PrfSeed {
    pub closed spec fn view(&self) -> Seq<u8> {
        self.seed@
    }

    pub closed spec fn wf(&self) -> bool {
        self.seed@.len() == SEED_LEN
    }

    /// The seed that a key file holds; `None` unless it holds exactly 32
    /// bytes, in which case a new seed is to be made and stored.
    pub fn from_stored(stored: &[u8]) -> (r: Option<Self>)
        ensures
            stored@.len() == SEED_LEN ==> (r matches Some(s) && s@ == stored@ && s.wf()),
            stored@.len() != SEED_LEN ==> r is None,
    {
        if stored.len() == SEED_LEN {
            let mut seed: Vec<u8> = Vec::new();
            let mut i: usize = 0;
            while i < stored.len()
                invariant
                    i <= stored@.len(),
                    seed@ == stored@.subrange(0, i as int),
                decreases stored@.len() - i,
            {
                seed.push(stored[i]);
                proof {
                    assert(stored@.subrange(0, i + 1) =~= stored@.subrange(0, i as int).push(
                        stored@[i as int],
                    ));
                }
                i = i + 1;
            }
            assert(stored@.subrange(0, stored@.len() as int) =~= stored@);
            Some(PrfSeed { seed })
        } else {
            None
        }
    }

    /// A fresh seed from the thread-local random generator.
    pub fn generate() -> (r: Self)
        ensures
            r.wf(),
    {
        let bytes: [u8; 32] = rand::random();
        PrfSeed { seed: array_to_vec(&bytes) }
    }

    pub fn get(&self) -> (r: &[u8])
        ensures
            r@ == self@,
    {
        self.seed.as_slice()
    }

    /// The seed as clients receive it: URL-safe base64 without padding.
    pub fn encoded(&self) -> (r: String)
        ensures
            r@ == base64url_text(self@),
    {
        base64url_encode(self.seed.as_slice())
    }
}

} // verus!
