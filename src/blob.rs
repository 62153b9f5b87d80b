//! Encrypted blobs: where their bytes live, and the rules of their
//! metadata rows (budgeted and expiring access, tombstones).
use vstd::prelude::*;

use crate::error::ApiError;
use crate::outside::{parsed_uuid, uuid_text, uuid_to_text};

verus! {

/// What the service's rules read of a blob's metadata row. The client's
/// crypto parameters travel beside it, unread.
#[derive(Debug, Clone, Copy, PartialEq, Eq, Structural)]
pub struct BlobRow {
    /// The blob's id, also the name of its file.
    pub uuid: u128,
    /// The owner.
    pub user_id: i64,
    /// The passkey whose derived key the blob is bound to, if any.
    pub e2ee_passkey_id: Option<i64>,
    /// Whether the row is logically deleted (its crypto salt cleared).
    pub tombstoned: bool,
    /// Downloads left; `None` for no limit.
    pub downloads_remaining: Option<i64>,
    /// When the blob stops being served, in unix seconds; `None` for never.
    pub expires_at: Option<i64>,
}

/// A row is live while it is not tombstoned, has budget left and has not
/// expired.
pub open spec fn is_live(r: BlobRow, now: i64) -> bool {
    &&& !r.tombstoned
    &&& match r.downloads_remaining {
        Some(n) => n > 0,
        None => true,
    }
    &&& match r.expires_at {
        Some(t) => t > now,
        None => true,
    }
}

/// A row is listed to `user_id`, logged in with `passkey_id`, when it is
/// theirs, live, and not bound to another of their passkeys.
pub open spec fn is_visible_to(r: BlobRow, user_id: i64, passkey_id: i64, now: i64) -> bool {
    &&& r.user_id == user_id
    &&& is_live(r, now)
    &&& match r.e2ee_passkey_id {
        Some(p) => p == passkey_id,
        None => true,
    }
}

/// What one download of the blob of row `r` by `user_id` yields: the row
/// after it, and whether it used up the last permitted download. Budget
/// and expiry are checked and the budget decremented in one step, the
/// conditional update `remaining = remaining - 1 WHERE remaining > 0`.
pub open spec fn download_outcome(r: BlobRow, user_id: i64, now: i64) -> Result<
    (BlobRow, bool),
    ApiError,
> {
    if r.user_id == user_id && is_live(r, now) {
        match r.downloads_remaining {
            Some(n) => Ok(
                (
                    BlobRow {
                        uuid: r.uuid,
                        user_id: r.user_id,
                        e2ee_passkey_id: r.e2ee_passkey_id,
                        tombstoned: r.tombstoned,
                        downloads_remaining: Some((n - 1) as i64),
                        expires_at: r.expires_at,
                    },
                    n == 1,
                ),
            ),
            None => Ok((r, false)),
        }
    } else {
        Err(ApiError::NotFoundError)
    }
}

/// The row `r` once deleted by `user_id`: tombstoned, if it was theirs and
/// not tombstoned yet; `NotFoundError` otherwise.
pub open spec fn delete_outcome(r: BlobRow, user_id: i64) -> Result<BlobRow, ApiError> {
    if r.user_id == user_id && !r.tombstoned {
        Ok(tombstone(r))
    } else {
        Err(ApiError::NotFoundError)
    }
}

pub open spec fn tombstone(r: BlobRow) -> BlobRow {
    BlobRow {
        uuid: r.uuid,
        user_id: r.user_id,
        e2ee_passkey_id: r.e2ee_passkey_id,
        tombstoned: true,
        downloads_remaining: r.downloads_remaining,
        expires_at: r.expires_at,
    }
}

impl BlobRow {
    /// The row of a new upload by the owner of `session_passkey_id`'s
    /// session. An end-to-end encrypted upload is bound to the passkey of
    /// that session, since only it can derive the key; any other is bound
    /// to none.
    pub fn new_upload(
        uuid: u128,
        user_id: i64,
        session_passkey_id: i64,
        is_e2ee: bool,
        downloads_remaining: Option<i64>,
        expires_at: Option<i64>,
    ) -> (r: BlobRow)
        ensures
            r == (BlobRow {
                uuid,
                user_id,
                e2ee_passkey_id: if is_e2ee {
                    Some(session_passkey_id)
                } else {
                    None
                },
                tombstoned: false,
                downloads_remaining,
                expires_at,
            }),
    {
        BlobRow {
            uuid,
            user_id,
            e2ee_passkey_id: if is_e2ee {
                Some(session_passkey_id)
            } else {
                None
            },
            tombstoned: false,
            downloads_remaining,
            expires_at,
        }
    }

    pub fn is_live(&self, now: i64) -> (r: bool)
        ensures
            r == is_live(*self, now),
    {
        let budget_left = match self.downloads_remaining {
            Some(n) => n > 0,
            None => true,
        };
        let unexpired = match self.expires_at {
            Some(t) => t > now,
            None => true,
        };
        !self.tombstoned && budget_left && unexpired
    }

    pub fn is_visible_to(&self, user_id: i64, passkey_id: i64, now: i64) -> (r: bool)
        ensures
            r == is_visible_to(*self, user_id, passkey_id, now),
    {
        let bound_ok = match self.e2ee_passkey_id {
            Some(p) => p == passkey_id,
            None => true,
        };
        self.user_id == user_id && self.is_live(now) && bound_ok
    }

    /// One download by `user_id`: the row after it and whether it was the
    /// last one permitted; `NotFoundError` if the row is not theirs, is
    /// tombstoned, has expired or has no budget left.
    pub fn download(&self, user_id: i64, now: i64) -> (r: Result<(BlobRow, bool), ApiError>)
        ensures
            r == download_outcome(*self, user_id, now),
    {
        if self.user_id == user_id && self.is_live(now) {
            match self.downloads_remaining {
                Some(n) => {
                    let after = BlobRow {
                        uuid: self.uuid,
                        user_id: self.user_id,
                        e2ee_passkey_id: self.e2ee_passkey_id,
                        tombstoned: self.tombstoned,
                        downloads_remaining: Some(n - 1),
                        expires_at: self.expires_at,
                    };
                    Ok((after, n == 1))
                },
                None => Ok((*self, false)),
            }
        } else {
            Err(ApiError::NotFoundError)
        }
    }

    /// Deletion by `user_id`: the tombstoned row, or `NotFoundError` if the
    /// row is not theirs or already tombstoned.
    pub fn delete(&self, user_id: i64) -> (r: Result<BlobRow, ApiError>)
        ensures
            r == delete_outcome(*self, user_id),
    {
        if self.user_id == user_id && !self.tombstoned {
            let mut after = *self;
            after.tombstoned = true;
            Ok(after)
        } else {
            Err(ApiError::NotFoundError)
        }
    }
}

/// Where the bytes of blob `uuid` are stored under `root`: two levels of
/// directories named by the first two pairs of hex digits of its text,
/// which bounds how many entries one directory holds.
pub open spec fn blob_path(root: Seq<char>, uuid: u128) -> Seq<char> {
    let t = uuid_text(uuid);
    root + seq!['/'] + t.subrange(0, 2) + seq!['/'] + t.subrange(2, 4) + seq!['/'] + t
}

/// The directory that holds the bytes of blob `uuid` under `root`.
pub open spec fn blob_dir(root: Seq<char>, uuid: u128) -> Seq<char> {
    let t = uuid_text(uuid);
    root + seq!['/'] + t.subrange(0, 2) + seq!['/'] + t.subrange(2, 4)
}

/// Where the bytes of blob `uuid` go under `root`. The file's name, the
/// uuid's text, reads back as that uuid, which is how the sweep matches
/// files to rows.
pub fn uploaded_file_path(root: &str, uuid: u128) -> (r: String)
    ensures
        r@ == blob_path(root@, uuid),
        parsed_uuid(uuid_text(uuid)) == Some(uuid),
{
    let mut path = blob_dir_path(root, uuid);
    let text = uuid_to_text(uuid);
    path.append("/");
    path.append(text.as_str());
    proof {
        reveal_strlit("/");
    }
    assert(path@ =~= blob_path(root@, uuid));
    path
}

pub fn blob_dir_path(root: &str, uuid: u128) -> (r: String)
    ensures
        r@ == blob_dir(root@, uuid),
{
    let text = uuid_to_text(uuid);
    let t = text.as_str();
    let mut path = String::from_str(root);
    path.append("/");
    path.append(t.substring_char(0, 2));
    path.append("/");
    path.append(t.substring_char(2, 4));
    proof {
        reveal_strlit("/");
    }
    assert(path@ =~= blob_dir(root@, uuid));
    path
}

/// How many of the download requests `reqs`, each a user and a time,
/// succeed when they reach the row `r` one after another.
pub open spec fn successful_downloads(r: BlobRow, reqs: Seq<(i64, i64)>) -> nat
    decreases reqs.len(),
{
    if reqs.len() == 0 {
        0
    } else {
        match download_outcome(r, reqs[0].0, reqs[0].1) {
            Ok((t, _)) => 1 + successful_downloads(t, reqs.drop_first()),
            Err(_) => successful_downloads(r, reqs.drop_first()),
        }
    }
}

proof fn lemma_exhausted_serves_none(r: BlobRow, reqs: Seq<(i64, i64)>)
    requires
        r.downloads_remaining == Some(0i64),
    ensures
        successful_downloads(r, reqs) == 0,
    decreases reqs.len(),
{
    if reqs.len() > 0 {
        lemma_exhausted_serves_none(r, reqs.drop_first());
    }
}

/// A blob with one download left serves at most one of any number of
/// download requests, in whatever order they reach it: after the one that
/// succeeds, every other one fails as `NotFoundError`.
pub proof fn lemma_last_download_served_once(r: BlobRow, reqs: Seq<(i64, i64)>)
    requires
        r.downloads_remaining == Some(1i64),
    ensures
        successful_downloads(r, reqs) <= 1,
    decreases reqs.len(),
{
    if reqs.len() > 0 {
        match download_outcome(r, reqs[0].0, reqs[0].1) {
            Ok((t, _)) => {
                lemma_exhausted_serves_none(t, reqs.drop_first());
            },
            Err(_) => {
                lemma_last_download_served_once(r, reqs.drop_first());
            },
        }
    }
}

/// The owner's download of a live blob with one download left succeeds,
/// reports that it was the last, and leaves a row that every later
/// download fails on as `NotFoundError`.
pub proof fn lemma_last_download_is_final(r: BlobRow, now: i64, user_id: i64, later: i64)
    requires
        r.downloads_remaining == Some(1i64),
        is_live(r, now),
    ensures
        download_outcome(r, r.user_id, now) matches Ok((t, last)) && last && download_outcome(
            t,
            user_id,
            later,
        ) == Err::<(BlobRow, bool), ApiError>(ApiError::NotFoundError),
{
}

/// Whether a download used up the budget, given the budget that the
/// conditional decrement left: only a finite budget brought to zero does.
pub fn is_final_download(remaining_after: Option<i64>) -> (r: bool)
    ensures
        r == (remaining_after == Some(0i64)),
{
    match remaining_after {
        Some(n) => n == 0,
        None => false,
    }
}

/// Of any number of download requests that reach a blob with one download
/// left, in whatever order, exactly one succeeds, as long as they all come
/// from its owner while it is neither tombstoned nor expired: the first
/// one, and every later one finds the budget exhausted.
pub proof fn lemma_last_download_served_exactly_once(r: BlobRow, reqs: Seq<(i64, i64)>)
    requires
        r.downloads_remaining == Some(1i64),
        !r.tombstoned,
        reqs.len() >= 1,
        forall|k: int|
            0 <= k < reqs.len() ==> (#[trigger] reqs[k]).0 == r.user_id && match r.expires_at {
                Some(t) => t > reqs[k].1,
                None => true,
            },
    ensures
        successful_downloads(r, reqs) == 1,
{
    assert(reqs[0].0 == r.user_id);
    let t = download_outcome(r, reqs[0].0, reqs[0].1)->Ok_0.0;
    lemma_exhausted_serves_none(t, reqs.drop_first());
}

} // verus!
