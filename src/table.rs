//! The metadata table of blobs: one row per uuid, and the operations that
//! the service performs on it.
use vstd::prelude::*;

use crate::blob::{
    BlobRow, delete_outcome, download_outcome, is_live, is_visible_to, tombstone,
};
use crate::error::ApiError;

verus! {

/// No two rows share a uuid.
pub open spec fn uuids_unique(s: Seq<BlobRow>) -> bool {
    forall|i: int, j: int|
        0 <= i < s.len() && 0 <= j < s.len() && i != j ==> #[trigger] s[i].uuid != #[trigger] s[j].uuid
}

pub open spec fn has_uuid(s: Seq<BlobRow>, uuid: u128) -> bool {
    exists|i: int| 0 <= i < s.len() && #[trigger] s[i].uuid == uuid
}

/// Where the row of `uuid` stands, if there is one.
pub open spec fn row_index(s: Seq<BlobRow>, uuid: u128) -> int {
    choose|i: int| 0 <= i < s.len() && #[trigger] s[i].uuid == uuid
}

/// Whether a live row holds `uuid`.
pub open spec fn live_uuid(s: Seq<BlobRow>, uuid: u128, now: i64) -> bool {
    exists|i: int| 0 <= i < s.len() && #[trigger] s[i].uuid == uuid && is_live(s[i], now)
}

/// The rows after `user_id` deleted the blob `uuid`, or `NotFoundError`
/// where there is no such row, it is another's, or it is tombstoned.
pub open spec fn table_delete(s: Seq<BlobRow>, user_id: i64, uuid: u128) -> Result<
    Seq<BlobRow>,
    ApiError,
> {
    if has_uuid(s, uuid) {
        let i = row_index(s, uuid);
        match delete_outcome(s[i], user_id) {
            Ok(t) => Ok(s.update(i, t)),
            Err(e) => Err(e),
        }
    } else {
        Err(ApiError::NotFoundError)
    }
}

/// The rows after `user_id` downloaded the blob `uuid`, with whether it
/// was the last permitted download; or the error the download met.
pub open spec fn table_download(s: Seq<BlobRow>, user_id: i64, uuid: u128, now: i64) -> Result<
    (Seq<BlobRow>, bool),
    ApiError,
> {
    if has_uuid(s, uuid) {
        let i = row_index(s, uuid);
        match download_outcome(s[i], user_id, now) {
            Ok((t, last)) => Ok((s.update(i, t), last)),
            Err(e) => Err(e),
        }
    } else {
        Err(ApiError::NotFoundError)
    }
}

/// The rows that a sweep at `now` keeps: the live ones, in order.
pub open spec fn kept_rows(s: Seq<BlobRow>, now: i64) -> Seq<BlobRow> {
    s.filter(|r: BlobRow| is_live(r, now))
}

/// In a table whose uuids are unique, the row found at `i` is the row of
/// its uuid.
pub proof fn lemma_index_is_unique(s: Seq<BlobRow>, i: int, uuid: u128)
    requires
        uuids_unique(s),
        0 <= i < s.len(),
        s[i].uuid == uuid,
    ensures
        has_uuid(s, uuid),
        row_index(s, uuid) == i,
{
    assert(has_uuid(s, uuid));
    let j = row_index(s, uuid);
    assert(s[j].uuid == uuid);
}

proof fn lemma_update_keeps_unique(s: Seq<BlobRow>, i: int, t: BlobRow)
    requires
        uuids_unique(s),
        0 <= i < s.len(),
        t.uuid == s[i].uuid,
    ensures
        uuids_unique(s.update(i, t)),
{
    let u = s.update(i, t);
    assert forall|a: int, b: int|
        0 <= a < u.len() && 0 <= b < u.len() && a != b implies #[trigger] u[a].uuid
        != #[trigger] u[b].uuid by {
        assert(u[a].uuid == s[a].uuid);
        assert(u[b].uuid == s[b].uuid);
    }
}

/// The metadata rows of all blobs.
pub struct BlobTable {
    rows: Vec<BlobRow>,
}

impl BlobTable {
    pub closed spec fn view(&self) -> Seq<BlobRow> {
        self.rows@
    }

    pub open spec fn wf(&self) -> bool {
        uuids_unique(self@)
    }

    pub fn new() -> (r: Self)
        ensures
            r@ == Seq::<BlobRow>::empty(),
            r.wf(),
    {
        BlobTable { rows: Vec::new() }
    }

    pub fn rows(&self) -> (r: &Vec<BlobRow>)
        ensures
            r@ == self@,
    {
        &self.rows
    }

    fn position(&self, uuid: u128) -> (r: Option<usize>)
        requires
            self.wf(),
        ensures
            r matches Some(i) ==> i < self@.len() && self@[i as int].uuid == uuid && has_uuid(
                self@,
                uuid,
            ) && row_index(self@, uuid) == i,
            r is None ==> !has_uuid(self@, uuid),
    {
        let mut i: usize = 0;
        while i < self.rows.len()
            invariant
                i <= self@.len(),
                self.wf(),
                forall|j: int| 0 <= j < i ==> #[trigger] self@[j].uuid != uuid,
            decreases self@.len() - i,
        {
            if self.rows[i].uuid == uuid {
                proof {
                    lemma_index_is_unique(self@, i as int, uuid);
                }
                return Some(i);
            }
            i = i + 1;
        }
        None
    }

    /// The row of `uuid`, if there is one.
    pub fn get(&self, uuid: u128) -> (r: Option<BlobRow>)
        requires
            self.wf(),
        ensures
            has_uuid(self@, uuid) ==> r == Some(self@[row_index(self@, uuid)]),
            !has_uuid(self@, uuid) ==> r is None,
    {
        match self.position(uuid) {
            Some(i) => Some(self.rows[i]),
            None => None,
        }
    }

    /// Adds the row of a new upload. A uuid already in use is refused with
    /// `BadRequestError`, which defends against id reuse.
    pub fn insert(&mut self, row: BlobRow) -> (r: Result<(), ApiError>)
        requires
            old(self).wf(),
        ensures
            final(self).wf(),
            !has_uuid(old(self)@, row.uuid) ==> r is Ok && final(self)@ == old(self)@.push(row),
            has_uuid(old(self)@, row.uuid) ==> r == Err::<(), ApiError>(ApiError::BadRequestError)
                && final(self)@ == old(self)@,
    {
        match self.position(row.uuid) {
            Some(_) => Err(ApiError::BadRequestError),
            None => {
                self.rows.push(row);
                proof {
                    let s = self@;
                    assert forall|a: int, b: int|
                        0 <= a < s.len() && 0 <= b < s.len() && a != b implies #[trigger] s[a].uuid
                        != #[trigger] s[b].uuid by {
                        if a == s.len() - 1 {
                            assert(old(self)@[b] == s[b]);
                        } else if b == s.len() - 1 {
                            assert(old(self)@[a] == s[a]);
                        } else {
                            assert(old(self)@[a] == s[a] && old(self)@[b] == s[b]);
                        }
                    }
                }
                Ok(())
            },
        }
    }

    /// One download of blob `uuid` by `user_id`: whether it used up the
    /// last permitted download. The check of owner, tombstone, expiry and
    /// budget and the decrement happen in one step on the table, so two
    /// requests that both saw one download left cannot both succeed.
    pub fn download(&mut self, user_id: i64, uuid: u128, now: i64) -> (r: Result<bool, ApiError>)
        requires
            old(self).wf(),
        ensures
            final(self).wf(),
            table_download(old(self)@, user_id, uuid, now) matches Ok((s, last)) ==> r == Ok::<
                bool,
                ApiError,
            >(last) && final(self)@ == s,
            table_download(old(self)@, user_id, uuid, now) matches Err(e) ==> r == Err::<
                bool,
                ApiError,
            >(e) && final(self)@ == old(self)@,
    {
        match self.position(uuid) {
            Some(i) => {
                match self.rows[i].download(user_id, now) {
                    Ok((after, last)) => {
                        self.rows.set(i, after);
                        proof {
                            lemma_update_keeps_unique(old(self)@, i as int, after);
                        }
                        Ok(last)
                    },
                    Err(e) => Err(e),
                }
            },
            None => Err(ApiError::NotFoundError),
        }
    }

    /// Deletion of blob `uuid` by `user_id`: the row is tombstoned, and the
    /// caller may then remove the file. `NotFoundError`, and nothing to
    /// remove, where the row is absent, another's, or already tombstoned.
    pub fn delete(&mut self, user_id: i64, uuid: u128) -> (r: Result<(), ApiError>)
        requires
            old(self).wf(),
        ensures
            final(self).wf(),
            table_delete(old(self)@, user_id, uuid) matches Ok(s) ==> r is Ok && final(self)@ == s,
            table_delete(old(self)@, user_id, uuid) matches Err(e) ==> r == Err::<(), ApiError>(e)
                && final(self)@ == old(self)@,
    {
        match self.position(uuid) {
            Some(i) => {
                match self.rows[i].delete(user_id) {
                    Ok(after) => {
                        self.rows.set(i, after);
                        proof {
                            lemma_update_keeps_unique(old(self)@, i as int, after);
                        }
                        Ok(())
                    },
                    Err(e) => Err(e),
                }
            },
            None => Err(ApiError::NotFoundError),
        }
    }

    /// Whether a live row holds `uuid`.
    pub fn is_live_uuid(&self, uuid: u128, now: i64) -> (r: bool)
        requires
            self.wf(),
        ensures
            r == live_uuid(self@, uuid, now),
    {
        match self.position(uuid) {
            Some(i) => {
                let live = self.rows[i].is_live(now);
                proof {
                    if !live {
                        assert forall|j: int|
                            0 <= j < self@.len() && #[trigger] self@[j].uuid == uuid implies !is_live(
                                self@[j],
                                now,
                            ) by {
                            assert(j == i);
                        }
                    }
                }
                live
            },
            None => false,
        }
    }

    /// The rows that `user_id`, logged in with `passkey_id`, may list: theirs,
    /// live, and not bound to another passkey, in table order.
    pub fn list(&self, user_id: i64, passkey_id: i64, now: i64) -> (r: Vec<BlobRow>)
        ensures
            r@ == self@.filter(|b: BlobRow| is_visible_to(b, user_id, passkey_id, now)),
    {
        let ghost pred = |b: BlobRow| is_visible_to(b, user_id, passkey_id, now);
        let mut out: Vec<BlobRow> = Vec::new();
        let mut i: usize = 0;
        while i < self.rows.len()
            invariant
                i <= self@.len(),
                pred == (|b: BlobRow| is_visible_to(b, user_id, passkey_id, now)),
                out@ == self@.subrange(0, i as int).filter(pred),
            decreases self@.len() - i,
        {
            let row = self.rows[i];
            proof {
                let prev = self@.subrange(0, i as int);
                let next = self@.subrange(0, i + 1);
                assert(next.drop_last() =~= prev);
                assert(next.last() == row);
                reveal(Seq::filter);
                assert(next.filter(pred) == if pred(row) {
                    prev.filter(pred).push(row)
                } else {
                    prev.filter(pred)
                });
            }
            if row.is_visible_to(user_id, passkey_id, now) {
                out.push(row);
            }
            i = i + 1;
        }
        assert(self@.subrange(0, self@.len() as int) =~= self@);
        out
    }

    /// Tombstones every row of `user_id` and returns their uuids: the files
    /// that the caller may then remove.
    pub fn delete_all(&mut self, user_id: i64) -> (r: Vec<u128>)
        requires
            old(self).wf(),
        ensures
            final(self).wf(),
            final(self)@.len() == old(self)@.len(),
            forall|i: int|
                0 <= i < old(self)@.len() ==> #[trigger] final(self)@[i] == if old(self)@[i].user_id
                    == user_id {
                    tombstone(old(self)@[i])
                } else {
                    old(self)@[i]
                },
            forall|u: u128|
                r@.contains(u) <==> exists|i: int|
                    0 <= i < old(self)@.len() && #[trigger] old(self)@[i].uuid == u
                        && old(self)@[i].user_id == user_id,
    {
        let ghost start = self@;
        let mut out: Vec<u128> = Vec::new();
        let mut i: usize = 0;
        while i < self.rows.len()
            invariant
                i <= self@.len(),
                self@.len() == start.len(),
                start == old(self)@,
                forall|j: int|
                    0 <= j < i ==> #[trigger] self@[j] == if start[j].user_id == user_id {
                        tombstone(start[j])
                    } else {
                        start[j]
                    },
                forall|j: int| i <= j < self@.len() ==> #[trigger] self@[j] == start[j],
                forall|u: u128|
                    out@.contains(u) <==> exists|j: int|
                        0 <= j < i && #[trigger] start[j].uuid == u && start[j].user_id == user_id,
            decreases self@.len() - i,
        {
            let row = self.rows[i];
            if row.user_id == user_id {
                let mut after = row;
                after.tombstoned = true;
                self.rows.set(i, after);
                let ghost before = out@;
                out.push(row.uuid);
                proof {
                    assert forall|u: u128|
                        out@.contains(u) <==> exists|j: int|
                            0 <= j < i + 1 && #[trigger] start[j].uuid == u && start[j].user_id
                                == user_id by {
                        if out@.contains(u) && u != row.uuid {
                            let k = choose|k: int| 0 <= k < out@.len() && out@[k] == u;
                            assert(before[k] == u);
                            assert(before.contains(u));
                        }
                        if exists|j: int|
                            0 <= j < i + 1 && #[trigger] start[j].uuid == u && start[j].user_id
                                == user_id {
                            let j = choose|j: int|
                                0 <= j < i + 1 && #[trigger] start[j].uuid == u && start[j].user_id
                                    == user_id;
                            if j < i {
                                assert(before.contains(u));
                                let k = choose|k: int| 0 <= k < before.len() && before[k] == u;
                                assert(out@[k] == u);
                            } else {
                                assert(out@[out@.len() - 1] == u);
                            }
                        }
                    }
                }
            }
            i = i + 1;
        }
        proof {
            let s = self@;
            assert forall|a: int, b: int|
                0 <= a < s.len() && 0 <= b < s.len() && a != b implies #[trigger] s[a].uuid
                != #[trigger] s[b].uuid by {
                assert(s[a].uuid == start[a].uuid);
                assert(s[b].uuid == start[b].uuid);
            }
        }
        out
    }

    /// The row pass of a sweep: removes every row that is tombstoned,
    /// expired or out of budget, and returns their uuids.
    pub fn prune_rows(&mut self, now: i64) -> (r: Vec<u128>)
        requires
            old(self).wf(),
        ensures
            final(self).wf(),
            final(self)@ == kept_rows(old(self)@, now),
            forall|u: u128|
                r@.contains(u) <==> exists|i: int|
                    0 <= i < old(self)@.len() && #[trigger] old(self)@[i].uuid == u && !is_live(
                        old(self)@[i],
                        now,
                    ),
    {
        let ghost start = self@;
        let ghost pred = |b: BlobRow| is_live(b, now);
        let mut kept: Vec<BlobRow> = Vec::new();
        let mut removed: Vec<u128> = Vec::new();
        let mut i: usize = 0;
        while i < self.rows.len()
            invariant
                i <= self@.len(),
                self@ == start,
                uuids_unique(start),
                pred == (|b: BlobRow| is_live(b, now)),
                kept@ == start.subrange(0, i as int).filter(pred),
                uuids_unique(kept@),
                forall|k: int|
                    0 <= k < kept@.len() ==> exists|j: int|
                        0 <= j < i && #[trigger] start[j].uuid == (#[trigger] kept@[k]).uuid,
                forall|u: u128|
                    removed@.contains(u) <==> exists|j: int|
                        0 <= j < i && #[trigger] start[j].uuid == u && !is_live(start[j], now),
            decreases self@.len() - i,
        {
            let row = self.rows[i];
            proof {
                let prev = start.subrange(0, i as int);
                let next = start.subrange(0, i + 1);
                assert(next.drop_last() =~= prev);
                assert(next.last() == row);
                reveal(Seq::filter);
                assert(next.filter(pred) == if pred(row) {
                    prev.filter(pred).push(row)
                } else {
                    prev.filter(pred)
                });
            }
            if row.is_live(now) {
                let ghost before = kept@;
                kept.push(row);
                proof {
                    let s = kept@;
                    assert forall|a: int, b: int|
                        0 <= a < s.len() && 0 <= b < s.len() && a != b implies #[trigger] s[a].uuid
                        != #[trigger] s[b].uuid by {
                        if a == s.len() - 1 {
                            assert(s[b] == before[b]);
                        } else if b == s.len() - 1 {
                            assert(s[a] == before[a]);
                        } else {
                            assert(s[a] == before[a] && s[b] == before[b]);
                        }
                    }
                    assert forall|k: int| 0 <= k < s.len() implies exists|j: int|
                        0 <= j < i + 1 && #[trigger] start[j].uuid == (#[trigger] s[k]).uuid by {
                        if k == s.len() - 1 {
                            assert(start[i as int].uuid == s[k].uuid);
                        } else {
                            assert(s[k] == before[k]);
                        }
                    }
                }
            } else {
                let ghost before = removed@;
                removed.push(row.uuid);
                proof {
                    assert forall|k: int| 0 <= k < kept@.len() implies exists|j: int|
                        0 <= j < i + 1 && #[trigger] start[j].uuid == (#[trigger] kept@[k]).uuid by {
                        let j = choose|j: int|
                            0 <= j < i && #[trigger] start[j].uuid == (#[trigger] kept@[k]).uuid;
                        assert(0 <= j < i + 1 && start[j].uuid == kept@[k].uuid);
                    }
                    assert forall|u: u128|
                        removed@.contains(u) <==> exists|j: int|
                            0 <= j < i + 1 && #[trigger] start[j].uuid == u && !is_live(
                                start[j],
                                now,
                            ) by {
                        if removed@.contains(u) && u != row.uuid {
                            let k = choose|k: int| 0 <= k < removed@.len() && removed@[k] == u;
                            assert(before[k] == u);
                            assert(before.contains(u));
                        }
                        if exists|j: int|
                            0 <= j < i + 1 && #[trigger] start[j].uuid == u && !is_live(
                                start[j],
                                now,
                            ) {
                            let j = choose|j: int|
                                0 <= j < i + 1 && #[trigger] start[j].uuid == u && !is_live(
                                    start[j],
                                    now,
                                );
                            if j < i {
                                assert(before.contains(u));
                                let k = choose|k: int| 0 <= k < before.len() && before[k] == u;
                                assert(removed@[k] == u);
                            } else {
                                assert(removed@[removed@.len() - 1] == u);
                            }
                        }
                    }
                }
            }
            i = i + 1;
        }
        assert(start.subrange(0, start.len() as int) =~= start);
        self.rows = kept;
        removed
    }
}

/// Deleting a blob twice is harmless: once a deletion has tombstoned the
/// row of `uuid`, any further deletion of it fails as `NotFoundError` and
/// changes nothing, so no file is removed twice on its account.
pub proof fn lemma_delete_idempotent(s: Seq<BlobRow>, user_id: i64, uuid: u128, again_by: i64)
    requires
        uuids_unique(s),
        table_delete(s, user_id, uuid) is Ok,
    ensures
        table_delete(table_delete(s, user_id, uuid)->Ok_0, again_by, uuid) == Err::<
            Seq<BlobRow>,
            ApiError,
        >(ApiError::NotFoundError),
{
    let i = row_index(s, uuid);
    let t = delete_outcome(s[i], user_id)->Ok_0;
    let s2 = s.update(i, t);
    lemma_update_keeps_unique(s, i, t);
    lemma_index_is_unique(s2, i, uuid);
}

} // verus!
