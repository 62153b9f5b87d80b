//! The sweep that restores agreement between the blob files on disk, the
//! metadata rows, and the liveness rules. It runs in three ordered passes:
//! files, then directories left empty, then rows. No live file is removed,
//! and no row goes before its file.
use vstd::prelude::*;

use crate::blob::{BlobRow, is_live};
use crate::outside::{parsed_uuid, uuid_from_text};
use crate::table::{BlobTable, kept_rows, live_uuid, uuids_unique};

verus! {

broadcast use vstd::seq_lib::group_filter_ensures;

/// A file is removed by the file pass when its name denotes a uuid that
/// no live row holds. Files whose names are not uuids are left alone.
pub open spec fn doomed_file(name: Seq<char>, rows: Seq<BlobRow>, now: i64) -> bool {
    match parsed_uuid(name) {
        Some(u) => !live_uuid(rows, u, now),
        None => false,
    }
}

/// The file names that remain after the file pass.
pub open spec fn kept_files(names: Seq<Seq<char>>, rows: Seq<BlobRow>, now: i64) -> Seq<
    Seq<char>,
> {
    names.filter(|n: Seq<char>| !doomed_file(n, rows, now))
}

/// The file pass: of the blob files named `names`, the positions of those
/// to remove. A failure to remove one does not stop the caller from
/// removing the others.
pub fn files_to_delete(table: &BlobTable, names: &Vec<String>, now: i64) -> (r: Vec<usize>)
    requires
        table.wf(),
    ensures
        forall|k: usize|
            r@.contains(k) <==> (k < names@.len() && doomed_file(names@[k as int]@, table@, now)),
{
    let mut out: Vec<usize> = Vec::new();
    let mut k: usize = 0;
    while k < names.len()
        invariant
            k <= names@.len(),
            table.wf(),
            forall|j: usize|
                out@.contains(j) <==> (j < k && doomed_file(names@[j as int]@, table@, now)),
        decreases names@.len() - k,
    {
        let doomed = match uuid_from_text(names[k].as_str()) {
            Some(u) => !table.is_live_uuid(u, now),
            None => false,
        };
        assert(doomed == doomed_file(names@[k as int]@, table@, now));
        let ghost before = out@;
        if doomed {
            out.push(k);
        }
        proof {
            assert forall|j: usize|
                out@.contains(j) <==> (j < k + 1 && doomed_file(names@[j as int]@, table@, now)) by {
                if out@.contains(j) && j != k {
                    let i = choose|i: int| 0 <= i < out@.len() && out@[i] == j;
                    if doomed {
                        assert(i < before.len());
                    }
                    assert(before[i] == j);
                    assert(before.contains(j));
                }
                if j < k && doomed_file(names@[j as int]@, table@, now) {
                    assert(before.contains(j));
                    let i = choose|i: int| 0 <= i < before.len() && before[i] == j;
                    assert(out@[i] == j);
                }
                if j == k && doomed {
                    assert(out@[out@.len() - 1] == j);
                }
            }
        }
        k = k + 1;
    }
    out
}

/// What a whole sweep leaves, over file names `names` and rows `rows` at
/// `now`: every remaining file that names a uuid belongs to a live row that
/// the row pass keeps; and every tombstoned, expired or exhausted row is
/// removed by the row pass, while no remaining file names it, so its file
/// (if any) went in the file pass, before the row.
pub proof fn lemma_sweep_consistent(names: Seq<Seq<char>>, rows: Seq<BlobRow>, now: i64)
    requires
        uuids_unique(rows),
    ensures
        forall|n: Seq<char>|
            #[trigger] kept_files(names, rows, now).contains(n) && parsed_uuid(n) is Some
                ==> exists|r: BlobRow|
                #[trigger] kept_rows(rows, now).contains(r) && r.uuid == parsed_uuid(n)->0,
        forall|i: int|
            0 <= i < rows.len() && !is_live(#[trigger] rows[i], now) ==> {
                &&& !kept_rows(rows, now).contains(rows[i])
                &&& forall|n: Seq<char>|
                    #[trigger] kept_files(names, rows, now).contains(n) ==> parsed_uuid(n) != Some(
                        rows[i].uuid,
                    )
            },
{
    let fpred = |n: Seq<char>| !doomed_file(n, rows, now);
    let rpred = |b: BlobRow| is_live(b, now);
    assert forall|n: Seq<char>|
        #[trigger] kept_files(names, rows, now).contains(n) && parsed_uuid(n) is Some
            implies exists|r: BlobRow|
            #[trigger] kept_rows(rows, now).contains(r) && r.uuid == parsed_uuid(n)->0 by {
        let kf = names.filter(fpred);
        let a = choose|a: int| 0 <= a < kf.len() && kf[a] == n;
        assert(fpred(kf[a]));
        let u = parsed_uuid(n)->0;
        assert(live_uuid(rows, u, now));
        let j = choose|j: int| 0 <= j < rows.len() && #[trigger] rows[j].uuid == u && is_live(
            rows[j],
            now,
        );
        rows.lemma_filter_contains(rpred, j);
        assert(kept_rows(rows, now).contains(rows[j]));
    }
    assert forall|i: int| 0 <= i < rows.len() && !is_live(#[trigger] rows[i], now) implies {
        &&& !kept_rows(rows, now).contains(rows[i])
        &&& forall|n: Seq<char>|
            #[trigger] kept_files(names, rows, now).contains(n) ==> parsed_uuid(n) != Some(
                rows[i].uuid,
            )
    } by {
        let kr = rows.filter(rpred);
        if kr.contains(rows[i]) {
            let a = choose|a: int| 0 <= a < kr.len() && kr[a] == rows[i];
            assert(rpred(kr[a]));
        }
        assert forall|n: Seq<char>| #[trigger]
            kept_files(names, rows, now).contains(n) implies parsed_uuid(n) != Some(
            rows[i].uuid,
        ) by {
            let kf = names.filter(fpred);
            let a = choose|a: int| 0 <= a < kf.len() && kf[a] == n;
            assert(fpred(kf[a]));
            if parsed_uuid(n) == Some(rows[i].uuid) {
                let j = choose|j: int|
                    0 <= j < rows.len() && #[trigger] rows[j].uuid == rows[i].uuid && is_live(
                        rows[j],
                        now,
                    );
                assert(i == j);
            }
        }
    }
}

/// The sweep keeps the file of every live row: a file named by the text of
/// a live row's uuid (which reads back as that uuid, as `uploaded_file_path`
/// states) is never removed by the file pass.
pub proof fn lemma_live_file_kept(name: Seq<char>, rows: Seq<BlobRow>, i: int, now: i64)
    requires
        0 <= i < rows.len(),
        is_live(rows[i], now),
        parsed_uuid(name) == Some(rows[i].uuid),
    ensures
        !doomed_file(name, rows, now),
{
    assert(live_uuid(rows, rows[i].uuid, now));
}

} // verus!
