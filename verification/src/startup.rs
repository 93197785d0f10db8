//! The startup reconcile of the history with the images directory: rows
//! whose image file vanished are dropped, and files that no remaining row
//! references are to be deleted. Checking which files exist, listing the
//! directory and deleting files is left to the caller.

use vstd::prelude::*;
use crate::db::{HistoryRow, HistoryStore, is_referenced, table_wf, vanished_image_rows};
use crate::db_laws::{lemma_filter_filter_and, lemma_filter_same};
use crate::images::{orphan_files, referenced_in};

verus! {

/// Rows whose id is none of `ids`.
pub open spec fn id_not_in(ids: Seq<(i64, Option<String>)>) -> spec_fn(HistoryRow) -> bool {
    |r: HistoryRow| forall|k: int| 0 <= k < ids.len() ==> ids[k].0 != r.clip.id
}

/// The texts of a list of paths.
pub open spec fn path_views(v: Seq<String>) -> Seq<Seq<char>> {
    v.map_values(|s: String| s@)
}

/// Reconcile at startup. `present[i]` says whether the image file of row
/// `i` exists, `files` lists the files of the images directory. Every image
/// row with a path whose file is gone is deleted; the result is the files
/// of `files` (in order) that no remaining row references, to be deleted.
pub fn reconcile(store: &mut HistoryStore, present: &Vec<bool>, files: &Vec<String>) -> (orphans:
    Vec<String>)
    requires
        present@.len() == old(store)@.len(),
    ensures
        table_wf(final(store)@, final(store).last_id()),
        final(store).last_id() == old(store).last_id(),
        final(store)@ == old(store)@.filter(
            id_not_in(vanished_image_rows(old(store)@, present@)),
        ),
        path_views(orphans@) == path_views(files@).filter(
            |p: Seq<char>| !is_referenced(final(store)@, p),
        ),
{
    store.lemma_wf();
    let vanished = store.image_rows(present);
    let ghost old_rows = store@;
    let mut i: usize = 0;
    assert(old_rows.filter(id_not_in(vanished@.take(0))) =~= old_rows) by {
        lemma_filter_all_rows(old_rows, id_not_in(vanished@.take(0)));
    }
    while i < vanished.len()
        invariant
            i <= vanished@.len(),
            store@ == old_rows.filter(id_not_in(vanished@.take(i as int))),
            table_wf(store@, store.last_id()),
            store.last_id() == old(store).last_id(),
        decreases vanished@.len() - i,
    {
        let id = vanished[i].0;
        let ghost before = store@;
        store.delete(id);
        proof {
            let t1 = vanished@.take(i as int + 1);
            let t0 = vanished@.take(i as int);
            let p = id_not_in(t1);
            let q = id_not_in(t0);
            let d = |r: HistoryRow| r.clip.id != id;
            assert(t1[i as int] == vanished@[i as int]);
            assert forall|k: int| 0 <= k < t0.len() implies #[trigger] t1[k] == t0[k] by {}
            assert forall|r: HistoryRow| #[trigger] p(r) == (d(r) && q(r)) by {
                if d(r) && q(r) {
                    assert forall|k: int| 0 <= k < t1.len() implies #[trigger] t1[k].0 != r.clip.id by {
                        if k < i {
                            assert(t1[k] == t0[k]);
                        }
                    }
                }
                if p(r) {
                    assert(t1[i as int].0 != r.clip.id);
                    assert forall|k: int| 0 <= k < t0.len() implies #[trigger] t0[k].0 != r.clip.id by {
                        assert(t1[k] == t0[k]);
                    }
                }
            }
            lemma_filter_filter_and(old_rows, d, q, p);
            lemma_filter_same(before, crate::db::id_is_not(id), d);
        }
        i = i + 1;
    }
    assert(vanished@.take(vanished@.len() as int) =~= vanished@);
    let refs = store.referenced_image_paths();
    let orphans = orphan_files(files, &refs);
    proof {
        let a = |p: Seq<char>| !referenced_in(refs@, p);
        let b = |p: Seq<char>| !is_referenced(store@, p);
        assert forall|p: Seq<char>| #[trigger] a(p) == b(p) by {
            if is_referenced(store@, p) {
                let k = choose|k: int| 0 <= k < refs@.len() && #[trigger] refs@[k]@ == p;
            }
            if referenced_in(refs@, p) {
                let k = choose|k: int| 0 <= k < refs@.len() && #[trigger] refs@[k]@ == p;
            }
        }
        lemma_filter_same(path_views(files@), a, b);
    }
    orphans
}

proof fn lemma_filter_all_rows(s: Seq<HistoryRow>, p: spec_fn(HistoryRow) -> bool)
    requires
        forall|r: HistoryRow| #[trigger] p(r),
    ensures
        s.filter(p) == s,
    decreases s.len(),
{
    reveal(Seq::filter);
    if s.len() > 0 {
        lemma_filter_all_rows(s.drop_last(), p);
        assert(s.drop_last().push(s.last()) =~= s);
    }
}

/// After the reconcile, every file of the directory is either to be deleted
/// or referenced by a remaining row, and no remaining row is one whose image
/// file vanished.
pub proof fn law_reconcile_leaves_only_referenced(
    old_rows: Seq<HistoryRow>,
    present: Seq<bool>,
    new_rows: Seq<HistoryRow>,
    files: Seq<Seq<char>>,
    orphans: Seq<Seq<char>>,
    f: Seq<char>,
)
    requires
        new_rows == old_rows.filter(id_not_in(vanished_image_rows(old_rows, present))),
        orphans == files.filter(|p: Seq<char>| !is_referenced(new_rows, p)),
        files.contains(f),
    ensures
        orphans.contains(f) || is_referenced(new_rows, f),
        forall|k: int|
            0 <= k < new_rows.len() ==> id_not_in(vanished_image_rows(old_rows, present))(
                #[trigger] new_rows[k],
            ),
{
    let keep = |p: Seq<char>| !is_referenced(new_rows, p);
    if !is_referenced(new_rows, f) {
        let i = choose|i: int| 0 <= i < files.len() && files[i] == f;
        files.lemma_filter_contains(keep, i);
    }
    assert forall|k: int| 0 <= k < new_rows.len() implies id_not_in(
        vanished_image_rows(old_rows, present),
    )(#[trigger] new_rows[k]) by {
        old_rows.lemma_filter_pred(id_not_in(vanished_image_rows(old_rows, present)), k);
    }
}

} // verus!
