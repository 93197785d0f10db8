//! Laws of recording clipboard content.

use vstd::prelude::*;
use crate::clipboard::pushed_then_capped;
use crate::db::{
    GcPaths, HistoryRow, table_wf, unpinned_before, kept_by_cap, is_latest_with_hash,
    latest_with_hash, has_hash,
};

verus! {

proof fn lemma_filter_none<A>(s: Seq<A>, p: spec_fn(A) -> bool)
    requires
        forall|i: int| 0 <= i < s.len() ==> !p(#[trigger] s[i]),
    ensures
        s.filter(p).len() == 0,
    decreases s.len(),
{
    reveal(Seq::filter);
    if s.len() > 0 {
        assert forall|i: int| 0 <= i < s.drop_last().len() implies !p(#[trigger] s.drop_last()[i]) by {
            assert(s.drop_last()[i] == s[i]);
        }
        lemma_filter_none(s.drop_last(), p);
        assert(!p(s[s.len() - 1]));
    }
}

/// Recorded content is found again: once a new unpinned row with content
/// hash `h` is added (its id above every id so far, its last use no earlier
/// than any row's) and the history is capped at `cap >= 1`, a most recent
/// row with hash `h` exists. So copying the same content again moves that
/// row to the top instead of adding a second one.
pub proof fn law_recorded_content_found(
    old: Seq<HistoryRow>,
    seq: i64,
    row: HistoryRow,
    fin: Seq<HistoryRow>,
    gc: Seq<GcPaths>,
    cap: u32,
    h: Seq<char>,
)
    requires
        table_wf(old, seq),
        table_wf(fin, row.clip.id),
        row.clip.id > seq,
        !row.clip.pinned,
        has_hash(row, h),
        forall|k: int| 0 <= k < old.len() ==> (#[trigger] old[k]).clip.last_used_at <= row.clip.last_used_at,
        cap >= 1,
        pushed_then_capped(old, row, fin, gc, cap),
    ensures
        latest_with_hash(fin, h) is Some,
{
    let mid = old.push(row);
    assert forall|i: int| 0 <= i < mid.len() implies !(#[trigger] unpinned_before(row.clip)(mid[i])) by {
        if i < old.len() {
            assert(mid[i] == old[i]);
            assert(old[i].clip.id <= seq);
        } else {
            assert(mid[i] == row);
        }
    }
    lemma_filter_none(mid, unpinned_before(row.clip));
    assert(kept_by_cap(mid, cap)(mid[old.len() as int]));
    mid.lemma_filter_contains(kept_by_cap(mid, cap), old.len() as int);
    assert(fin.contains(row));
    let k = choose|k: int| 0 <= k < fin.len() && fin[k] == row;
    assert(is_latest_with_hash(fin, h, k)) by {
        assert forall|j: int|
            0 <= j < fin.len() && has_hash(#[trigger] fin[j], h) && j != k implies (
            fin[j].clip.last_used_at < fin[k].clip.last_used_at || (fin[j].clip.last_used_at
                == fin[k].clip.last_used_at && fin[j].clip.id < fin[k].clip.id)) by {
            mid.lemma_filter_contains_rev(kept_by_cap(mid, cap), fin[j]);
            let m = choose|m: int| 0 <= m < mid.len() && mid[m] == fin[j];
            if m < old.len() {
                assert(mid[m] == old[m]);
                assert(old[m].clip.id <= seq);
            } else {
                assert(fin[j].clip.id == fin[k].clip.id);
                if j < k {
                    assert(fin[j].clip.id < fin[k].clip.id);
                } else {
                    assert(fin[k].clip.id < fin[j].clip.id);
                }
            }
        }
    }
}

} // verus!
