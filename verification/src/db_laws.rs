//! Laws of the history table: what every operation keeps, and how the
//! operations relate to one another.

use vstd::prelude::*;
use crate::db::{
    clips_of, evicted_by_cap, find_clip, gc_all, id_is, id_is_not, is_listing, kept_by_cap,
    kept_by_clear, lemma_filter_wf, ranks_before, selects, table_wf, unpinned_before,
    unpinned_rank, update_row, bumped, HistoryRow, SelectionSpec,
};
use crate::models::Clip;
use crate::text::{ascii_lower, contains_ci, fold_ascii, occurs_ci_at};

verus! {

/// Pinned rows.
pub open spec fn is_pinned_row() -> spec_fn(HistoryRow) -> bool {
    |r: HistoryRow| r.clip.pinned
}

/// Unpinned rows.
pub open spec fn is_unpinned_row() -> spec_fn(HistoryRow) -> bool {
    |r: HistoryRow| !r.clip.pinned
}

proof fn lemma_filter_filter_sub<A>(s: Seq<A>, p: spec_fn(A) -> bool, q: spec_fn(A) -> bool)
    requires
        forall|x: A| #[trigger] p(x) ==> q(x),
    ensures
        s.filter(q).filter(p) == s.filter(p),
    decreases s.len(),
{
    reveal(Seq::filter);
    if s.len() > 0 {
        lemma_filter_filter_sub(s.drop_last(), p, q);
        let t = s.drop_last().filter(q);
        if q(s.last()) {
            assert(t.push(s.last()).drop_last() =~= t);
        }
    }
}

pub(crate) proof fn lemma_filter_filter_and<A>(s: Seq<A>, p: spec_fn(A) -> bool, q: spec_fn(A) -> bool, pq: spec_fn(A) -> bool)
    requires
        forall|x: A| #[trigger] pq(x) == (p(x) && q(x)),
    ensures
        s.filter(q).filter(p) == s.filter(pq),
    decreases s.len(),
{
    reveal(Seq::filter);
    if s.len() > 0 {
        lemma_filter_filter_and(s.drop_last(), p, q, pq);
        let t = s.drop_last().filter(q);
        if q(s.last()) {
            assert(t.push(s.last()).drop_last() =~= t);
        }
    }
}

proof fn lemma_filter_len_mono<A>(s: Seq<A>, p: spec_fn(A) -> bool, q: spec_fn(A) -> bool)
    requires
        forall|x: A| #[trigger] p(x) ==> q(x),
    ensures
        s.filter(p).len() <= s.filter(q).len(),
    decreases s.len(),
{
    reveal(Seq::filter);
    if s.len() > 0 {
        lemma_filter_len_mono(s.drop_last(), p, q);
    }
}

proof fn lemma_filter_len_strict<A>(s: Seq<A>, p: spec_fn(A) -> bool, q: spec_fn(A) -> bool, j: int)
    requires
        forall|x: A| #[trigger] p(x) ==> q(x),
        0 <= j < s.len(),
        q(s[j]),
        !p(s[j]),
    ensures
        s.filter(p).len() < s.filter(q).len(),
    decreases s.len(),
{
    reveal(Seq::filter);
    if j == s.len() - 1 {
        lemma_filter_len_mono(s.drop_last(), p, q);
    } else {
        assert(s.drop_last()[j] == s[j]);
        lemma_filter_len_strict(s.drop_last(), p, q, j);
    }
}

proof fn lemma_filter_empty<A>(s: Seq<A>, p: spec_fn(A) -> bool)
    requires
        forall|x: A| !#[trigger] p(x),
    ensures
        s.filter(p).len() == 0,
    decreases s.len(),
{
    reveal(Seq::filter);
    if s.len() > 0 {
        lemma_filter_empty(s.drop_last(), p);
    }
}

pub(crate) proof fn lemma_filter_same<A>(s: Seq<A>, p: spec_fn(A) -> bool, q: spec_fn(A) -> bool)
    requires
        forall|x: A| #[trigger] p(x) == q(x),
    ensures
        s.filter(p) == s.filter(q),
    decreases s.len(),
{
    reveal(Seq::filter);
    if s.len() > 0 {
        lemma_filter_same(s.drop_last(), p, q);
    }
}

/// If `a` comes before `b` (both unpinned rows of the table), fewer unpinned
/// rows come before `a` than before `b`.
proof fn lemma_rank_strict(rows: Seq<HistoryRow>, a: int, b: HistoryRow)
    requires
        0 <= a < rows.len(),
        !rows[a].clip.pinned,
        ranks_before(rows[a].clip, b.clip),
    ensures
        unpinned_rank(rows, rows[a].clip) < unpinned_rank(rows, b.clip),
{
    let ca = rows[a].clip;
    assert forall|x: HistoryRow| #[trigger] unpinned_before(ca)(x) implies unpinned_before(b.clip)(
        x,
    ) by {}
    lemma_filter_len_strict(rows, unpinned_before(ca), unpinned_before(b.clip), a);
}

/// `enforce_cap` never evicts a pinned row: the pinned rows after it are
/// exactly the pinned rows before it.
pub proof fn law_cap_keeps_pinned(rows: Seq<HistoryRow>, cap: u32)
    ensures
        rows.filter(kept_by_cap(rows, cap)).filter(is_pinned_row()) == rows.filter(is_pinned_row()),
{
    lemma_filter_filter_sub(rows, is_pinned_row(), kept_by_cap(rows, cap));
}

/// `enforce_cap` keeps the most recently used: every unpinned row it keeps
/// comes, in display order, before every row it evicts.
pub proof fn law_cap_keeps_most_recent(rows: Seq<HistoryRow>, seq: i64, cap: u32, i: int, j: int)
    requires
        table_wf(rows, seq),
        0 <= i < rows.len(),
        0 <= j < rows.len(),
        !rows[i].clip.pinned,
        kept_by_cap(rows, cap)(rows[i]),
        evicted_by_cap(rows, cap)(rows[j]),
    ensures
        ranks_before(rows[i].clip, rows[j].clip),
{
    if i == j {
    } else if ranks_before(rows[j].clip, rows[i].clip) {
        lemma_rank_strict(rows, j, rows[i]);
    } else {
        if i < j {
            assert(rows[i].clip.id < rows[j].clip.id);
        } else {
            assert(rows[j].clip.id < rows[i].clip.id);
        }
    }
}

/// After `enforce_cap(cap)`, at most `cap` unpinned rows remain.
pub proof fn law_cap_bounds_unpinned(rows: Seq<HistoryRow>, seq: i64, cap: u32)
    requires
        table_wf(rows, seq),
    ensures
        rows.filter(kept_by_cap(rows, cap)).filter(is_unpinned_row()).len() <= cap,
{
    broadcast use vstd::seq_lib::group_seq_properties;

    let both = |r: HistoryRow| !r.clip.pinned && unpinned_rank(rows, r.clip) < cap;
    lemma_filter_filter_and(rows, is_unpinned_row(), kept_by_cap(rows, cap), both);
    let u = rows.filter(both);
    let rank = |r: HistoryRow| unpinned_rank(rows, r.clip) as int;
    let m = u.map_values(rank);
    assert forall|k: int| 0 <= k < u.len() implies #[trigger] rows.contains(u[k]) && both(u[k]) by {
        rows.lemma_filter_contains_rev(both, u[k]);
        assert(u.contains(u[k]));
        rows.lemma_filter_pred(both, k);
    }
    // Distinct rows of `u` have distinct ranks.
    assert forall|a: int, b: int| 0 <= a < b < m.len() implies m[a] != m[b] by {
        let ia = choose|x: int| 0 <= x < rows.len() && rows[x] == u[a];
        let ib = choose|x: int| 0 <= x < rows.len() && rows[x] == u[b];
        assert(rows.contains(u[a]) && rows.contains(u[b]));
        assert(ia != ib) by {
            if ia == ib {
                // The filter keeps rows in order, so equal rows would be the
                // same entry; ids are distinct, hence ranks strictly differ.
                lemma_filter_no_dup_ids(rows, seq, both, a, b);
            }
        }
        if ranks_before(rows[ia].clip, rows[ib].clip) {
            lemma_rank_strict(rows, ia, rows[ib]);
        } else if ranks_before(rows[ib].clip, rows[ia].clip) {
            lemma_rank_strict(rows, ib, rows[ia]);
        } else {
            if ia < ib {
                assert(rows[ia].clip.id < rows[ib].clip.id);
            } else {
                assert(rows[ib].clip.id < rows[ia].clip.id);
            }
        }
    }
    assert(m.no_duplicates());
    m.unique_seq_to_set();
    let range = vstd::set_lib::set_int_range(0, cap as int);
    assert(m.to_set().subset_of(range)) by {
        assert forall|v: int| m.to_set().contains(v) implies range.contains(v) by {
            let k = choose|k: int| 0 <= k < m.len() && m[k] == v;
            assert(both(u[k]));
        }
    }
    vstd::set_lib::lemma_int_range(0, cap as int);
    vstd::set_lib::lemma_len_subset(m.to_set(), range);
}

/// Two entries of a filtered table are different rows (ids are distinct).
proof fn lemma_filter_no_dup_ids(
    rows: Seq<HistoryRow>,
    seq: i64,
    p: spec_fn(HistoryRow) -> bool,
    a: int,
    b: int,
)
    requires
        table_wf(rows, seq),
        0 <= a < b < rows.filter(p).len(),
    ensures
        rows.filter(p)[a].clip.id < rows.filter(p)[b].clip.id,
{
    lemma_filter_keeps_order(rows, seq, p);
}

proof fn lemma_filter_keeps_order(rows: Seq<HistoryRow>, seq: i64, p: spec_fn(HistoryRow) -> bool)
    requires
        table_wf(rows, seq),
    ensures
        forall|a: int, b: int|
            0 <= a < b < rows.filter(p).len() ==> #[trigger] rows.filter(p)[a].clip.id
                < #[trigger] rows.filter(p)[b].clip.id,
{
    lemma_filter_wf(rows, seq, p);
}

/// Listing with every row puts all pinned clips before all unpinned ones.
pub proof fn law_pinned_sort_to_top(all: Seq<Clip>, limit: i64, out: Seq<Clip>, i: int, j: int)
    requires
        is_listing(all, |c: Clip| selects(SelectionSpec::All, c), limit, out),
        0 <= i < j < out.len(),
        out[j].pinned,
    ensures
        out[i].pinned,
{
    assert(ranks_before(out[i], out[j]));
}

/// `clear(true)` keeps exactly the pinned rows; `clear(false)` keeps none.
pub proof fn law_clear(rows: Seq<HistoryRow>)
    ensures
        rows.filter(kept_by_clear(true)) == rows.filter(is_pinned_row()),
        rows.filter(kept_by_clear(false)).len() == 0,
{
    lemma_filter_same(rows, kept_by_clear(true), is_pinned_row());
    lemma_filter_empty(rows, kept_by_clear(false));
}

/// Re-copy moves to the top: once the row with id `id` is bumped to a time
/// later than every other row's last use, it comes before every other row
/// with the same pinned flag.
pub proof fn law_bump_moves_to_top(rows: Seq<HistoryRow>, seq: i64, id: i64, now: i64, k: int, j: int)
    requires
        table_wf(rows, seq),
        forall|m: int| 0 <= m < rows.len() && rows[m].clip.id != id ==> rows[m].clip.last_used_at < now,
        0 <= k < rows.len(),
        0 <= j < rows.len(),
        rows[k].clip.id == id,
        j != k,
        rows[j].clip.pinned == rows[k].clip.pinned,
    ensures
        ranks_before(
            update_row(rows, id, |r: HistoryRow| bumped(r, now))[k].clip,
            update_row(rows, id, |r: HistoryRow| bumped(r, now))[j].clip,
        ),
{
    if j < k {
        assert(rows[j].clip.id < rows[k].clip.id);
    } else {
        assert(rows[k].clip.id < rows[j].clip.id);
    }
}

/// Read after insert: the row an insert adds is found again by its id.
pub proof fn law_get_after_insert(old_rows: Seq<HistoryRow>, new_rows: Seq<HistoryRow>, seq: i64)
    requires
        table_wf(new_rows, seq),
        new_rows.len() == old_rows.len() + 1,
        new_rows.drop_last() == old_rows,
    ensures
        find_clip(new_rows, new_rows.last().clip.id) == Some(new_rows.last().clip),
{
    let n = new_rows.len() - 1;
    let id = new_rows.last().clip.id;
    assert(new_rows[n].clip.id == id);
    let k = choose|i: int| 0 <= i < new_rows.len() && new_rows[i].clip.id == id;
    if k < n {
        assert(new_rows[k].clip.id < new_rows[n].clip.id);
    }
}

/// After `delete(id)` no row with that id is left, and at most one set of
/// paths is handed back.
pub proof fn law_delete(rows: Seq<HistoryRow>, seq: i64, id: i64)
    requires
        table_wf(rows, seq),
    ensures
        find_clip(rows.filter(id_is_not(id)), id) is None,
        gc_all(rows.filter(id_is(id))).len() <= 1,
{
    broadcast use vstd::seq_lib::group_seq_properties;

    let f = rows.filter(id_is_not(id));
    assert forall|i: int| 0 <= i < f.len() implies f[i].clip.id != id by {
        rows.lemma_filter_pred(id_is_not(id), i);
    }
    let g = rows.filter(id_is(id));
    if g.len() > 1 {
        lemma_filter_no_dup_ids(rows, seq, id_is(id), 0, 1);
        rows.lemma_filter_pred(id_is(id), 0);
        rows.lemma_filter_pred(id_is(id), 1);
    }
}

/// A pinned row shows up in the pins listing.
pub proof fn law_pinned_listed(rows: Seq<HistoryRow>, out: Seq<Clip>, j: int)
    requires
        is_listing(clips_of(rows), |c: Clip| selects(SelectionSpec::Pinned, c), -1i64, out),
        0 <= j < rows.len(),
        rows[j].clip.pinned,
    ensures
        exists|i: int| 0 <= i < out.len() && out[i].id == rows[j].clip.id,
{
    let all = clips_of(rows);
    assert(all[j] == rows[j].clip);
}

/// Search looks at text, not at the pin: a text clip whose content contains
/// the query (ASCII letters in any case) is taken by the search, and pinning
/// or unpinning a clip never changes whether the search takes it.
pub proof fn law_search_ignores_pin(c: Clip, q: Seq<char>)
    ensures
        (c.kind@ == "text"@ && c.content is Some && contains_ci(c.content->0@, q)) ==> selects(
            SelectionSpec::TextContaining(q),
            c,
        ),
        selects(SelectionSpec::TextContaining(q), Clip { pinned: !c.pinned, ..c }) == selects(
            SelectionSpec::TextContaining(q),
            c,
        ),
{
}

/// Search finds every matching text row, pinned ones included: when the
/// listing was not cut off by its limit, each text row whose content
/// contains the query (ASCII letters in any case) is in it.
pub proof fn law_search_finds_text(
    rows: Seq<HistoryRow>,
    q: Seq<char>,
    limit: i64,
    out: Seq<Clip>,
    j: int,
)
    requires
        is_listing(clips_of(rows), |c: Clip| selects(SelectionSpec::TextContaining(q), c), limit, out),
        limit < 0 || out.len() < limit,
        0 <= j < rows.len(),
        rows[j].clip.kind@ == "text"@,
        rows[j].clip.content is Some,
        contains_ci(rows[j].clip.content->0@, q),
    ensures
        exists|i: int| 0 <= i < out.len() && out[i].id == rows[j].clip.id,
{
    let all = clips_of(rows);
    assert(all[j] == rows[j].clip);
    law_search_ignores_pin(rows[j].clip, q);
}

proof fn lemma_fold_twice(c: char)
    ensures
        fold_ascii(fold_ascii(c)) == fold_ascii(c),
{
    if 'A' <= c && c <= 'Z' {
        assert('a' <= fold_ascii(c) && fold_ascii(c) <= 'z');
    }
}

proof fn lemma_occurs_lower(t: Seq<char>, q: Seq<char>, i: int)
    ensures
        occurs_ci_at(t, q, i) == occurs_ci_at(ascii_lower(t), ascii_lower(q), i),
        occurs_ci_at(t, q, i) == occurs_ci_at(t, ascii_lower(q), i),
{
    let lt = ascii_lower(t);
    let lq = ascii_lower(q);
    if 0 <= i && i + q.len() <= t.len() {
        assert forall|k: int| 0 <= k < q.len() implies (fold_ascii(#[trigger] t[i + k]) == fold_ascii(
            q[k],
        )) == (fold_ascii(lt[i + k]) == fold_ascii(lq[k])) && (fold_ascii(t[i + k]) == fold_ascii(
            q[k],
        )) == (fold_ascii(t[i + k]) == fold_ascii(lq[k])) by {
            lemma_fold_twice(t[i + k]);
            lemma_fold_twice(q[k]);
        }
        assert(occurs_ci_at(t, q, i) == occurs_ci_at(lt, lq, i));
        assert(occurs_ci_at(t, q, i) == occurs_ci_at(t, lq, i));
    }
}

/// Search ignores the case of ASCII letters, in the text and in the query
/// alike, and finds every exact occurrence; the empty query matches every
/// text (as SQLite's `LIKE '%%'` does).
pub proof fn law_search_case_blind(t: Seq<char>, q: Seq<char>, i: int)
    ensures
        contains_ci(t, q) == contains_ci(ascii_lower(t), ascii_lower(q)),
        contains_ci(t, q) == contains_ci(t, ascii_lower(q)),
        0 <= i && i + q.len() <= t.len() && t.subrange(i, i + q.len()) == q ==> contains_ci(t, q),
        contains_ci(t, Seq::<char>::empty()),
{
    assert forall|j: int| #[trigger] occurs_ci_at(t, q, j) implies occurs_ci_at(
        ascii_lower(t),
        ascii_lower(q),
        j,
    ) && occurs_ci_at(t, ascii_lower(q), j) by {
        lemma_occurs_lower(t, q, j);
    }
    assert forall|j: int| #[trigger] occurs_ci_at(ascii_lower(t), ascii_lower(q), j) implies occurs_ci_at(
        t,
        q,
        j,
    ) by {
        lemma_occurs_lower(t, q, j);
    }
    assert forall|j: int| #[trigger] occurs_ci_at(t, ascii_lower(q), j) implies occurs_ci_at(
        t,
        q,
        j,
    ) by {
        lemma_occurs_lower(t, q, j);
    }
    if 0 <= i && i + q.len() <= t.len() && t.subrange(i, i + q.len()) == q {
        assert forall|k: int| 0 <= k < q.len() implies fold_ascii(#[trigger] t[i + k]) == fold_ascii(
            q[k],
        ) by {
            assert(t.subrange(i, i + q.len())[k] == t[i + k]);
        }
        assert(occurs_ci_at(t, q, i));
    }
    assert(occurs_ci_at(t, Seq::<char>::empty(), 0));
}

} // verus!
