//! Clipboard history + pinned items, as one table with a `pinned` flag: a
//! pinned item is just a history row that survives the cap and sorts to the
//! top. Ordering is by recency of last use (`last_used_at`), which is bumped
//! when the same content is copied again ("move to top on re-copy").
//!
//! The table is held as a vector of rows in id order; ids are handed out by an
//! autoincrement counter and never reused. Every query of the table is a
//! function here with its result stated over the rows.

use vstd::prelude::*;
use crate::models::Clip;
use crate::text::{chars_of, contains_ci, contains_ci_exec, copy_opt_string, str_eq};

verus! {

/// Image paths (full, thumb) of a deleted row, for filesystem GC.
pub type GcPaths = (Option<String>, Option<String>);

/// A row about to be inserted.
pub struct NewClip<'a> {
    pub kind: &'a str,
    pub content: Option<&'a str>,
    /// Rich-text `text/html` for text clips; `None` otherwise.
    pub html: Option<&'a str>,
    pub image_path: Option<&'a str>,
    pub thumb_path: Option<&'a str>,
    pub width: Option<i64>,
    pub height: Option<i64>,
    pub byte_size: Option<i64>,
    pub hash: &'a str,
}

/// One stored row: the clip and its content hash (the dedup key).
#[derive(Debug)]
pub struct HistoryRow {
    pub clip: Clip,
    pub hash: String,
}

impl HistoryRow {
    /// A field-for-field copy.
    pub fn copy(&self) -> (r: HistoryRow)
        ensures
            r == *self,
    {
        HistoryRow { clip: self.clip.copy(), hash: self.hash.clone() }
    }
}

/// Why an insert was refused.
#[derive(Debug, PartialEq, Eq, Structural)]
pub enum StoreError {
    /// `kind` is neither "text" nor "image".
    InvalidKind,
    /// The id counter has reached `i64::MAX`; no further id can be handed out.
    Full,
}

/// The history table.
pub struct HistoryStore {
    rows: Vec<HistoryRow>,
    /// The largest id ever handed out (0 before the first insert).
    seq: i64,
}

/// The kinds a row may have.
pub open spec fn valid_kind(k: Seq<char>) -> bool {
    k == "text"@ || k == "image"@
}

/// Rows in strictly increasing id order, ids in `1..=seq`, kinds valid.
pub open spec fn table_wf(rows: Seq<HistoryRow>, seq: i64) -> bool {
    &&& seq >= 0
    &&& forall|i: int, j: int|
        0 <= i < j < rows.len() ==> #[trigger] rows[i].clip.id < #[trigger] rows[j].clip.id
    &&& forall|i: int| 0 <= i < rows.len() ==> 1 <= #[trigger] rows[i].clip.id <= seq
    &&& forall|i: int| 0 <= i < rows.len() ==> valid_kind(#[trigger] rows[i].clip.kind@)
}

/// The clips of a sequence of rows.
pub open spec fn clips_of(rows: Seq<HistoryRow>) -> Seq<Clip> {
    rows.map_values(|r: HistoryRow| r.clip)
}

/// The paths a row frees when it is deleted.
pub open spec fn gc_of(r: HistoryRow) -> GcPaths {
    (r.clip.image_path, r.clip.thumb_path)
}

/// The paths freed by deleting a sequence of rows, in order.
pub open spec fn gc_all(rows: Seq<HistoryRow>) -> Seq<GcPaths> {
    rows.map_values(|r: HistoryRow| gc_of(r))
}

/// The display order `pinned DESC, last_used_at DESC, id DESC`: whether `a`
/// comes strictly before `b`.
pub open spec fn ranks_before(a: Clip, b: Clip) -> bool {
    (a.pinned && !b.pinned) || (a.pinned == b.pinned && (a.last_used_at > b.last_used_at || (
    a.last_used_at == b.last_used_at && a.id > b.id)))
}

/// Which rows a listing takes.
pub enum Selection {
    /// Every row.
    All,
    /// Pinned rows only.
    Pinned,
    /// Text rows whose content contains the characters, ASCII letters matched
    /// without regard to case (SQLite `LIKE '%q%'` with `q` escaped).
    TextContaining(Vec<char>),
}

/// The mathematical form of a selection.
pub enum SelectionSpec {
    All,
    Pinned,
    TextContaining(Seq<char>),
}

impl View for Selection {
    type V = SelectionSpec;

    open spec fn view(&self) -> SelectionSpec {
        match self {
            Selection::All => SelectionSpec::All,
            Selection::Pinned => SelectionSpec::Pinned,
            Selection::TextContaining(q) => SelectionSpec::TextContaining(q@),
        }
    }
}

/// Whether a clip is taken by a selection.
pub open spec fn selects(sel: SelectionSpec, c: Clip) -> bool {
    match sel {
        SelectionSpec::All => true,
        SelectionSpec::Pinned => c.pinned,
        SelectionSpec::TextContaining(q) => c.kind@ == "text"@ && (c.content matches Some(t)
            && contains_ci(t@, q)),
    }
}

/// `out` is the listing of the clips in `all` taken by `keep`, in display
/// order, cut off after `limit` clips (no cut-off when `limit` is negative,
/// as SQLite's `LIMIT` does).
pub open spec fn is_listing(all: Seq<Clip>, keep: spec_fn(Clip) -> bool, limit: i64, out: Seq<
    Clip,
>) -> bool {
    &&& (limit >= 0 ==> out.len() <= limit)
    &&& forall|i: int| 0 <= i < out.len() ==> keep(#[trigger] out[i]) && all.contains(out[i])
    &&& forall|i: int, j: int|
        0 <= i < j < out.len() ==> ranks_before(#[trigger] out[i], #[trigger] out[j])
    &&& forall|j: int|
        0 <= j < all.len() && keep(#[trigger] all[j]) && (forall|i: int|
            0 <= i < out.len() ==> out[i].id != all[j].id) ==> limit >= 0 && out.len() == limit
            && forall|i: int| 0 <= i < out.len() ==> ranks_before(out[i], all[j])
}

/// The clip with id `id`, if any.
pub open spec fn find_clip(rows: Seq<HistoryRow>, id: i64) -> Option<Clip> {
    if exists|i: int| 0 <= i < rows.len() && rows[i].clip.id == id {
        Some(rows[choose|i: int| 0 <= i < rows.len() && rows[i].clip.id == id].clip)
    } else {
        None
    }
}

/// The view of an optional string.
pub open spec fn opt_view(o: Option<String>) -> Option<Seq<char>> {
    match o {
        Some(s) => Some(s@),
        None => None,
    }
}

/// The view of an optional string slice.
pub open spec fn opt_str_view(o: Option<&str>) -> Option<Seq<char>> {
    match o {
        Some(s) => Some(s@),
        None => None,
    }
}

/// Whether a stored row holds exactly what was inserted.
pub open spec fn row_matches_new(r: HistoryRow, c: NewClip, id: i64, now: i64) -> bool {
    &&& r.clip.id == id
    &&& r.clip.kind@ == c.kind@
    &&& opt_view(r.clip.content) == opt_str_view(c.content)
    &&& opt_view(r.clip.html) == opt_str_view(c.html)
    &&& opt_view(r.clip.image_path) == opt_str_view(c.image_path)
    &&& opt_view(r.clip.thumb_path) == opt_str_view(c.thumb_path)
    &&& r.clip.width == c.width
    &&& r.clip.height == c.height
    &&& r.clip.byte_size == c.byte_size
    &&& !r.clip.pinned
    &&& r.clip.created_at == now
    &&& r.clip.last_used_at == now
    &&& r.hash@ == c.hash@
}

/// The rows after the row with id `id` is changed by `f`.
pub open spec fn update_row(
    rows: Seq<HistoryRow>,
    id: i64,
    f: spec_fn(HistoryRow) -> HistoryRow,
) -> Seq<HistoryRow> {
    rows.map_values(|r: HistoryRow| if r.clip.id == id { f(r) } else { r })
}

/// A row with its last use set to `now`.
pub open spec fn bumped(r: HistoryRow, now: i64) -> HistoryRow {
    HistoryRow { clip: Clip { last_used_at: now, ..r.clip }, ..r }
}

/// A row with its last use set to `now` and its html replaced.
pub open spec fn bumped_html(r: HistoryRow, now: i64, html: Option<String>) -> HistoryRow {
    HistoryRow { clip: Clip { last_used_at: now, html, ..r.clip }, ..r }
}

/// Whether `new` is `old` last used at `now`, with html `h`.
pub open spec fn bumped_html_from(old: HistoryRow, new: HistoryRow, now: i64, h: Seq<char>) -> bool {
    &&& new.clip == Clip { last_used_at: now, html: new.clip.html, ..old.clip }
    &&& new.hash == old.hash
    &&& opt_view(new.clip.html) == Some(h)
}

/// A row with its pinned flag set.
pub open spec fn with_pinned(r: HistoryRow, pinned: bool) -> HistoryRow {
    HistoryRow { clip: Clip { pinned, ..r.clip }, ..r }
}

/// Unpinned rows that come before `c` in display order.
pub open spec fn unpinned_before(c: Clip) -> spec_fn(HistoryRow) -> bool {
    |x: HistoryRow| !x.clip.pinned && ranks_before(x.clip, c)
}

/// The number of unpinned rows that come before `c` in display order.
pub open spec fn unpinned_rank(rows: Seq<HistoryRow>, c: Clip) -> nat {
    rows.filter(unpinned_before(c)).len()
}

/// The rows `enforce_cap(cap)` keeps: pinned ones, and the `cap` unpinned
/// ones that come first in display order.
pub open spec fn kept_by_cap(rows: Seq<HistoryRow>, cap: u32) -> spec_fn(HistoryRow) -> bool {
    |r: HistoryRow| r.clip.pinned || unpinned_rank(rows, r.clip) < cap
}

/// The rows `enforce_cap(cap)` evicts.
pub open spec fn evicted_by_cap(rows: Seq<HistoryRow>, cap: u32) -> spec_fn(HistoryRow) -> bool {
    |r: HistoryRow| !(r.clip.pinned || unpinned_rank(rows, r.clip) < cap)
}

/// Rows other than the one with id `id`.
pub open spec fn id_is_not(id: i64) -> spec_fn(HistoryRow) -> bool {
    |r: HistoryRow| r.clip.id != id
}

/// The row with id `id`.
pub open spec fn id_is(id: i64) -> spec_fn(HistoryRow) -> bool {
    |r: HistoryRow| r.clip.id == id
}

/// The rows `clear(keep_pinned)` keeps.
pub open spec fn kept_by_clear(keep_pinned: bool) -> spec_fn(HistoryRow) -> bool {
    |r: HistoryRow| keep_pinned && r.clip.pinned
}

/// The rows `clear(keep_pinned)` deletes.
pub open spec fn cleared_by_clear(keep_pinned: bool) -> spec_fn(HistoryRow) -> bool {
    |r: HistoryRow| !(keep_pinned && r.clip.pinned)
}

/// The (id, image path) of the image rows (in order) that have a path whose
/// file is gone: `present[i]` says whether row `i`'s image file exists.
pub open spec fn vanished_image_rows(rows: Seq<HistoryRow>, present: Seq<bool>) -> Seq<
    (i64, Option<String>),
>
    decreases rows.len(),
{
    if rows.len() == 0 {
        Seq::empty()
    } else {
        let prev = vanished_image_rows(rows.drop_last(), present.take(rows.len() - 1));
        let r = rows.last();
        if r.clip.kind@ == "image"@ && r.clip.image_path is Some && !present[rows.len() - 1] {
            prev.push((r.clip.id, r.clip.image_path))
        } else {
            prev
        }
    }
}

/// Whether `p` is the full or thumbnail path of some row.
pub open spec fn is_referenced(rows: Seq<HistoryRow>, p: Seq<char>) -> bool {
    exists|i: int|
        0 <= i < rows.len() && (opt_view(#[trigger] rows[i].clip.image_path) == Some(p) || opt_view(
            rows[i].clip.thumb_path,
        ) == Some(p))
}

/// Whether a row carries the content hash `h`.
pub open spec fn has_hash(r: HistoryRow, h: Seq<char>) -> bool {
    r.hash@ == h
}

/// Row `i` is the most recently used row with hash `h` (ties on
/// `last_used_at` going to the larger id).
pub open spec fn is_latest_with_hash(rows: Seq<HistoryRow>, h: Seq<char>, i: int) -> bool {
    &&& 0 <= i < rows.len()
    &&& has_hash(rows[i], h)
    &&& forall|j: int|
        0 <= j < rows.len() && has_hash(#[trigger] rows[j], h) && j != i ==> (
        rows[j].clip.last_used_at < rows[i].clip.last_used_at || (rows[j].clip.last_used_at
            == rows[i].clip.last_used_at && rows[j].clip.id < rows[i].clip.id))
}

/// The id of the most recently used row with hash `h`, if any.
pub open spec fn latest_with_hash(rows: Seq<HistoryRow>, h: Seq<char>) -> Option<i64> {
    if exists|i: int| is_latest_with_hash(rows, h, i) {
        Some(rows[choose|i: int| is_latest_with_hash(rows, h, i)].clip.id)
    } else {
        None
    }
}

proof fn lemma_latest_unique(rows: Seq<HistoryRow>, seq: i64, h: Seq<char>, b: int)
    requires
        table_wf(rows, seq),
        is_latest_with_hash(rows, h, b),
    ensures
        latest_with_hash(rows, h) == Some(rows[b].clip.id),
{
    let k = choose|i: int| is_latest_with_hash(rows, h, i);
    assert(is_latest_with_hash(rows, h, k));
    if k != b {
        assert(has_hash(rows[k], h));
        assert(has_hash(rows[b], h));
    }
}

/// The number of `false` entries.
pub open spec fn count_false(s: Seq<bool>) -> nat
    decreases s.len(),
{
    if s.len() == 0 {
        0
    } else {
        count_false(s.drop_last()) + if !s.last() {
            1nat
        } else {
            0nat
        }
    }
}

proof fn lemma_count_false_set(s: Seq<bool>, b: int)
    requires
        0 <= b < s.len(),
        !s[b],
    ensures
        count_false(s.update(b, true)) + 1 == count_false(s),
    decreases s.len(),
{
    if b == s.len() - 1 {
        assert(s.update(b, true).drop_last() =~= s.drop_last());
    } else {
        assert(s.update(b, true).drop_last() =~= s.drop_last().update(b, true));
        lemma_count_false_set(s.drop_last(), b);
    }
}

proof fn lemma_count_false_pos(s: Seq<bool>, b: int)
    requires
        0 <= b < s.len(),
        !s[b],
    ensures
        count_false(s) > 0,
{
    lemma_count_false_set(s, b);
}

proof fn lemma_update_wf(rows: Seq<HistoryRow>, seq: i64, i: int, r: HistoryRow)
    requires
        table_wf(rows, seq),
        0 <= i < rows.len(),
        r.clip.id == rows[i].clip.id,
        r.clip.kind == rows[i].clip.kind,
    ensures
        table_wf(rows.update(i, r), seq),
{
    let u = rows.update(i, r);
    assert forall|a: int, b: int| 0 <= a < b < u.len() implies #[trigger] u[a].clip.id
        < #[trigger] u[b].clip.id by {
        assert(rows[a].clip.id < rows[b].clip.id);
    }
    assert forall|a: int| 0 <= a < u.len() implies 1 <= #[trigger] u[a].clip.id <= seq by {
        assert(1 <= rows[a].clip.id <= seq);
    }
    assert forall|a: int| 0 <= a < u.len() implies valid_kind(#[trigger] u[a].clip.kind@) by {
        assert(valid_kind(rows[a].clip.kind@));
    }
}

proof fn lemma_filter_step<A>(s: Seq<A>, p: spec_fn(A) -> bool, i: int)
    requires
        0 <= i < s.len(),
    ensures
        s.take(i + 1).filter(p) == (if p(s[i]) {
            s.take(i).filter(p).push(s[i])
        } else {
            s.take(i).filter(p)
        }),
{
    reveal(Seq::filter);
    assert(s.take(i + 1).drop_last() =~= s.take(i));
}

/// Filtering a well-formed table leaves a well-formed table of its rows.
pub proof fn lemma_filter_wf(rows: Seq<HistoryRow>, seq: i64, p: spec_fn(HistoryRow) -> bool)
    requires
        table_wf(rows, seq),
    ensures
        table_wf(rows.filter(p), seq),
        forall|k: int|
            0 <= k < rows.filter(p).len() ==> #[trigger] rows.contains(rows.filter(p)[k]),
    decreases rows.len(),
{
    reveal(Seq::filter);
    broadcast use vstd::seq_lib::group_seq_properties;

    if rows.len() > 0 {
        let init = rows.drop_last();
        assert forall|k: int| 0 <= k < init.len() implies #[trigger] init[k] == rows[k] by {}
        assert(table_wf(init, seq)) by {
            assert forall|a: int, b: int| 0 <= a < b < init.len() implies #[trigger] init[a].clip.id
                < #[trigger] init[b].clip.id by {
                assert(rows[a].clip.id < rows[b].clip.id);
            }
            assert forall|a: int| 0 <= a < init.len() implies 1 <= #[trigger] init[a].clip.id <= seq by {
                assert(1 <= rows[a].clip.id <= seq);
            }
            assert forall|a: int| 0 <= a < init.len() implies valid_kind(#[trigger] init[a].clip.kind@) by {
                assert(valid_kind(rows[a].clip.kind@));
            }
        }
        lemma_filter_wf(init, seq, p);
        let f = init.filter(p);
        assert forall|k: int| 0 <= k < f.len() implies #[trigger] f[k].clip.id < rows.last().clip.id by {
            assert(init.contains(f[k]));
            let m = choose|m: int| 0 <= m < init.len() && init[m] == f[k];
            assert(rows[m] == init[m]);
        }
        assert forall|k: int| 0 <= k < f.len() implies #[trigger] rows.contains(f[k]) by {
            assert(init.contains(f[k]));
            let m = choose|m: int| 0 <= m < init.len() && init[m] == f[k];
            assert(rows[m] == f[k]);
        }
        assert forall|k: int| 0 <= k < f.len() implies 1 <= #[trigger] f[k].clip.id <= seq
            && valid_kind(f[k].clip.kind@) by {
            assert(init.contains(f[k]));
            let m = choose|m: int| 0 <= m < init.len() && init[m] == f[k];
            assert(1 <= init[m].clip.id <= seq && valid_kind(init[m].clip.kind@));
        }
        if p(rows.last()) {
            let g = f.push(rows.last());
            assert(rows.filter(p) == g);
            assert(rows.contains(rows.last())) by {
                assert(rows[rows.len() - 1] == rows.last());
            }
            assert(1 <= rows[rows.len() - 1].clip.id <= seq);
            assert(valid_kind(rows[rows.len() - 1].clip.kind@));
            assert(table_wf(g, seq)) by {
                assert forall|a: int, b: int| 0 <= a < b < g.len() implies #[trigger] g[a].clip.id
                    < #[trigger] g[b].clip.id by {
                    assert(g[a] == f[a]);
                    if b == g.len() - 1 {
                        assert(f[a].clip.id < rows.last().clip.id);
                    } else {
                        assert(g[b] == f[b]);
                    }
                }
                assert forall|a: int| 0 <= a < g.len() implies 1 <= #[trigger] g[a].clip.id <= seq by {
                    if a < f.len() {
                        assert(g[a] == f[a]);
                    }
                }
                assert forall|a: int| 0 <= a < g.len() implies valid_kind(#[trigger] g[a].clip.kind@) by {
                    if a < f.len() {
                        assert(g[a] == f[a]);
                        assert(1 <= f[a].clip.id <= seq);
                    } else {
                        assert(g[a] == rows[rows.len() - 1]);
                    }
                }
            }
        } else {
            assert(rows.filter(p) == f);
        }
    }
}

/// Split rows into those `p` keeps and the paths freed by those `q` (its
/// complement) drops.
fn partition(
    rows: &Vec<HistoryRow>,
    keep: &Vec<bool>,
    Ghost(p): Ghost<spec_fn(HistoryRow) -> bool>,
    Ghost(q): Ghost<spec_fn(HistoryRow) -> bool>,
) -> (res: (Vec<HistoryRow>, Vec<GcPaths>))
    requires
        keep@.len() == rows@.len(),
        forall|i: int| 0 <= i < rows@.len() ==> keep@[i] == p(#[trigger] rows@[i]),
        forall|r: HistoryRow| #[trigger] q(r) == !p(r),
    ensures
        res.0@ == rows@.filter(p),
        res.1@ == gc_all(rows@.filter(q)),
{
    let n = rows.len();
    let mut kept: Vec<HistoryRow> = Vec::new();
    let mut gone: Vec<GcPaths> = Vec::new();
    let mut i: usize = 0;
    assert(rows@.take(0) =~= Seq::<HistoryRow>::empty());
    proof {
        reveal(Seq::filter);
    }
    while i < n
        invariant
            n == rows@.len(),
            keep@.len() == n,
            i <= n,
            forall|k: int| 0 <= k < n ==> keep@[k] == p(#[trigger] rows@[k]),
            forall|r: HistoryRow| #[trigger] q(r) == !p(r),
            kept@ == rows@.take(i as int).filter(p),
            gone@ == gc_all(rows@.take(i as int).filter(q)),
        decreases n - i,
    {
        proof {
            lemma_filter_step(rows@, p, i as int);
            lemma_filter_step(rows@, q, i as int);
        }
        let ghost before = rows@.take(i as int).filter(q);
        if keep[i] {
            kept.push(rows[i].copy());
        } else {
            let r = &rows[i];
            gone.push(
                (copy_opt_string(&r.clip.image_path), copy_opt_string(&r.clip.thumb_path)),
            );
            assert(gc_all(before.push(rows@[i as int])) =~= gc_all(before).push(
                gc_of(rows@[i as int]),
            ));
        }
        i = i + 1;
    }
    assert(rows@.take(n as int) =~= rows@);
    (kept, gone)
}

/// Whether `a` comes strictly before `b` in display order.
pub fn ranks_before_exec(a: &Clip, b: &Clip) -> (r: bool)
    ensures
        r == ranks_before(*a, *b),
{
    (a.pinned && !b.pinned) || (a.pinned == b.pinned && (a.last_used_at > b.last_used_at || (
    a.last_used_at == b.last_used_at && a.id > b.id)))
}

/// Whether a clip is taken by a selection.
pub fn selects_exec(sel: &Selection, c: &Clip) -> (r: bool)
    ensures
        r == selects(sel@, *c),
{
    match sel {
        Selection::All => true,
        Selection::Pinned => c.pinned,
        Selection::TextContaining(q) => {
            if !str_eq(c.kind.as_str(), "text") {
                return false;
            }
            match &c.content {
                Some(t) => {
                    let tc = chars_of(t.as_str());
                    contains_ci_exec(tc.as_slice(), q.as_slice())
                },
                None => false,
            }
        },
    }
}

fn opt_string_of(o: Option<&str>) -> (r: Option<String>)
    ensures
        opt_view(r) == opt_str_view(o),
{
    match o {
        Some(s) => Some(s.to_owned()),
        None => None,
    }
}

impl View for HistoryStore {
    type V = Seq<HistoryRow>;

    closed spec fn view(&self) -> Seq<HistoryRow> {
        self.rows@
    }
}

impl HistoryStore {
    #[verifier::type_invariant]
    closed spec fn inv(self) -> bool {
        table_wf(self.rows@, self.seq)
    }

    /// Move the rows out, leaving the (well-formed) empty table behind.
    fn take_rows(&mut self) -> (r: Vec<HistoryRow>)
        ensures
            r@ == old(self)@,
            final(self)@.len() == 0,
            final(self).last_id() == old(self).last_id(),
    {
        proof {
            use_type_invariant(&*self);
        }
        let mut r: Vec<HistoryRow> = Vec::new();
        std::mem::swap(&mut r, &mut self.rows);
        r
    }

    /// The largest id handed out so far.
    pub closed spec fn last_id(&self) -> i64 {
        self.seq
    }

    /// Well-formedness of the table, which every store keeps.
    pub fn lemma_wf(&self)
        ensures
            table_wf(self@, self.last_id()),
    {
        proof {
            use_type_invariant(self);
        }
    }

    /// An empty table.
    pub fn new() -> (s: HistoryStore)
        ensures
            s@.len() == 0,
            s.last_id() == 0,
            table_wf(s@, s.last_id()),
    {
        HistoryStore { rows: Vec::new(), seq: 0 }
    }

    /// The table made of rows read back in id order, with `seq` the largest id
    /// ever handed out; `None` when they do not form a well-formed table.
    pub fn from_rows(rows: Vec<HistoryRow>, seq: i64) -> (r: Option<HistoryStore>)
        ensures
            r is Some <==> table_wf(rows@, seq),
            r matches Some(s) ==> s@ == rows@ && s.last_id() == seq,
    {
        if seq < 0 {
            return None;
        }
        let n = rows.len();
        let mut i: usize = 0;
        while i < n
            invariant
                n == rows@.len(),
                i <= n,
                seq >= 0,
                forall|a: int, b: int|
                    0 <= a < b < i ==> #[trigger] rows@[a].clip.id < #[trigger] rows@[b].clip.id,
                forall|a: int| 0 <= a < i ==> 1 <= #[trigger] rows@[a].clip.id <= seq,
                forall|a: int| 0 <= a < i ==> valid_kind(#[trigger] rows@[a].clip.kind@),
            decreases n - i,
        {
            let c = &rows[i].clip;
            if seq < 0 || c.id < 1 || c.id > seq {
                return None;
            }
            if i > 0 && rows[i - 1].clip.id >= c.id {
                return None;
            }
            if !(str_eq(c.kind.as_str(), "text") || str_eq(c.kind.as_str(), "image")) {
                return None;
            }
            i = i + 1;
        }
        Some(HistoryStore { rows, seq })
    }

    /// The largest id ever handed out (0 before the first insert).
    pub fn last_issued_id(&self) -> (r: i64)
        ensures
            r == self.last_id(),
    {
        self.seq
    }

    /// The stored rows, in id order.
    pub fn rows(&self) -> (r: &Vec<HistoryRow>)
        ensures
            r@ == self@,
    {
        &self.rows
    }

    fn index_of(&self, id: i64) -> (r: Option<usize>)
        ensures
            match r {
                Some(i) => i < self@.len() && self@[i as int].clip.id == id,
                None => forall|i: int| 0 <= i < self@.len() ==> self@[i].clip.id != id,
            },
    {
        let mut i: usize = 0;
        while i < self.rows.len()
            invariant
                i <= self.rows@.len(),
                forall|k: int| 0 <= k < i ==> self.rows@[k].clip.id != id,
            decreases self.rows@.len() - i,
        {
            if self.rows[i].clip.id == id {
                return Some(i);
            }
            i = i + 1;
        }
        None
    }

    /// Add a row with the given fields, unpinned, created and last used at
    /// `now`; returns its id. Refused when `kind` is not "text" or "image",
    /// or when no further id can be handed out.
    pub fn insert(&mut self, c: &NewClip, now: i64) -> (r: Result<i64, StoreError>)
        ensures
            table_wf(final(self)@, final(self).last_id()),
            !valid_kind(c.kind@) ==> r == Err::<i64, StoreError>(StoreError::InvalidKind),
            valid_kind(c.kind@) && old(self).last_id() == i64::MAX ==> r == Err::<i64, StoreError>(
                StoreError::Full,
            ),
            r is Err ==> final(self)@ == old(self)@ && final(self).last_id() == old(self).last_id(),
            valid_kind(c.kind@) && old(self).last_id() < i64::MAX ==> {
                &&& r == Ok::<i64, StoreError>((old(self).last_id() + 1) as i64)
                &&& final(self).last_id() == old(self).last_id() + 1
                &&& final(self)@.len() == old(self)@.len() + 1
                &&& final(self)@.drop_last() == old(self)@
                &&& row_matches_new(final(self)@.last(), *c, (old(self).last_id() + 1) as i64, now)
            },
    {
        proof {
            use_type_invariant(&*self);
        }
        if !(str_eq(c.kind, "text") || str_eq(c.kind, "image")) {
            return Err(StoreError::InvalidKind);
        }
        if self.seq == i64::MAX {
            return Err(StoreError::Full);
        }
        let id = self.seq + 1;
        let row = HistoryRow {
            clip: Clip {
                id,
                kind: c.kind.to_owned(),
                content: opt_string_of(c.content),
                html: opt_string_of(c.html),
                image_path: opt_string_of(c.image_path),
                thumb_path: opt_string_of(c.thumb_path),
                width: c.width,
                height: c.height,
                byte_size: c.byte_size,
                pinned: false,
                created_at: now,
                last_used_at: now,
            },
            hash: c.hash.to_owned(),
        };
        let ghost old_rows = self.rows@;
        let ghost old_seq = self.seq;
        let mut rows = self.take_rows();
        rows.push(row);
        assert(rows@.drop_last() =~= old_rows);
        proof {
            assert forall|k: int| 0 <= k < old_rows.len() implies #[trigger] rows@[k] == old_rows[k] by {
                assert(rows@.drop_last()[k] == rows@[k]);
            }
            assert(rows@[rows@.len() - 1].clip.id == id);
            assert(table_wf(rows@, id)) by {
                assert forall|a: int, b: int|
                    0 <= a < b < rows@.len() implies #[trigger] rows@[a].clip.id
                    < #[trigger] rows@[b].clip.id by {
                    if b == rows@.len() - 1 {
                        assert(old_rows[a].clip.id <= old_seq);
                    } else {
                        assert(old_rows[a].clip.id < old_rows[b].clip.id);
                    }
                }
                assert forall|a: int| 0 <= a < rows@.len() implies 1 <= #[trigger] rows@[a].clip.id
                    <= id by {
                    if a < old_rows.len() {
                        assert(1 <= old_rows[a].clip.id <= old_seq);
                    }
                }
                assert forall|a: int| 0 <= a < rows@.len() implies valid_kind(
                    #[trigger] rows@[a].clip.kind@,
                ) by {
                    if a < old_rows.len() {
                        assert(valid_kind(old_rows[a].clip.kind@));
                    }
                }
            }
        }
        self.seq = id;
        self.rows = rows;
        Ok(id)
    }

    /// The id of the most recently used row with content hash `hash` (ties
    /// on `last_used_at` go to the larger id), if any.
    pub fn find_by_hash(&self, hash: &str) -> (r: Option<i64>)
        ensures
            r == latest_with_hash(self@, hash@),
    {
        proof {
            use_type_invariant(self);
        }
        let n = self.rows.len();
        let mut best: Option<usize> = None;
        let mut i: usize = 0;
        while i < n
            invariant
                n == self.rows@.len(),
                table_wf(self.rows@, self.seq),
                i <= n,
                match best {
                    Some(b) => b < i && has_hash(self.rows@[b as int], hash@) && forall|j: int|
                        0 <= j < i && has_hash(self.rows@[j], hash@) && j != b ==> (
                        self.rows@[j].clip.last_used_at < self.rows@[b as int].clip.last_used_at
                            || (self.rows@[j].clip.last_used_at
                            == self.rows@[b as int].clip.last_used_at && self.rows@[j].clip.id
                            < self.rows@[b as int].clip.id)),
                    None => forall|j: int| 0 <= j < i ==> !has_hash(self.rows@[j], hash@),
                },
            decreases n - i,
        {
            if str_eq(self.rows[i].hash.as_str(), hash) {
                match best {
                    None => {
                        best = Some(i);
                    },
                    Some(b) => {
                        if self.rows[i].clip.last_used_at >= self.rows[b].clip.last_used_at {
                            best = Some(i);
                        }
                    },
                }
            }
            i = i + 1;
        }
        match best {
            Some(b) => {
                proof {
                    lemma_latest_unique(self.rows@, self.seq, hash@, b as int);
                }
                Some(self.rows[b].clip.id)
            },
            None => None,
        }
    }

    /// Set the last use of the row with id `id` to `now` ("move to top").
    pub fn bump_used(&mut self, id: i64, now: i64)
        ensures
            table_wf(final(self)@, final(self).last_id()),
            final(self).last_id() == old(self).last_id(),
            final(self)@ == update_row(old(self)@, id, |r: HistoryRow| bumped(r, now)),
    {
        proof {
            use_type_invariant(&*self);
        }
        let ghost old_rows = self.rows@;
        match self.index_of(id) {
            Some(i) => {
                let mut row = self.rows[i].copy();
                row.clip.last_used_at = now;
                proof {
                    lemma_update_wf(old_rows, self.seq, i as int, row);
                }
                let mut rows = self.take_rows();
                rows.set(i, row);
                self.rows = rows;
                proof {
                    assert forall|k: int| 0 <= k < old_rows.len() && k != i implies old_rows[k].clip.id
                        != id by {
                        if k < i {
                            assert(old_rows[k].clip.id < old_rows[i as int].clip.id);
                        } else {
                            assert(old_rows[i as int].clip.id < old_rows[k].clip.id);
                        }
                    }
                }
                assert(self.rows@ =~= update_row(old_rows, id, |r: HistoryRow| bumped(r, now)));
            },
            None => {
                assert(self.rows@ =~= update_row(old_rows, id, |r: HistoryRow| bumped(r, now)));
            },
        }
    }

    /// Bump on re-copy, refreshing stored HTML when the re-copied content
    /// carries formatting. Upgrade-only: `html == None` keeps what was stored.
    pub fn bump_used_with_html(&mut self, id: i64, html: Option<&str>, now: i64)
        ensures
            table_wf(final(self)@, final(self).last_id()),
            final(self).last_id() == old(self).last_id(),
            html is None ==> final(self)@ == update_row(
                old(self)@,
                id,
                |r: HistoryRow| bumped(r, now),
            ),
            html matches Some(h) ==> {
                &&& final(self)@.len() == old(self)@.len()
                &&& forall|i: int|
                    0 <= i < old(self)@.len() ==> if old(self)@[i].clip.id == id {
                        bumped_html_from(old(self)@[i], #[trigger] final(self)@[i], now, h@)
                    } else {
                        final(self)@[i] == old(self)@[i]
                    }
            },
    {
        proof {
            use_type_invariant(&*self);
        }
        match html {
            None => self.bump_used(id, now),
            Some(h) => {
                let ghost old_rows = self.rows@;
                let hs = h.to_owned();
                let ghost hs_g = hs;
                match self.index_of(id) {
                    Some(i) => {
                        let mut row = self.rows[i].copy();
                        row.clip.last_used_at = now;
                        row.clip.html = Some(hs);
                        proof {
                            lemma_update_wf(old_rows, self.seq, i as int, row);
                        }
                        let mut rows = self.take_rows();
                        rows.set(i, row);
                        self.rows = rows;
                        proof {
                            assert forall|k: int|
                                0 <= k < old_rows.len() && k != i implies old_rows[k].clip.id
                                != id by {
                                if k < i {
                                    assert(old_rows[k].clip.id < old_rows[i as int].clip.id);
                                } else {
                                    assert(old_rows[i as int].clip.id < old_rows[k].clip.id);
                                }
                            }
                        }
                        assert(self.rows@ =~= update_row(
                            old_rows,
                            id,
                            |r: HistoryRow| bumped_html(r, now, Some(hs_g)),
                        ));
                    },
                    None => {
                        assert(self.rows@ =~= update_row(
                            old_rows,
                            id,
                            |r: HistoryRow| bumped_html(r, now, Some(hs_g)),
                        ));
                    },
                }
            },
        }
    }

    /// Pin or unpin the row with id `id`.
    pub fn set_pinned(&mut self, id: i64, pinned: bool)
        ensures
            table_wf(final(self)@, final(self).last_id()),
            final(self).last_id() == old(self).last_id(),
            final(self)@ == update_row(old(self)@, id, |r: HistoryRow| with_pinned(r, pinned)),
    {
        proof {
            use_type_invariant(&*self);
        }
        let ghost old_rows = self.rows@;
        match self.index_of(id) {
            Some(i) => {
                let mut row = self.rows[i].copy();
                row.clip.pinned = pinned;
                proof {
                    lemma_update_wf(old_rows, self.seq, i as int, row);
                }
                let mut rows = self.take_rows();
                rows.set(i, row);
                self.rows = rows;
                proof {
                    assert forall|k: int| 0 <= k < old_rows.len() && k != i implies old_rows[k].clip.id
                        != id by {
                        if k < i {
                            assert(old_rows[k].clip.id < old_rows[i as int].clip.id);
                        } else {
                            assert(old_rows[i as int].clip.id < old_rows[k].clip.id);
                        }
                    }
                }
                assert(self.rows@ =~= update_row(
                    old_rows,
                    id,
                    |r: HistoryRow| with_pinned(r, pinned),
                ));
            },
            None => {
                assert(self.rows@ =~= update_row(
                    old_rows,
                    id,
                    |r: HistoryRow| with_pinned(r, pinned),
                ));
            },
        }
    }

    /// Delete the row with id `id`; returns its image paths (if it existed)
    /// for filesystem GC.
    pub fn delete(&mut self, id: i64) -> (gc: Vec<GcPaths>)
        ensures
            table_wf(final(self)@, final(self).last_id()),
            final(self).last_id() == old(self).last_id(),
            final(self)@ == old(self)@.filter(id_is_not(id)),
            gc@ == gc_all(old(self)@.filter(id_is(id))),
    {
        proof {
            use_type_invariant(&*self);
        }
        let n = self.rows.len();
        let mut keep: Vec<bool> = Vec::new();
        let mut i: usize = 0;
        while i < n
            invariant
                n == self.rows@.len(),
                i <= n,
                keep@.len() == i,
                forall|k: int| 0 <= k < i ==> keep@[k] == id_is_not(id)(#[trigger] self.rows@[k]),
            decreases n - i,
        {
            keep.push(self.rows[i].clip.id != id);
            i = i + 1;
        }
        self.replace_rows(&keep, Ghost(id_is_not(id)), Ghost(id_is(id)))
    }

    /// Delete every row, or every unpinned row when `keep_pinned`; returns
    /// the image paths of the deleted rows, in table order.
    pub fn clear(&mut self, keep_pinned: bool) -> (gc: Vec<GcPaths>)
        ensures
            table_wf(final(self)@, final(self).last_id()),
            final(self).last_id() == old(self).last_id(),
            final(self)@ == old(self)@.filter(kept_by_clear(keep_pinned)),
            gc@ == gc_all(old(self)@.filter(cleared_by_clear(keep_pinned))),
    {
        proof {
            use_type_invariant(&*self);
        }
        let n = self.rows.len();
        let mut keep: Vec<bool> = Vec::new();
        let mut i: usize = 0;
        while i < n
            invariant
                n == self.rows@.len(),
                i <= n,
                keep@.len() == i,
                forall|k: int|
                    0 <= k < i ==> keep@[k] == kept_by_clear(keep_pinned)(#[trigger] self.rows@[k]),
            decreases n - i,
        {
            keep.push(keep_pinned && self.rows[i].clip.pinned);
            i = i + 1;
        }
        self.replace_rows(&keep, Ghost(kept_by_clear(keep_pinned)), Ghost(cleared_by_clear(keep_pinned)))
    }

    /// The number of unpinned rows that come before `c` in display order.
    fn unpinned_rank_exec(&self, c: &Clip) -> (r: usize)
        ensures
            r == unpinned_rank(self@, *c),
    {
        let n = self.rows.len();
        let mut cnt: usize = 0;
        let mut j: usize = 0;
        assert(self.rows@.take(0) =~= Seq::<HistoryRow>::empty());
        proof {
            reveal(Seq::filter);
        }
        while j < n
            invariant
                n == self.rows@.len(),
                j <= n,
                cnt <= j,
                cnt == self.rows@.take(j as int).filter(unpinned_before(*c)).len(),
            decreases n - j,
        {
            proof {
                lemma_filter_step(self.rows@, unpinned_before(*c), j as int);
            }
            if !self.rows[j].clip.pinned && ranks_before_exec(&self.rows[j].clip, c) {
                cnt = cnt + 1;
            }
            j = j + 1;
        }
        assert(self.rows@.take(n as int) =~= self.rows@);
        cnt
    }

    /// Evict unpinned rows beyond the `cap` that come first in display order
    /// (most recently used); returns the image paths of the evicted rows, in
    /// table order.
    pub fn enforce_cap(&mut self, cap: u32) -> (gc: Vec<GcPaths>)
        ensures
            table_wf(final(self)@, final(self).last_id()),
            final(self).last_id() == old(self).last_id(),
            final(self)@ == old(self)@.filter(kept_by_cap(old(self)@, cap)),
            gc@ == gc_all(old(self)@.filter(evicted_by_cap(old(self)@, cap))),
    {
        proof {
            use_type_invariant(&*self);
        }
        let n = self.rows.len();
        let mut keep: Vec<bool> = Vec::new();
        let mut i: usize = 0;
        while i < n
            invariant
                n == self.rows@.len(),
                i <= n,
                keep@.len() == i,
                forall|k: int|
                    0 <= k < i ==> keep@[k] == kept_by_cap(self.rows@, cap)(#[trigger] self.rows@[k]),
            decreases n - i,
        {
            let pinned = self.rows[i].clip.pinned;
            let k = pinned || self.unpinned_rank_exec(&self.rows[i].clip) < cap as usize;
            keep.push(k);
            i = i + 1;
        }
        let ghost old_rows = self.rows@;
        self.replace_rows(&keep, Ghost(kept_by_cap(old_rows, cap)), Ghost(evicted_by_cap(old_rows, cap)))
    }

    /// Keep the rows `keep` marks; returns the paths of the others.
    fn replace_rows(
        &mut self,
        keep: &Vec<bool>,
        Ghost(p): Ghost<spec_fn(HistoryRow) -> bool>,
        Ghost(q): Ghost<spec_fn(HistoryRow) -> bool>,
    ) -> (gc: Vec<GcPaths>)
        requires
            keep@.len() == old(self)@.len(),
            forall|i: int| 0 <= i < old(self)@.len() ==> keep@[i] == p(#[trigger] old(self)@[i]),
            forall|r: HistoryRow| #[trigger] q(r) == !p(r),
        ensures
            table_wf(final(self)@, final(self).last_id()),
            final(self).last_id() == old(self).last_id(),
            final(self)@ == old(self)@.filter(p),
            gc@ == gc_all(old(self)@.filter(q)),
    {
        proof {
            use_type_invariant(&*self);
            lemma_filter_wf(self.rows@, self.seq, p);
        }
        let rows = self.take_rows();
        let (kept, gone) = partition(&rows, keep, Ghost(p), Ghost(q));
        self.rows = kept;
        gone
    }

    /// Every full and thumbnail path some row references, each once.
    pub fn referenced_image_paths(&self) -> (out: Vec<String>)
        ensures
            forall|k: int| 0 <= k < out@.len() ==> is_referenced(self@, #[trigger] out@[k]@),
            forall|p: Seq<char>| is_referenced(self@, p) ==> exists|k: int|
                0 <= k < out@.len() && #[trigger] out@[k]@ == p,
            forall|a: int, b: int| 0 <= a < b < out@.len() ==> out@[a]@ != out@[b]@,
    {
        let n = self.rows.len();
        let mut out: Vec<String> = Vec::new();
        let mut pass: usize = 0;
        while pass < 2
            invariant
                n == self.rows@.len(),
                pass <= 2,
                forall|k: int| 0 <= k < out@.len() ==> is_referenced(self@, #[trigger] out@[k]@),
                forall|a: int, b: int| 0 <= a < b < out@.len() ==> out@[a]@ != out@[b]@,
                forall|i: int|
                    0 <= i < n && pass >= 1 ==> (#[trigger] self@[i].clip.image_path matches Some(
                        s,
                    ) ==> exists|k: int| 0 <= k < out@.len() && out@[k]@ == s@),
                forall|i: int|
                    0 <= i < n && pass >= 2 ==> (#[trigger] self@[i].clip.thumb_path matches Some(
                        s,
                    ) ==> exists|k: int| 0 <= k < out@.len() && out@[k]@ == s@),
            decreases 2 - pass,
        {
            let mut i: usize = 0;
            while i < n
                invariant
                    n == self.rows@.len(),
                    pass < 2,
                    i <= n,
                    forall|k: int| 0 <= k < out@.len() ==> is_referenced(self@, #[trigger] out@[k]@),
                    forall|a: int, b: int| 0 <= a < b < out@.len() ==> out@[a]@ != out@[b]@,
                    forall|m: int|
                        0 <= m < n && (pass >= 1 || m < i) ==> (#[trigger] self@[m].clip.image_path matches Some(
                            s,
                        ) ==> exists|k: int| 0 <= k < out@.len() && out@[k]@ == s@),
                    forall|m: int|
                        0 <= m < n && pass == 1 && m < i ==> (#[trigger] self@[m].clip.thumb_path matches Some(
                            s,
                        ) ==> exists|k: int| 0 <= k < out@.len() && out@[k]@ == s@),
                decreases n - i,
            {
                let cand = if pass == 0 {
                    &self.rows[i].clip.image_path
                } else {
                    &self.rows[i].clip.thumb_path
                };
                if let Some(path) = cand {
                    let mut seen = false;
                    let mut k: usize = 0;
                    while k < out.len()
                        invariant
                            k <= out@.len(),
                            seen == exists|m: int| 0 <= m < k && out@[m]@ == path@,
                        decreases out@.len() - k,
                    {
                        if str_eq(out[k].as_str(), path.as_str()) {
                            seen = true;
                        }
                        k = k + 1;
                    }
                    if !seen {
                        assert(is_referenced(self@, path@)) by {
                            assert(0 <= i < self@.len());
                            if pass == 0 {
                                assert(opt_view(self@[i as int].clip.image_path) == Some(path@));
                            } else {
                                assert(opt_view(self@[i as int].clip.thumb_path) == Some(path@));
                            }
                        }
                        let ghost before = out@;
                        out.push(path.clone());
                        assert(out@[out@.len() - 1]@ == path@);
                        assert forall|m: int|
                            0 <= m < n && (pass >= 1 || m < i + 1) implies (
                            #[trigger] self@[m].clip.image_path matches Some(s) ==> exists|kk: int|
                                0 <= kk < out@.len() && out@[kk]@ == s@) by {
                            if let Some(s) = self@[m].clip.image_path {
                                if m == i && pass == 0 {
                                    assert(out@[out@.len() - 1]@ == s@);
                                } else {
                                    let kk = choose|kk: int| 0 <= kk < before.len() && before[kk]@ == s@;
                                    assert(out@[kk]@ == s@);
                                }
                            }
                        }
                        assert forall|m: int|
                            0 <= m < n && pass == 1 && m < i + 1 implies (
                            #[trigger] self@[m].clip.thumb_path matches Some(s) ==> exists|kk: int|
                                0 <= kk < out@.len() && out@[kk]@ == s@) by {
                            if let Some(s) = self@[m].clip.thumb_path {
                                if m == i {
                                    assert(out@[out@.len() - 1]@ == s@);
                                } else {
                                    let kk = choose|kk: int| 0 <= kk < before.len() && before[kk]@ == s@;
                                    assert(out@[kk]@ == s@);
                                }
                            }
                        }
                    }
                }
                i = i + 1;
            }
            pass = pass + 1;
        }
        assert forall|p: Seq<char>| is_referenced(self@, p) implies exists|k: int|
            0 <= k < out@.len() && #[trigger] out@[k]@ == p by {
            let i = choose|i: int|
                0 <= i < self@.len() && (opt_view(#[trigger] self@[i].clip.image_path) == Some(p)
                    || opt_view(self@[i].clip.thumb_path) == Some(p));
            if opt_view(self@[i].clip.image_path) == Some(p) {
                assert(self@[i].clip.image_path matches Some(s) && s@ == p);
            } else {
                assert(self@[i].clip.thumb_path matches Some(s) && s@ == p);
            }
        }
        out
    }

    /// Rows whose backing image file has vanished: the id and image path of
    /// every image row with a path whose file is gone, in table order.
    /// `present[i]` says whether the image file of row `i` (of `rows()`)
    /// exists; the flags of other rows are not read.
    pub fn image_rows(&self, present: &Vec<bool>) -> (out: Vec<(i64, Option<String>)>)
        requires
            present@.len() == self@.len(),
        ensures
            out@ == vanished_image_rows(self@, present@),
    {
        let n = self.rows.len();
        let mut out: Vec<(i64, Option<String>)> = Vec::new();
        let mut i: usize = 0;
        proof {
            reveal_strlit("image");
        }
        while i < n
            invariant
                n == self.rows@.len(),
                present@.len() == n,
                i <= n,
                out@ == vanished_image_rows(self.rows@.take(i as int), present@.take(i as int)),
            decreases n - i,
        {
            let ghost rt = self.rows@.take(i as int + 1);
            let ghost pt = present@.take(i as int + 1);
            assert(rt.drop_last() =~= self.rows@.take(i as int));
            assert(pt.take(i as int) =~= present@.take(i as int));
            assert(rt.last() == self.rows@[i as int]);
            assert(pt[i as int] == present@[i as int]);
            let r = &self.rows[i];
            if str_eq(r.clip.kind.as_str(), "image") && r.clip.image_path.is_some() && !present[i] {
                out.push((r.clip.id, copy_opt_string(&r.clip.image_path)));
            }
            i = i + 1;
        }
        assert(self.rows@.take(n as int) =~= self.rows@);
        assert(present@.take(n as int) =~= present@);
        out
    }

    /// The clip with id `id`, if any.
    pub fn get(&self, id: i64) -> (r: Option<Clip>)
        ensures
            r == find_clip(self@, id),
    {
        proof {
            use_type_invariant(self);
        }
        match self.index_of(id) {
            Some(i) => {
                proof {
                    let k = choose|k: int| 0 <= k < self.rows@.len() && self.rows@[k].clip.id == id;
                    if k < i {
                        assert(self.rows@[k].clip.id < self.rows@[i as int].clip.id);
                    } else if k > i {
                        assert(self.rows@[i as int].clip.id < self.rows@[k].clip.id);
                    }
                }
                Some(self.rows[i].clip.copy())
            },
            None => None,
        }
    }

    /// The clips taken by `sel`, in display order, at most `limit` of them
    /// (all of them when `limit` is negative).
    fn select(&self, sel: &Selection, limit: i64) -> (out: Vec<Clip>)
        ensures
            is_listing(clips_of(self@), |c: Clip| selects(sel@, c), limit, out@),
    {
        proof {
            use_type_invariant(self);
        }
        let n = self.rows.len();
        let ghost rows = self.rows@;
        let ghost all = clips_of(rows);
        let mut taken: Vec<bool> = Vec::new();
        let mut t: usize = 0;
        while t < n
            invariant
                t <= n,
                taken@.len() == t,
                forall|j: int| 0 <= j < t ==> !taken@[j],
                count_false(taken@) == t,
            decreases n - t,
        {
            let ghost before = taken@;
            taken.push(false);
            assert(taken@.drop_last() =~= before);
            t = t + 1;
        }
        let mut out: Vec<Clip> = Vec::new();
        let ghost mut picked: Seq<int> = seq![];
        let mut count: usize = 0;
        loop
            invariant
                n == rows.len(),
                rows == self.rows@,
                all == clips_of(rows),
                table_wf(rows, self.seq),
                taken@.len() == n,
                out@.len() == picked.len(),
                count == out@.len(),
                picked.len() + count_false(taken@) == n,
                limit >= 0 ==> count <= limit,
                forall|i: int|
                    0 <= i < picked.len() ==> 0 <= #[trigger] picked[i] < n && out@[i]
                        == rows[picked[i]].clip && taken@[picked[i]],
                forall|j: int| 0 <= j < n && #[trigger] taken@[j] ==> exists|i: int|
                    0 <= i < picked.len() && picked[i] == j,
                forall|i: int| 0 <= i < out@.len() ==> selects(sel@, #[trigger] out@[i]),
                forall|i: int, j: int|
                    0 <= i < j < out@.len() ==> ranks_before(#[trigger] out@[i], #[trigger] out@[j]),
                forall|j: int|
                    0 <= j < n && !#[trigger] taken@[j] && selects(sel@, rows[j].clip) ==> forall|
                        i: int,
                    |
                        0 <= i < out@.len() ==> ranks_before(#[trigger] out@[i], rows[j].clip),
            ensures
                is_listing(all, |c: Clip| selects(sel@, c), limit, out@),
            decreases count_false(taken@),
        {
            if limit >= 0 && (count as u64) >= (limit as u64) {
                proof {
                    self.lemma_listing_done(rows, all, sel@, limit, out@, picked, taken@);
                }
                break;
            }
            let mut best: Option<usize> = None;
            let mut j: usize = 0;
            while j < n
                invariant
                    n == rows.len(),
                    rows == self.rows@,
                    table_wf(rows, self.seq),
                    taken@.len() == n,
                    j <= n,
                    match best {
                        Some(b) => b < j && !taken@[b as int] && selects(sel@, rows[b as int].clip)
                            && forall|k: int|
                            0 <= k < j && !#[trigger] taken@[k] && selects(sel@, rows[k].clip) && k
                                != b ==> ranks_before(rows[b as int].clip, rows[k].clip),
                        None => forall|k: int|
                            0 <= k < j ==> #[trigger] taken@[k] || !selects(sel@, rows[k].clip),
                    },
                decreases n - j,
            {
                if !taken[j] && selects_exec(sel, &self.rows[j].clip) {
                    match best {
                        None => {
                            best = Some(j);
                        },
                        Some(b) => {
                            assert(rows[b as int].clip.id < rows[j as int].clip.id);
                            if ranks_before_exec(&self.rows[j].clip, &self.rows[b].clip) {
                                best = Some(j);
                            }
                        },
                    }
                }
                j = j + 1;
            }
            match best {
                None => {
                    proof {
                        self.lemma_listing_exhausted(rows, all, sel@, limit, out@, picked, taken@);
                    }
                    break;
                },
                Some(b) => {
                    let c = self.rows[b].clip.copy();
                    proof {
                        assert forall|i: int| 0 <= i < out@.len() implies ranks_before(
                            #[trigger] out@[i],
                            c,
                        ) by {
                            assert(!taken@[b as int]);
                        }
                        assert(forall|i: int| 0 <= i < picked.len() ==> picked[i] != b);
                    }
                    proof {
                        lemma_count_false_set(taken@, b as int);
                        lemma_count_false_pos(taken@, b as int);
                    }
                    let ghost old_picked = picked;
                    let ghost old_taken = taken@;
                    out.push(c);
                    taken.set(b, true);
                    count = count + 1;
                    proof {
                        picked = picked.push(b as int);
                        assert forall|jj: int| 0 <= jj < n && #[trigger] taken@[jj] implies exists|
                            i: int,
                        | 0 <= i < picked.len() && picked[i] == jj by {
                            if jj == b {
                                assert(picked[picked.len() - 1] == jj);
                            } else {
                                assert(old_taken[jj]);
                                let i0 = choose|i: int|
                                    0 <= i < old_picked.len() && old_picked[i] == jj;
                                assert(picked[i0] == jj);
                            }
                        }
                        assert forall|jj: int|
                            0 <= jj < n && !#[trigger] taken@[jj] && selects(
                                sel@,
                                rows[jj].clip,
                            ) implies forall|i: int|
                            0 <= i < out@.len() ==> ranks_before(
                                #[trigger] out@[i],
                                rows[jj].clip,
                            ) by {
                            assert(jj != b);
                            assert(rows[b as int].clip.id != rows[jj].clip.id) by {
                                if jj < b {
                                    assert(rows[jj].clip.id < rows[b as int].clip.id);
                                } else {
                                    assert(rows[b as int].clip.id < rows[jj].clip.id);
                                }
                            }
                        }
                    }
                },
            }
        }
        out
    }

    proof fn lemma_listing_done(
        &self,
        rows: Seq<HistoryRow>,
        all: Seq<Clip>,
        sel: SelectionSpec,
        limit: i64,
        out: Seq<Clip>,
        picked: Seq<int>,
        taken: Seq<bool>,
    )
        requires
            all == clips_of(rows),
            table_wf(rows, self.seq),
            taken.len() == rows.len(),
            out.len() == picked.len(),
            limit >= 0,
            out.len() == limit,
            forall|i: int|
                0 <= i < picked.len() ==> 0 <= #[trigger] picked[i] < rows.len() && out[i]
                    == rows[picked[i]].clip && taken[picked[i]],
            forall|j: int| 0 <= j < rows.len() && #[trigger] taken[j] ==> exists|i: int|
                0 <= i < picked.len() && picked[i] == j,
            forall|i: int| 0 <= i < out.len() ==> selects(sel, #[trigger] out[i]),
            forall|i: int, j: int|
                0 <= i < j < out.len() ==> ranks_before(#[trigger] out[i], #[trigger] out[j]),
            forall|j: int|
                0 <= j < rows.len() && !#[trigger] taken[j] && selects(sel, rows[j].clip)
                    ==> forall|i: int|
                    0 <= i < out.len() ==> ranks_before(#[trigger] out[i], rows[j].clip),
        ensures
            is_listing(all, |c: Clip| selects(sel, c), limit, out),
    {
        self.lemma_listing_common(rows, all, sel, limit, out, picked, taken);
    }

    proof fn lemma_listing_exhausted(
        &self,
        rows: Seq<HistoryRow>,
        all: Seq<Clip>,
        sel: SelectionSpec,
        limit: i64,
        out: Seq<Clip>,
        picked: Seq<int>,
        taken: Seq<bool>,
    )
        requires
            all == clips_of(rows),
            table_wf(rows, self.seq),
            taken.len() == rows.len(),
            out.len() == picked.len(),
            limit >= 0 ==> out.len() <= limit,
            forall|i: int|
                0 <= i < picked.len() ==> 0 <= #[trigger] picked[i] < rows.len() && out[i]
                    == rows[picked[i]].clip && taken[picked[i]],
            forall|j: int| 0 <= j < rows.len() && #[trigger] taken[j] ==> exists|i: int|
                0 <= i < picked.len() && picked[i] == j,
            forall|i: int| 0 <= i < out.len() ==> selects(sel, #[trigger] out[i]),
            forall|i: int, j: int|
                0 <= i < j < out.len() ==> ranks_before(#[trigger] out[i], #[trigger] out[j]),
            forall|k: int| 0 <= k < rows.len() ==> #[trigger] taken[k] || !selects(sel, rows[k].clip),
        ensures
            is_listing(all, |c: Clip| selects(sel, c), limit, out),
    {
        assert forall|j: int|
            0 <= j < all.len() && selects(sel, #[trigger] all[j]) && (forall|i: int|
                0 <= i < out.len() ==> out[i].id != all[j].id) implies false by {
            assert(all[j] == rows[j].clip);
            assert(taken[j]);
            let i0 = choose|i: int| 0 <= i < picked.len() && picked[i] == j;
            assert(out[i0].id == all[j].id);
        }
        self.lemma_listing_common(rows, all, sel, limit, out, picked, taken);
    }

    proof fn lemma_listing_common(
        &self,
        rows: Seq<HistoryRow>,
        all: Seq<Clip>,
        sel: SelectionSpec,
        limit: i64,
        out: Seq<Clip>,
        picked: Seq<int>,
        taken: Seq<bool>,
    )
        requires
            all == clips_of(rows),
            table_wf(rows, self.seq),
            taken.len() == rows.len(),
            out.len() == picked.len(),
            limit >= 0 ==> out.len() <= limit,
            forall|i: int|
                0 <= i < picked.len() ==> 0 <= #[trigger] picked[i] < rows.len() && out[i]
                    == rows[picked[i]].clip && taken[picked[i]],
            forall|j: int| 0 <= j < rows.len() && #[trigger] taken[j] ==> exists|i: int|
                0 <= i < picked.len() && picked[i] == j,
            forall|i: int| 0 <= i < out.len() ==> selects(sel, #[trigger] out[i]),
            forall|i: int, j: int|
                0 <= i < j < out.len() ==> ranks_before(#[trigger] out[i], #[trigger] out[j]),
            forall|j: int|
                0 <= j < rows.len() && !#[trigger] taken[j] && selects(sel, rows[j].clip)
                    ==> forall|i: int|
                    0 <= i < out.len() ==> ranks_before(#[trigger] out[i], rows[j].clip),
            forall|j: int|
                0 <= j < all.len() && selects(sel, #[trigger] all[j]) && (forall|i: int|
                    0 <= i < out.len() ==> out[i].id != all[j].id) ==> limit >= 0 && out.len()
                    == limit,
        ensures
            is_listing(all, |c: Clip| selects(sel, c), limit, out),
    {
        assert forall|i: int| 0 <= i < out.len() implies all.contains(#[trigger] out[i]) by {
            assert(all[picked[i]] == out[i]);
        }
        assert forall|j: int|
            0 <= j < all.len() && selects(sel, #[trigger] all[j]) && (forall|i: int|
                0 <= i < out.len() ==> out[i].id != all[j].id) implies forall|i: int|
            0 <= i < out.len() ==> ranks_before(out[i], all[j]) by {
            assert(all[j] == rows[j].clip);
            if taken[j] {
                let i0 = choose|i: int| 0 <= i < picked.len() && picked[i] == j;
                assert(out[i0].id == all[j].id);
            }
        }
    }

    /// The history listing: pinned first, then most recently used, at most
    /// `limit` clips (all of them when `limit` is negative).
    pub fn list_history(&self, limit: i64) -> (out: Vec<Clip>)
        ensures
            is_listing(clips_of(self@), |c: Clip| selects(SelectionSpec::All, c), limit, out@),
    {
        self.select(&Selection::All, limit)
    }

    /// The pinned clips, most recently used first.
    pub fn list_pins(&self) -> (out: Vec<Clip>)
        ensures
            is_listing(clips_of(self@), |c: Clip| selects(SelectionSpec::Pinned, c), -1i64, out@),
    {
        self.select(&Selection::Pinned, -1)
    }

    /// Text clips whose content contains `q` (ASCII letters matched without
    /// regard to case; `%`, `_` and `\` in `q` match themselves), in display
    /// order, at most `limit` of them.
    pub fn search(&self, q: &str, limit: i64) -> (out: Vec<Clip>)
        ensures
            is_listing(
                clips_of(self@),
                |c: Clip| selects(SelectionSpec::TextContaining(q@), c),
                limit,
                out@,
            ),
    {
        let qv = chars_of(q);
        let sel = Selection::TextContaining(qv);
        self.select(&sel, limit)
    }
}

} // verus!
