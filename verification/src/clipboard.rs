//! Recording clipboard content into the history: dedup (re-copying existing
//! content moves it to the top), insertion of new text and images, and the
//! cap that evicts the oldest unpinned entries. Reading and writing the
//! system clipboard and the image files is left to the caller; this module
//! decides what the table becomes.

use vstd::prelude::*;
use crate::db::{
    gc_all, kept_by_cap, evicted_by_cap, latest_with_hash, opt_view, update_row, bumped,
    GcPaths, HistoryRow, HistoryStore, NewClip, table_wf,
};
use crate::images::SavedImage;
use crate::models::Settings;
use crate::util::{hash_bytes, hash_text, spec_hash_bytes};

verus! {

/// What was read from the clipboard (images are preferred over text).
pub enum Payload {
    Text(String),
    Image { width: usize, height: usize, rgba: Vec<u8>, hash: String },
    Empty,
}

/// The content key of a payload: the hash of a text's UTF-8 bytes, the hash
/// carried by an image, nothing for an empty clipboard.
pub fn payload_hash(p: &Payload) -> (r: Option<String>)
    ensures
        match p {
            Payload::Text(t) => r matches Some(h) && h@ == spec_hash_bytes(
                vstd::utf8::encode_utf8(t@),
            ),
            Payload::Image { hash, .. } => r == Some(*hash),
            Payload::Empty => r is None,
        },
{
    match p {
        Payload::Text(t) => Some(hash_text(t.as_str())),
        Payload::Image { hash, .. } => Some(hash.clone()),
        Payload::Empty => None,
    }
}

/// What a poll of the clipboard read, preferring an image (the richer type)
/// over text: `image` is the clipboard's image (width, height, RGBA8 bytes)
/// when it holds one, `text` its text otherwise. Empty text counts as
/// nothing. An image is keyed by the hash of its bytes.
pub fn read_payload(image: Option<(usize, usize, Vec<u8>)>, text: Option<String>) -> (r: Payload)
    ensures
        match image {
            Some((w, h, bytes)) => r matches Payload::Image { width, height, rgba, hash }
                && width == w && height == h && rgba@ == bytes@ && hash@ == spec_hash_bytes(
                bytes@,
            ),
            None => match text {
                Some(t) => if t@.len() > 0 {
                    r matches Payload::Text(x) && x@ == t@
                } else {
                    r is Empty
                },
                None => r is Empty,
            },
        },
{
    match image {
        Some((width, height, rgba)) => {
            let hash = hash_bytes(rgba.as_slice());
            Payload::Image { width, height, rgba, hash }
        },
        None => match text {
            Some(t) => {
                if t.unicode_len() > 0 {
                    Payload::Text(t)
                } else {
                    Payload::Empty
                }
            },
            None => Payload::Empty,
        },
    }
}

/// The outcome of recording: whether the UI should refresh, and the image
/// files freed by evicted rows.
pub struct Recorded {
    pub refresh: bool,
    pub gc: Vec<GcPaths>,
}

/// A text row as recorded: kind "text", the text as content, no html or
/// image fields, `size` (the text's UTF-8 length) as size, unpinned, created
/// and used `now`.
pub open spec fn is_text_row(
    r: HistoryRow,
    text: Seq<char>,
    size: i64,
    hash: Seq<char>,
    id: i64,
    now: i64,
) -> bool {
    &&& r.clip.id == id
    &&& r.clip.kind@ == "text"@
    &&& opt_view(r.clip.content) == Some(text)
    &&& r.clip.html is None
    &&& r.clip.image_path is None
    &&& r.clip.thumb_path is None
    &&& r.clip.width is None
    &&& r.clip.height is None
    &&& r.clip.byte_size == Some(size)
    &&& !r.clip.pinned
    &&& r.clip.created_at == now
    &&& r.clip.last_used_at == now
    &&& r.hash@ == hash
}

/// An image row as recorded from a saved image.
pub open spec fn is_image_row(r: HistoryRow, saved: SavedImage, hash: Seq<char>, id: i64, now: i64) -> bool {
    &&& r.clip.id == id
    &&& r.clip.kind@ == "image"@
    &&& r.clip.content is None
    &&& r.clip.html is None
    &&& opt_view(r.clip.image_path) == Some(saved.image_path@)
    &&& opt_view(r.clip.thumb_path) == Some(saved.thumb_path@)
    &&& r.clip.width == Some(saved.width)
    &&& r.clip.height == Some(saved.height)
    &&& r.clip.byte_size == Some(saved.byte_size)
    &&& !r.clip.pinned
    &&& r.clip.created_at == now
    &&& r.clip.last_used_at == now
    &&& r.hash@ == hash
}

/// `fin` / `gc` are what capping `old` with `row` added at the end, at
/// `cap`, keeps / frees.
pub open spec fn pushed_then_capped(
    old: Seq<HistoryRow>,
    row: HistoryRow,
    fin: Seq<HistoryRow>,
    gc: Seq<GcPaths>,
    cap: u32,
) -> bool {
    let mid = old.push(row);
    &&& fin == mid.filter(kept_by_cap(mid, cap))
    &&& gc == gc_all(mid.filter(evicted_by_cap(mid, cap)))
}

/// Record copied text with content hash `hash` at time `now`: if a row
/// already holds this content it is bumped to the top; otherwise a text row
/// is added and the history is capped at `settings.history_cap`.
pub fn record_text(
    store: &mut HistoryStore,
    settings: &Settings,
    text: &str,
    hash: &str,
    now: i64,
) -> (r: Recorded)
    ensures
        table_wf(final(store)@, final(store).last_id()),
        match latest_with_hash(old(store)@, hash@) {
            Some(id) => {
                &&& r.refresh
                &&& r.gc@.len() == 0
                &&& final(store)@ == update_row(old(store)@, id, |x: HistoryRow| bumped(x, now))
                &&& final(store).last_id() == old(store).last_id()
            },
            None => if old(store).last_id() == i64::MAX {
                &&& !r.refresh
                &&& r.gc@.len() == 0
                &&& final(store)@ == old(store)@
            } else {
                &&& r.refresh
                &&& final(store).last_id() == old(store).last_id() + 1
                &&& exists|row: HistoryRow|
                    pushed_then_capped(
                        old(store)@,
                        row,
                        final(store)@,
                        r.gc@,
                        settings.history_cap,
                    ) && #[trigger] is_text_row(
                        row,
                        text@,
                        #[verifier::truncate]
                        (text.len() as i64),
                        hash@,
                        (old(store).last_id() + 1) as i64,
                        now,
                    )
            },
        },
{
    store.lemma_wf();
    if let Some(id) = store.find_by_hash(hash) {
        store.bump_used(id, now);
        return Recorded { refresh: true, gc: Vec::new() };
    }
    #[verifier::truncate]
    let size = text.len() as i64;
    assert(size == text.len() as i64);
    let new = NewClip {
        kind: "text",
        content: Some(text),
        html: None,
        image_path: None,
        thumb_path: None,
        width: None,
        height: None,
        byte_size: Some(size),
        hash,
    };
    proof {
        reveal_strlit("text");
        reveal_strlit("image");
    }
    match store.insert(&new, now) {
        Err(_) => Recorded { refresh: false, gc: Vec::new() },
        Ok(_) => {
            let ghost row = store@.last();
            assert(store@ =~= old(store)@.push(row));
            let gc = store.enforce_cap(settings.history_cap);
            assert(pushed_then_capped(old(store)@, row, store@, gc@, settings.history_cap));
            assert(is_text_row(row, text@, size, hash@, (old(store).last_id() + 1) as i64, now));
            Recorded { refresh: true, gc }
        },
    }
}

/// What to do with a copied image before any file is written.
#[derive(Clone, Copy, PartialEq, Eq, Debug, Structural)]
pub enum ImageStep {
    /// The content is already in the history; it was bumped to the top.
    Bumped,
    /// Image capture is off; nothing is recorded.
    Skip,
    /// New content: save the files, then call `admit_image`.
    Save,
}

/// First step of recording a copied image with content hash `hash`.
pub fn image_step(store: &mut HistoryStore, settings: &Settings, hash: &str, now: i64) -> (r:
    ImageStep)
    ensures
        table_wf(final(store)@, final(store).last_id()),
        final(store).last_id() == old(store).last_id(),
        match latest_with_hash(old(store)@, hash@) {
            Some(id) => r is Bumped && final(store)@ == update_row(
                old(store)@,
                id,
                |x: HistoryRow| bumped(x, now),
            ),
            None => final(store)@ == old(store)@ && (if settings.capture_images {
                r is Save
            } else {
                r is Skip
            }),
        },
{
    store.lemma_wf();
    if let Some(id) = store.find_by_hash(hash) {
        store.bump_used(id, now);
        return ImageStep::Bumped;
    }
    if !settings.capture_images {
        ImageStep::Skip
    } else {
        ImageStep::Save
    }
}

/// Second step, once the image files are saved.
pub enum ImageAdmit {
    /// Recorded; the files of evicted rows are returned for deletion.
    Recorded(Vec<GcPaths>),
    /// Larger (encoded) than `max_image_bytes`: not recorded, and the saved
    /// files are to be deleted.
    Oversize,
    /// The row could not be added.
    Failed,
}

/// Record a saved image: refused when its encoded size exceeds
/// `settings.max_image_bytes`; otherwise an image row is added and the
/// history is capped at `settings.history_cap`.
pub fn admit_image(
    store: &mut HistoryStore,
    settings: &Settings,
    saved: &SavedImage,
    hash: &str,
    now: i64,
) -> (r: ImageAdmit)
    ensures
        table_wf(final(store)@, final(store).last_id()),
        (saved.byte_size as u64) > settings.max_image_bytes ==> r is Oversize && final(store)@
            == old(store)@,
        (saved.byte_size as u64) <= settings.max_image_bytes && old(store).last_id() == i64::MAX
            ==> r is Failed && final(store)@ == old(store)@,
        (saved.byte_size as u64) <= settings.max_image_bytes && old(store).last_id() < i64::MAX
            ==> {
            &&& final(store).last_id() == old(store).last_id() + 1
            &&& r matches ImageAdmit::Recorded(gc) && exists|row: HistoryRow|
                pushed_then_capped(old(store)@, row, final(store)@, gc@, settings.history_cap)
                    && #[trigger] is_image_row(
                    row,
                    *saved,
                    hash@,
                    (old(store).last_id() + 1) as i64,
                    now,
                )
        },
{
    store.lemma_wf();
    #[verifier::truncate]
    let size = saved.byte_size as u64;
    if size > settings.max_image_bytes {
        return ImageAdmit::Oversize;
    }
    let new = NewClip {
        kind: "image",
        content: None,
        html: None,
        image_path: Some(saved.image_path.as_str()),
        thumb_path: Some(saved.thumb_path.as_str()),
        width: Some(saved.width),
        height: Some(saved.height),
        byte_size: Some(saved.byte_size),
        hash,
    };
    proof {
        reveal_strlit("text");
        reveal_strlit("image");
    }
    match store.insert(&new, now) {
        Err(_) => ImageAdmit::Failed,
        Ok(_) => {
            let ghost row = store@.last();
            assert(store@ =~= old(store)@.push(row));
            let gc = store.enforce_cap(settings.history_cap);
            assert(pushed_then_capped(old(store)@, row, store@, gc@, settings.history_cap));
            assert(is_image_row(row, *saved, hash@, (old(store).last_id() + 1) as i64, now));
            ImageAdmit::Recorded(gc)
        },
    }
}

} // verus!
