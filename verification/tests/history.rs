use linux_clipboard::commands::{clear_history, delete_item, get_history, get_pins, pin_item, search_history};
use linux_clipboard::db::{HistoryRow, HistoryStore, NewClip, StoreError};
use linux_clipboard::models::Clip;
use linux_clipboard::startup::reconcile;

fn text(kind: &'static str, content: &'static str, hash: &'static str) -> NewClip<'static> {
    NewClip {
        kind,
        content: Some(content),
        html: None,
        image_path: None,
        thumb_path: None,
        width: None,
        height: None,
        byte_size: Some(content.len() as i64),
        hash,
    }
}

fn image(path: &'static str, thumb: &'static str, hash: &'static str) -> NewClip<'static> {
    NewClip {
        kind: "image",
        content: None,
        html: None,
        image_path: Some(path),
        thumb_path: Some(thumb),
        width: Some(2),
        height: Some(2),
        byte_size: Some(70),
        hash,
    }
}

fn ids(clips: &[Clip]) -> Vec<i64> {
    clips.iter().map(|c| c.id).collect()
}

#[test]
fn insert_hands_out_increasing_ids() {
    let mut s = HistoryStore::new();
    assert_eq!(s.insert(&text("text", "a", "ha"), 10), Ok(1));
    assert_eq!(s.insert(&text("text", "b", "hb"), 11), Ok(2));
    let rows = s.rows();
    assert_eq!(rows.len(), 2);
    assert_eq!(rows[0].clip.id, 1);
    assert_eq!(rows[1].clip.content.as_deref(), Some("b"));
    assert_eq!(rows[1].clip.created_at, 11);
    assert_eq!(rows[1].clip.last_used_at, 11);
    assert!(!rows[1].clip.pinned);
}

#[test]
fn insert_refuses_unknown_kind() {
    let mut s = HistoryStore::new();
    assert_eq!(s.insert(&text("file", "a", "ha"), 10), Err(StoreError::InvalidKind));
    assert_eq!(s.rows().len(), 0);
}

#[test]
fn insert_refuses_when_ids_are_exhausted() {
    let mut s = HistoryStore::from_rows(Vec::new(), i64::MAX).unwrap();
    assert_eq!(s.insert(&text("text", "a", "ha"), 10), Err(StoreError::Full));
    assert_eq!(s.rows().len(), 0);
}

#[test]
fn from_rows_checks_order_and_kinds() {
    let row = |id: i64, kind: &str| HistoryRow {
        clip: Clip {
            id,
            kind: kind.to_string(),
            content: None,
            html: None,
            image_path: None,
            thumb_path: None,
            width: None,
            height: None,
            byte_size: None,
            pinned: false,
            created_at: 0,
            last_used_at: 0,
        },
        hash: String::new(),
    };
    assert!(HistoryStore::from_rows(vec![row(1, "text"), row(3, "image")], 3).is_some());
    assert!(HistoryStore::from_rows(vec![row(3, "text"), row(1, "text")], 3).is_none());
    assert!(HistoryStore::from_rows(vec![row(1, "text")], 0).is_none());
    assert!(HistoryStore::from_rows(vec![row(1, "blob")], 1).is_none());
    assert!(HistoryStore::from_rows(Vec::new(), -1).is_none());
}

#[test]
fn find_by_hash_takes_most_recent() {
    let mut s = HistoryStore::new();
    s.insert(&text("text", "a", "h"), 10).unwrap();
    s.insert(&text("text", "b", "h"), 5).unwrap();
    s.insert(&text("text", "c", "x"), 20).unwrap();
    assert_eq!(s.find_by_hash("h"), Some(1));
    assert_eq!(s.find_by_hash("x"), Some(3));
    assert_eq!(s.find_by_hash("none"), None);
}

#[test]
fn listing_orders_pinned_then_recent() {
    let mut s = HistoryStore::new();
    s.insert(&text("text", "a", "ha"), 10).unwrap();
    s.insert(&text("text", "b", "hb"), 30).unwrap();
    s.insert(&text("text", "c", "hc"), 20).unwrap();
    s.insert(&text("text", "d", "hd"), 20).unwrap();
    pin_item(&mut s, 1, true);
    assert_eq!(ids(&get_history(&s, None)), vec![1, 2, 4, 3]);
    assert_eq!(ids(&get_history(&s, Some(2))), vec![1, 2]);
    assert_eq!(ids(&get_history(&s, Some(0))), Vec::<i64>::new());
    assert_eq!(ids(&get_history(&s, Some(-1))), vec![1, 2, 4, 3]);
    assert_eq!(ids(&get_pins(&s)), vec![1]);
    pin_item(&mut s, 1, false);
    assert_eq!(ids(&get_pins(&s)), Vec::<i64>::new());
    assert_eq!(ids(&get_history(&s, None)), vec![2, 4, 3, 1]);
}

#[test]
fn bump_moves_to_top() {
    let mut s = HistoryStore::new();
    s.insert(&text("text", "a", "ha"), 10).unwrap();
    s.insert(&text("text", "b", "hb"), 20).unwrap();
    s.bump_used(1, 30);
    assert_eq!(ids(&get_history(&s, None)), vec![1, 2]);
    assert_eq!(s.get(1).unwrap().last_used_at, 30);
    assert_eq!(s.get(1).unwrap().created_at, 10);
}

#[test]
fn bump_with_html_sets_or_keeps_html() {
    let mut s = HistoryStore::new();
    s.insert(&text("text", "a", "ha"), 10).unwrap();
    s.bump_used_with_html(1, Some("<b>a</b>"), 20);
    assert_eq!(s.get(1).unwrap().html.as_deref(), Some("<b>a</b>"));
    s.bump_used_with_html(1, None, 30);
    assert_eq!(s.get(1).unwrap().html.as_deref(), Some("<b>a</b>"));
    assert_eq!(s.get(1).unwrap().last_used_at, 30);
}

#[test]
fn search_is_ascii_case_insensitive_on_text() {
    let mut s = HistoryStore::new();
    s.insert(&text("text", "Hello World", "h1"), 10).unwrap();
    s.insert(&text("text", "goodbye", "h2"), 20).unwrap();
    s.insert(&image("/i/x.png", "/i/x.thumb.png", "h3"), 30).unwrap();
    assert_eq!(ids(&s.search("WORLD", 200)), vec![1]);
    assert_eq!(ids(&s.search("o", 200)), vec![2, 1]);
    assert_eq!(ids(&s.search("100%", 200)), Vec::<i64>::new());
    assert_eq!(ids(&search_history(&s, "  ", None)), vec![3, 2, 1]);
    assert_eq!(ids(&search_history(&s, "bye", None)), vec![2]);
    assert_eq!(ids(&search_history(&s, " bye", None)), Vec::<i64>::new());
    assert_eq!(ids(&search_history(&s, "o", Some(1))), vec![2]);
}

#[test]
fn delete_returns_image_files() {
    let mut s = HistoryStore::new();
    s.insert(&image("/i/a.png", "/i/a.thumb.png", "ha"), 10).unwrap();
    s.insert(&text("text", "b", "hb"), 20).unwrap();
    let gc = delete_item(&mut s, 1);
    assert_eq!(gc, vec![(Some("/i/a.png".to_string()), Some("/i/a.thumb.png".to_string()))]);
    assert!(s.get(1).is_none());
    assert_eq!(delete_item(&mut s, 42), Vec::new());
    assert_eq!(s.rows().len(), 1);
}

#[test]
fn clear_keeps_pinned_when_asked() {
    let mut s = HistoryStore::new();
    s.insert(&text("text", "a", "ha"), 10).unwrap();
    s.insert(&image("/i/b.png", "/i/b.thumb.png", "hb"), 20).unwrap();
    s.insert(&text("text", "c", "hc"), 30).unwrap();
    pin_item(&mut s, 1, true);
    let gc = clear_history(&mut s, true);
    assert_eq!(gc.len(), 2);
    assert_eq!(ids(&get_history(&s, None)), vec![1]);
    let gc = clear_history(&mut s, false);
    assert_eq!(gc, vec![(None, None)]);
    assert_eq!(s.rows().len(), 0);
    assert_eq!(s.insert(&text("text", "d", "hd"), 40), Ok(4));
}

#[test]
fn cap_evicts_oldest_unpinned() {
    let mut s = HistoryStore::new();
    for i in 0..5 {
        s.insert(&text("text", "x", "h"), 10 + i).unwrap();
    }
    pin_item(&mut s, 1, true);
    let gc = s.enforce_cap(2);
    assert_eq!(gc.len(), 2);
    assert_eq!(ids(&get_history(&s, None)), vec![1, 5, 4]);
    let gc = s.enforce_cap(0);
    assert_eq!(gc.len(), 2);
    assert_eq!(ids(&get_history(&s, None)), vec![1]);
}

#[test]
fn image_rows_and_references() {
    let mut s = HistoryStore::new();
    s.insert(&image("/i/a.png", "/i/a.thumb.png", "ha"), 10).unwrap();
    s.insert(&text("text", "b", "hb"), 20).unwrap();
    s.insert(&image("/i/a.png", "/i/c.thumb.png", "hc"), 30).unwrap();
    assert_eq!(s.image_rows(&vec![true, true, true]), Vec::new());
    assert_eq!(s.image_rows(&vec![false, false, true]), vec![(1, Some("/i/a.png".to_string()))]);
    assert_eq!(
        s.image_rows(&vec![false, false, false]),
        vec![(1, Some("/i/a.png".to_string())), (3, Some("/i/a.png".to_string()))]
    );
    let mut refs = s.referenced_image_paths();
    refs.sort();
    assert_eq!(refs, vec!["/i/a.png", "/i/a.thumb.png", "/i/c.thumb.png"]);
}

#[test]
fn get_after_insert() {
    let mut s = HistoryStore::new();
    let id = s.insert(&text("text", "abc", "h"), 7).unwrap();
    let c = s.get(id).unwrap();
    assert_eq!(c.kind, "text");
    assert_eq!(c.content.as_deref(), Some("abc"));
    assert_eq!(c.byte_size, Some(3));
    assert!(s.get(id + 1).is_none());
    assert_eq!(s.last_issued_id(), id);
}

#[test]
fn startup_reconcile() {
    let mut s = HistoryStore::new();
    s.insert(&image("/i/a.png", "/i/a.thumb.png", "ha"), 10).unwrap();
    s.insert(&text("text", "b", "hb"), 20).unwrap();
    s.insert(&image("/i/c.png", "/i/c.thumb.png", "hc"), 30).unwrap();
    let files = vec![
        "/i/a.png".to_string(),
        "/i/a.thumb.png".to_string(),
        "/i/c.thumb.png".to_string(),
        "/i/stray.png".to_string(),
    ];
    let orphans = reconcile(&mut s, &vec![true, true, false], &files);
    assert_eq!(ids(&get_history(&s, None)), vec![2, 1]);
    assert_eq!(orphans, vec!["/i/c.thumb.png", "/i/stray.png"]);
}
