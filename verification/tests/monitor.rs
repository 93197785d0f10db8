use linux_clipboard::clipboard::{
    admit_image, image_step, payload_hash, read_payload, record_text, ImageAdmit, ImageStep, Payload,
};
use linux_clipboard::db::HistoryStore;
use linux_clipboard::images::{
    dims_storable, files_to_delete, image_file_names, orphan_files, render_image, rendered_image,
    SavedImage,
};
use linux_clipboard::models::Settings;
use linux_clipboard::state::{MonitorState, SUPPRESS_WINDOW_MS};
use linux_clipboard::util::{epoch_millis, hash_bytes, hash_text};

fn saved(size: i64) -> SavedImage {
    SavedImage {
        image_path: "/i/h.png".into(),
        thumb_path: "/i/h.thumb.png".into(),
        width: 2,
        height: 3,
        byte_size: size,
    }
}

#[test]
fn monitor_records_changes_once() {
    let mut m = MonitorState::new();
    assert!(m.observe("a", 0));
    assert!(!m.observe("a", 10));
    assert!(m.observe("b", 20));
    assert_eq!(m.last_seen().as_deref(), Some("b"));
}

#[test]
fn own_write_is_suppressed_within_window() {
    let mut m = MonitorState::new();
    m.note_own_write("mine".into(), 1000);
    assert!(!m.observe("mine", 1100));
    assert!(!m.observe("other", 1200));
    assert!(m.observe("third", 1300));
    let mut m = MonitorState::new();
    m.note_own_write("mine".into(), 1000);
    assert!(!m.observe("mine", 1000 + SUPPRESS_WINDOW_MS + 5));
    assert!(m.observe("other", 1000 + SUPPRESS_WINDOW_MS));
}

#[test]
fn suppression_flag() {
    let mut m = MonitorState::new();
    assert!(!m.consume_suppress(5));
    m.arm_suppress(5);
    assert!(m.consume_suppress(6));
    assert!(!m.consume_suppress(6));
    m.arm_suppress(5);
    assert!(!m.consume_suppress(5 + SUPPRESS_WINDOW_MS));
    m.set_last_seen(Some("x".into()));
    assert_eq!(m.last_seen().as_deref(), Some("x"));
}

#[test]
fn payloads_prefer_images() {
    match read_payload(Some((1, 1, vec![1, 2, 3, 4])), Some("t".into())) {
        Payload::Image { width, height, rgba, hash } => {
            assert_eq!((width, height), (1, 1));
            assert_eq!(rgba, vec![1, 2, 3, 4]);
            assert_eq!(hash, hash_bytes(&[1, 2, 3, 4]));
        }
        _ => panic!("expected an image"),
    }
    assert!(matches!(read_payload(None, Some("t".into())), Payload::Text(ref t) if t == "t"));
    assert!(matches!(read_payload(None, Some(String::new())), Payload::Empty));
    assert!(matches!(read_payload(None, None), Payload::Empty));
    assert_eq!(payload_hash(&Payload::Text("abc".into())), Some(hash_text("abc")));
    assert_eq!(payload_hash(&Payload::Empty), None);
}

#[test]
fn recording_text_dedups() {
    let mut s = HistoryStore::new();
    let settings = Settings::default();
    let h = hash_text("hello");
    let r = record_text(&mut s, &settings, "hello", &h, 10);
    assert!(r.refresh && r.gc.is_empty());
    assert_eq!(s.rows().len(), 1);
    assert_eq!(s.rows()[0].clip.kind, "text");
    assert_eq!(s.rows()[0].clip.byte_size, Some(5));
    let r = record_text(&mut s, &settings, "hello", &h, 20);
    assert!(r.refresh);
    assert_eq!(s.rows().len(), 1);
    assert_eq!(s.rows()[0].clip.last_used_at, 20);
    assert_eq!(s.rows()[0].clip.created_at, 10);
}

#[test]
fn recording_caps_the_history() {
    let mut s = HistoryStore::new();
    let mut settings = Settings::default();
    settings.history_cap = 2;
    for (i, t) in ["a", "b", "c"].iter().enumerate() {
        record_text(&mut s, &settings, t, &hash_text(t), 10 + i as i64);
    }
    let texts: Vec<String> = s.rows().iter().map(|r| r.clip.content.clone().unwrap()).collect();
    assert_eq!(texts, vec!["b", "c"]);
    let r = record_text(&mut s, &settings, "é", &hash_text("é"), 20);
    assert_eq!(r.gc, vec![(None, None)]);
    assert_eq!(s.rows().last().unwrap().clip.byte_size, Some(2));
}

#[test]
fn recording_images() {
    let mut s = HistoryStore::new();
    let mut settings = Settings::default();
    assert_eq!(image_step(&mut s, &settings, "h", 10), ImageStep::Save);
    settings.capture_images = false;
    assert_eq!(image_step(&mut s, &settings, "h", 10), ImageStep::Skip);
    settings.capture_images = true;
    settings.max_image_bytes = 100;
    assert!(matches!(admit_image(&mut s, &settings, &saved(101), "h", 10), ImageAdmit::Oversize));
    assert_eq!(s.rows().len(), 0);
    assert!(matches!(admit_image(&mut s, &settings, &saved(100), "h", 10), ImageAdmit::Recorded(ref gc) if gc.is_empty()));
    let c = &s.rows()[0].clip;
    assert_eq!(c.kind, "image");
    assert_eq!(c.image_path.as_deref(), Some("/i/h.png"));
    assert_eq!((c.width, c.height, c.byte_size), (Some(2), Some(3), Some(100)));
    assert_eq!(image_step(&mut s, &settings, "h", 50), ImageStep::Bumped);
    assert_eq!(s.rows()[0].clip.last_used_at, 50);
}

#[test]
fn image_encoding() {
    assert!(render_image("h", 0, 1, &[]).is_none());
    assert!(render_image("h", 2, 2, &[0; 15]).is_none());
    assert!(render_image("h", 2, 2, &[0; 17]).is_none());
    let img = render_image("abc", 2, 2, &[255; 16]).unwrap();
    assert_eq!(img.image_name, "abc.png");
    assert_eq!(img.thumb_name, "abc.thumb.png");
    assert_eq!(&img.png[..8], &[0x89, b'P', b'N', b'G', 0x0d, 0x0a, 0x1a, 0x0a]);
    assert_eq!(&img.thumb_png[..4], &[0x89, b'P', b'N', b'G']);
    assert_eq!(image_file_names("z"), ("z.png".to_string(), "z.thumb.png".to_string()));
    assert!(dims_storable(1, 1) && !dims_storable(0, 5));
}

#[test]
fn file_garbage_collection() {
    let gc = vec![
        (Some("/a.png".to_string()), Some("/a.thumb.png".to_string())),
        (None, None),
        (None, Some("/b.thumb.png".to_string())),
    ];
    assert_eq!(files_to_delete(&gc), vec!["/a.png", "/a.thumb.png", "/b.thumb.png"]);
    let files = vec!["/i/a.png".to_string(), "/i/x.png".to_string(), "/i/a.thumb.png".to_string()];
    let referenced = vec!["/i/a.png".to_string(), "/i/a.thumb.png".to_string()];
    assert_eq!(orphan_files(&files, &referenced), vec!["/i/x.png"]);
}

#[test]
fn rendered_image_needs_both_encodings() {
    let r = rendered_image("h", Some(vec![1]), Some(vec![2])).unwrap();
    assert_eq!((r.image_name.as_str(), r.thumb_name.as_str()), ("h.png", "h.thumb.png"));
    assert_eq!((r.png, r.thumb_png), (vec![1], vec![2]));
    assert!(rendered_image("h", None, Some(vec![2])).is_none());
    assert!(rendered_image("h", Some(vec![1]), None).is_none());
}

#[test]
fn epoch_millis_conversion() {
    assert_eq!(epoch_millis(None), 0);
    assert_eq!(epoch_millis(Some(1_700_000_000_123)), 1_700_000_000_123);
    assert_eq!(epoch_millis(Some(1u128 << 64)), 0);
}
