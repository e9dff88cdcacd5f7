use rune_kit::fs_ops::{is_excluded, media_chunk, media_read_len, search_hit, MediaKind};
use rune_kit::markdown::decode_html_entities;

fn strings(v: &[&str]) -> Vec<String> {
    v.iter().map(|x| x.to_string()).collect()
}

#[test]
fn exclusion_globs_match_names() {
    assert!(is_excluded(&strings(&["*.log", "target"]), "app.log"));
    assert!(is_excluded(&strings(&["*.log", "target"]), "target"));
    assert!(!is_excluded(&strings(&["*.log", "target"]), "app.txt"));
    assert!(!is_excluded(&[], "anything"));
}

#[test]
fn search_hits_match_pattern_and_skip_excluded() {
    assert!(search_hit("*.rs", &[], "main.rs"));
    assert!(!search_hit("*.rs", &[], "main.py"));
    assert!(!search_hit("*.rs", &strings(&["main*"]), "main.rs"));
    assert!(search_hit("**/*.rs", &[], "src/lib.rs"));
}

#[test]
fn media_chunks_carry_base64_and_mime() {
    let c = media_chunk("photo.png", b"hello");
    assert_eq!(c.data, "aGVsbG8=");
    assert_eq!(c.mime, "image/png");
    assert_eq!(c.kind, MediaKind::Image);
    let a = media_chunk("song.mp3", &[0xff, 0xfb, 0x90]);
    assert_eq!(a.data, "//uQ");
    assert_eq!(a.kind, MediaKind::Audio);
    let r = media_chunk("notes.unknownext", b"");
    assert_eq!(r.data, "");
    assert_eq!(r.mime, "application/octet-stream");
    assert_eq!(r.kind, MediaKind::Resource);
}

#[test]
fn media_read_length_follows_the_guessed_type() {
    let (m, n) = media_read_len("shot.png", None);
    assert_eq!(m, "image/png");
    assert_eq!(n, 20 * 1024 * 1024);
    let (m, n) = media_read_len("track.mp3", None);
    assert_eq!(m, "audio/mpeg");
    assert_eq!(n, 512 * 1024);
    let (m, n) = media_read_len("big.jpg", Some(30 * 1024 * 1024));
    assert_eq!(m, "image/jpeg");
    assert_eq!(n, 20 * 1024 * 1024);
    let (m, n) = media_read_len("data.bin", Some(1000));
    assert_eq!(m, "application/octet-stream");
    assert_eq!(n, 1000);
}

#[test]
fn named_entities_need_alphanumeric_names() {
    assert_eq!(decode_html_entities("a&amp;b"), "a&b");
    assert_eq!(decode_html_entities("&lt;p&gt;"), "<p>");
    assert_eq!(decode_html_entities("&a b;"), "&a b;");
}
