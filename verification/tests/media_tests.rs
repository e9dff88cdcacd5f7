use rune_kit::audio;
use rune_kit::image;
use rune_kit::json::JsonValue;
use rune_kit::media;
use rune_kit::media::gallery_previews;

#[test]
fn test_extract_domain_and_stem() {
    // audio plugin
    assert_eq!(
        audio::extract_domain_and_stem("https://www.youtube.com/shorts/EqvgsORpbOU"),
        ("youtube.com".to_string(), "youtube".to_string())
    );
    assert_eq!(
        audio::extract_domain_and_stem("https://spotify.com/track/0HE9a9ndSFMCELuobaW5yK"),
        ("spotify.com".to_string(), "spotify".to_string())
    );
    // media plugin
    assert_eq!(
        media::extract_domain_and_stem("https://www.youtube.com/watch?v=q4BawYzkzC4"),
        ("youtube.com".to_string(), "youtube".to_string())
    );
    assert_eq!(
        media::extract_domain_and_stem("https://www.youtube.com/shorts/EqvgsORpbOU"),
        ("youtu.be".to_string(), "youtube".to_string())
    );
    assert_eq!(
        media::extract_domain_and_stem("https://x.com/user/status/123"),
        ("x.com".to_string(), "twitter".to_string())
    );
    assert_eq!(
        media::extract_domain_and_stem("https://vimeo.com/channels/123"),
        ("vimeo.com".to_string(), "vimeo".to_string())
    );
}

#[test]
fn operations_tests_test_extract_domain_and_stem() {
    assert_eq!(
        image::extract_domain_and_stem(
            "https://www.reddit.com/r/LocalLLaMA/comments/1ve4uoe/daniel_han_of_unsloth_validates_qwen3827b_will/"
        ),
        ("reddit.com".to_string(), "reddit".to_string())
    );
}

#[test]
fn test_resolve_dir_custom_path() {
    // audio and media plugins
    let base = r"D:\Projects\Practice\rune-kit\test-dir";
    assert_eq!(audio::resolve_dir(Some(base), None), base);
    assert_eq!(media::resolve_dir(Some(base), None), base);
    // browser plugin
    assert_eq!(
        rune_kit::browser::resolve_dir(Some(r"../../temp/browser"), None),
        r"../../temp/browser"
    );
}

#[test]
fn operations_tests_test_resolve_dir_custom_path() {
    let base = r"../code-kit/test-dir";
    assert_eq!(image::resolve_dir(Some(base), None, None), base);
}

#[test]
fn media_domain_of_plain_hosts() {
    assert_eq!(
        media::extract_domain_and_stem("  http://WWW.Example.ORG:8080/path "),
        ("example.org".to_string(), "example".to_string())
    );
    assert_eq!(
        media::extract_domain_and_stem("twitter.com/someone"),
        ("twitter.com".to_string(), "twitter".to_string())
    );
}

#[test]
fn media_resolve_dir_under_allowed_root() {
    assert_eq!(media::resolve_dir(Some("clips"), Some("/srv/out")), "/srv/out/clips");
    assert_eq!(media::resolve_dir(None, Some("/srv/out/")), "/srv/out/.");
    assert_eq!(media::resolve_dir(Some("/abs"), Some("/srv/out")), "/abs");
    assert_eq!(media::resolve_dir(None, None), ".");
}

#[test]
fn image_resolve_dir_prefers_param_then_env() {
    assert_eq!(image::resolve_dir(None, Some("envdir"), None), "envdir");
    assert_eq!(image::resolve_dir(Some("p"), Some("envdir"), None), "p");
    assert_eq!(image::resolve_dir(None, None, None), ".");
}

#[test]
fn image_svg_detection() {
    assert!(image::is_svg_file("logo.SVG"));
    assert!(image::is_svg_file("dir/a.svg"));
    assert!(!image::is_svg_file("a.svgz"));
    assert!(!image::is_svg_file("a.png"));
}

#[test]
fn cookie_candidates_order() {
    let c = media::cookie_file_candidates("youtube.com", "youtube");
    assert_eq!(
        c,
        vec![
            "youtube.com.txt".to_string(),
            "youtube.txt".to_string(),
            "youtube.com_cookies.txt".to_string(),
            "youtube_cookies.txt".to_string(),
            "youtube-cookies.txt".to_string(),
            "cookies-youtube.txt".to_string(),
        ]
    );
}

#[test]
fn gallery_previews_show_second_items() {
    let s = |x: &str| JsonValue::Str(x.to_string());
    let lines = vec![
        JsonValue::Array(vec![s("2"), s("https://a/1.jpg"), s("meta")]),
        JsonValue::Array(vec![s("only one")]),
        JsonValue::Str("plain".to_string()),
        JsonValue::Array(vec![s("3"), JsonValue::Null]),
        JsonValue::Array(vec![s("3"), s("https://a/2.png")]),
    ];
    assert_eq!(gallery_previews(&lines), vec!["https://a/1.jpg".to_string(), String::new(), "https://a/2.png".to_string()]);
    assert!(gallery_previews(&vec![]).is_empty());
}
