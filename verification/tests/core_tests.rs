use rune_kit::filesystem::{normalize_path, resolve_path, resolve_path_with_root};
use rune_kit::git::{check_conventional_format, validate_commit_message_content};
use rune_kit::sidecar::{parse_bool_word, parse_cli_args, parse_i64, sidecar_action, value_kind, SidecarAction, ValueKind};

#[test]
fn test_normalize_path() {
    assert_eq!(normalize_path("a/b/../c/./d"), "a/c/d");
    assert_eq!(normalize_path("./foo/bar/../../baz"), "baz");
    assert_eq!(normalize_path("a/b/c/../../../d"), "d");
}

#[test]
fn test_resolve_path_relative_prefix() {
    let p1 = resolve_path("./src/lib.rs", None).unwrap();
    assert_eq!(p1, "src/lib.rs");

    let p2 = resolve_path(".\\src\\lib.rs", None).unwrap();
    assert_eq!(p2, "src/lib.rs");
}

#[test]
fn test_resolve_path_strips_redundant_allowed_root() {
    let root = Some("D:/Projects/Public/rune/code-kit/test-dir/cookies");

    let p1 = resolve_path_with_root("index.html", root).unwrap();
    assert_eq!(p1, "D:/Projects/Public/rune/code-kit/test-dir/cookies/index.html");

    let p2 = resolve_path_with_root("images/screenshots", root).unwrap();
    assert_eq!(p2, "D:/Projects/Public/rune/code-kit/test-dir/cookies/images/screenshots");

    let p3 = resolve_path_with_root("./images/screenshots", root).unwrap();
    assert_eq!(p3, "D:/Projects/Public/rune/code-kit/test-dir/cookies/images/screenshots");

    let p4 = resolve_path_with_root(
        "D:/Projects/Public/rune/code-kit/test-dir/cookies/photo.png",
        root,
    )
    .unwrap();
    assert_eq!(p4, "D:/Projects/Public/rune/code-kit/test-dir/cookies/photo.png");

    let p5 = resolve_path_with_root("C:/Windows/System32", root);
    assert!(p5.is_err());
}

#[test]
fn resolve_path_refuses_escapes() {
    let root = Some("/srv/data");
    assert!(resolve_path_with_root("../etc/passwd", root).is_err());
    assert_eq!(resolve_path_with_root("a/../b", root).unwrap(), "/srv/data/b");
    assert_eq!(normalize_path(&normalize_path("x/./y/../z")), normalize_path("x/./y/../z"));
}

#[test]
fn commit_message_validation() {
    let msg = "feat(rune-memory): upgrade to v0.2.0 with observation support, search, and graph inspection";
    let ok = validate_commit_message_content(msg, 100, true);
    assert!(ok.valid);
    assert_eq!(ok.subject_length, 91);
    let short = validate_commit_message_content(msg, 72, true);
    assert!(!short.valid);
    assert!(short.issues.contains(&"Subject line exceeds 72 characters (actual: 91)".to_string()));
    let bad = validate_commit_message_content("bad commit message without type prefix", 72, true);
    assert!(!bad.valid);
    assert!(check_conventional_format("fix: a thing").is_ok());
    assert!(check_conventional_format("nope").is_err());
}

#[test]
fn cli_arguments() {
    let args: Vec<String> = ["--out-dir=/tmp", "--verbose", "--name", "x", "plain", "--flag", "-v", "--name=y"]
        .iter()
        .map(|s| s.to_string())
        .collect();
    let pairs = parse_cli_args(&args);
    let get = |k: &str| pairs.iter().find(|(a, _)| a == k).map(|(_, b)| b.clone());
    assert_eq!(get("out_dir"), Some("/tmp".to_string()));
    assert_eq!(get("verbose"), Some("true".to_string()));
    assert_eq!(get("name"), Some("y".to_string()));
    assert_eq!(get("flag"), Some("true".to_string()));
    assert_eq!(pairs.len(), 4);
}

#[test]
fn sidecar_routing_and_values() {
    assert_eq!(sidecar_action(Some("mcp_info"), false), SidecarAction::Info);
    assert_eq!(sidecar_action(Some("tools/list"), true), SidecarAction::ListTools);
    assert_eq!(sidecar_action(Some("tools/call"), false), SidecarAction::CallTool);
    assert_eq!(sidecar_action(None, true), SidecarAction::CallNamed);
    assert_eq!(
        sidecar_action(Some("ping"), false),
        SidecarAction::Unknown("Unknown method: ping".to_string())
    );
    assert_eq!(value_kind("integer"), ValueKind::Number);
    assert_eq!(value_kind("array"), ValueKind::Json);
    assert_eq!(value_kind("whatever"), ValueKind::Text);
    assert_eq!(parse_bool_word("YES"), Ok(true));
    assert_eq!(parse_bool_word("0"), Ok(false));
    assert_eq!(parse_bool_word("maybe"), Err("Failed to parse 'maybe' as boolean".to_string()));
    assert_eq!(parse_i64("-9223372036854775808"), Some(i64::MIN));
    assert_eq!(parse_i64("+42"), Some(42));
    assert_eq!(parse_i64("9223372036854775808"), None);
    assert_eq!(parse_i64("4x"), None);
    assert_eq!(parse_i64("-"), None);
}

#[test]
fn separators_become_forward_slashes() {
    assert_eq!(rune_kit::filesystem::normalize_separators("C:\\data\\logs\\a.txt"), "C:/data/logs/a.txt");
    assert_eq!(rune_kit::filesystem::normalize_separators("plain/path"), "plain/path");
    assert_eq!(rune_kit::filesystem::normalize_separators(""), "");
}

#[test]
fn normalized_paths_have_canonical_shape() {
    assert_eq!(normalize_path("a/./b/../../../c"), "../c");
    assert_eq!(normalize_path("/a/../../b/./c"), "/b/c");
    assert_eq!(normalize_path("./x/y/.."), "x");
    let q = normalize_path("../../p/q/../r");
    assert_eq!(q, "../../p/r");
    assert_eq!(normalize_path(&q), q);
}
