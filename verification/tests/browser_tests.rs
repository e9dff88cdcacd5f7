use rune_kit::browser::{
    capture_command, capture_path, click_command, get_session_path, is_pure_executable,
    navigate_command, query_command, required_arg, resolve_engine, route_browser_tool,
    select_command, stamped_name, tool_suffix, BrowserBinaryConfig, BrowserSessionConfig,
    BrowserTool, SessionInfo, SessionStore,
};

fn config(engine: &str) -> BrowserSessionConfig {
    BrowserSessionConfig {
        engine: engine.to_string(),
        session_id: None,
        browser_type: Some("auto".to_string()),
        cdp_port: 0,
        headed: false,
        output_dir: ".".to_string(),
    }
}

#[test]
fn operations_tests_test_unknown_tool_routing() {
    let res = route_browser_tool("non_existent_tool");
    assert!(res.is_err());
    assert_eq!(res.unwrap_err(), "Unknown tool: non_existent_tool");
    assert_eq!(route_browser_tool("browser_navigate"), Ok(BrowserTool::Navigate));
    assert_eq!(route_browser_tool("srv__browser_pdf"), Ok(BrowserTool::Pdf));
    assert_eq!(tool_suffix("a__b__c"), "c");
    assert_eq!(tool_suffix("plain"), "plain");
}

#[test]
fn test_empty_required_parameters() {
    let err = required_arg(Some(""), "url", true).unwrap_err();
    assert!(err.contains("cannot be empty"));
    let err = required_arg(Some("  "), "target", true).unwrap_err();
    assert!(err.contains("cannot be empty"));
    let err = required_arg(None, "script", true).unwrap_err();
    assert_eq!(err, "Missing 'script' parameter");
    assert_eq!(required_arg(Some(" "), "value", false), Ok(" ".to_string()));
}

#[test]
fn test_session_stop_with_invalid_session() {
    let mut store = SessionStore::new();
    let err = store.stop_session("nonexistent_session_12345", false).unwrap_err();
    assert!(err.contains("Failed to stop session"));
}

#[test]
fn session_store_round_trip() {
    let mut store = SessionStore::new();
    let id = store.save_session("s1", &config("cdp"), "t0", "t1");
    assert_eq!(id, "s1");
    let loaded: SessionInfo = store.load_session("s1").unwrap();
    assert_eq!(loaded.engine, "cdp");
    assert_eq!(loaded.status, "active");
    assert_eq!(loaded.created_at, "t0");
    assert_eq!(loaded.last_accessed, "t1");
    assert!(store.load_session("s2").is_none());
    assert!(store.stop_session("s1", false).is_ok());
    assert!(store.load_session("s1").is_none());
    assert!(store.stop_session("s1", false).is_err());
    assert!(store.stop_session("s1", true).is_ok());
}

#[test]
fn session_listing_merges_disk_and_memory() {
    let mut store = SessionStore::new();
    store.save_session("a", &config("agent-browser"), "t", "t");
    store.save_session("b", &config("agent-browser"), "t", "t");
    let disk = vec![SessionInfo {
        session_id: "b".to_string(),
        engine: "cdp".to_string(),
        url: String::new(),
        created_at: "d".to_string(),
        last_accessed: "d".to_string(),
        status: "stopped".to_string(),
    }];
    let listed = store.list_sessions(disk);
    let ids: Vec<&str> = listed.iter().map(|s| s.session_id.as_str()).collect();
    assert_eq!(ids, vec!["b", "a"]);
    assert_eq!(listed[0].engine, "cdp");
}

#[test]
fn session_start_uses_clock_names() {
    let mut store = SessionStore::new();
    let id = store.start_session(&config("agent-browser"));
    assert!(id.starts_with("session_"));
    assert!(store.load_session(&id).is_some());
}

#[test]
fn command_lines() {
    assert_eq!(
        navigate_command("https://x", Some("s"), "chrome", true),
        vec!["open", "https://x", "--session=s", "--browser=chrome", "--headed"]
    );
    assert_eq!(navigate_command("u", None, "auto", false), vec!["open", "u"]);
    assert_eq!(
        click_command("#b", None, true, true),
        vec!["click", "#b", "--double-click", "--new-tab"]
    );
    assert_eq!(
        select_command("#s", Some("k"), None, Some("L")),
        vec!["select", "#s", "--session=k", "--label=L"]
    );
    assert_eq!(
        capture_command("pdf", "/o/p.pdf", None, "landscape", true),
        vec!["pdf", "/o/p.pdf", "--landscape"]
    );
    assert_eq!(
        query_command("network", None, "url", Some("api"), "method", None),
        vec!["network", "--url=api"]
    );
}

#[test]
fn paths_names_and_engines() {
    assert_eq!(get_session_path("/base", "abc"), "/base/browser-sessions/abc.json");
    assert_eq!(get_session_path("", "abc"), "browser-sessions/abc.json");
    assert_eq!(capture_path("out", "shot.png"), "out/shot.png");
    assert_eq!(stamped_name("session_", 42, ""), "session_42");
    assert_eq!(stamped_name("page_", -7, ".pdf"), "page_-7.pdf");
    assert_eq!(resolve_engine(None, Some("cdp")), "cdp");
    assert_eq!(resolve_engine(None, None), "agent-browser");
    assert!(is_pure_executable("/usr/bin/agent-browser"));
    assert!(!is_pure_executable("/home/u/.BUN/bin/agent-browser"));
    assert!(!is_pure_executable("C:/tools/agent-browser.CMD"));
    let d = BrowserBinaryConfig::default();
    assert_eq!(d.platforms.len(), 3);
    assert_eq!(d.platforms[0].binary_name, "agent-browser.exe");
}

#[test]
fn started_session_stops_once() {
    let mut store = SessionStore::new();
    let sid = store.start_session(&config("agent-browser"));
    assert!(store.load_session(&sid).is_some());
    assert_eq!(store.stop_session(&sid, false), Ok(()));
    assert!(store.load_session(&sid).is_none());
    let err = store.stop_session(&sid, false).unwrap_err();
    assert!(err.contains("Failed to stop session"));
}
