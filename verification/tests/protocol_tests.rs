use rune_kit::args::{bool_arg, bool_arg2, parse_count, split_list, str_arg, str_arg2, str_list_arg, u64_arg, u64_arg2};
use rune_kit::figma_relay::{
    cli_flag_value, command_envelope, dotenv_entries, figma_channel, figma_ws_url, init_channel, init_ws_url,
    join_channel_target, join_message, joined_channel_reply, nonblank_trimmed, relay_reply, relay_result,
    timeout_message,
};
use rune_kit::json::{int_number, JsonNumber, JsonValue};
use rune_kit::mhb::{helper_failure, mhb_base_url, mhb_endpoint, preview_variables, reply_error, route_mhb_tool, template_id_arg, MhbTool};
use rune_kit::pdk::{check_tool_definitions, invalid_type_cases, mock_invalid_value, mock_valid_value, ToolDefinition};
use rune_kit::sidecar::{call_request, format_response, parse_cli_args, raw_arguments, RawArgument};

fn st(s: &str) -> JsonValue {
    JsonValue::Str(s.to_string())
}

fn n(text: &str, channel: u8) -> JsonValue {
    JsonValue::Number(JsonNumber { text: text.to_string(), channel })
}

fn obj(members: Vec<(&str, JsonValue)>) -> JsonValue {
    JsonValue::Object(members.into_iter().map(|(k, v)| (k.to_string(), v)).collect())
}

fn strings(v: &[&str]) -> Vec<String> {
    v.iter().map(|x| x.to_string()).collect()
}

#[test]
fn test_mhb_missing_template_id_validation() {
    let res = template_id_arg(&obj(vec![]), true);
    assert!(res.is_err());
    assert!(res.unwrap_err().contains("Missing 'templateId' parameter"));
}

#[test]
fn test_mhb_empty_template_id_validation() {
    let res = template_id_arg(&obj(vec![("templateId", st("   "))]), true);
    assert!(res.is_err());
    assert!(res.unwrap_err().contains("Parameter 'templateId' cannot be empty"));
}

#[test]
fn mhb_routing_urls_and_replies() {
    assert_eq!(route_mhb_tool("non_existent_tool"), Err("Unknown tool: non_existent_tool".to_string()));
    assert_eq!(route_mhb_tool("mhb_get_template"), Ok(MhbTool::GetTemplate));
    assert_eq!(template_id_arg(&obj(vec![("template_id", st(" "))]), false), Ok(" ".to_string()));
    assert_eq!(template_id_arg(&obj(vec![("templateId", n("5", 255))]), false), Err("Missing 'templateId' parameter".to_string()));
    assert_eq!(mhb_base_url(&obj(vec![]), None, None), "https://api.modesthumanbrands.com");
    assert_eq!(mhb_base_url(&obj(vec![("base_url", st("http://x"))]), Some("http://m"), None), "http://x");
    assert_eq!(mhb_base_url(&obj(vec![("baseUrl", n("1", 255)), ("base_url", st("http://x"))]), None, Some("http://b")), "http://b");
    assert_eq!(mhb_endpoint("http://h", MhbTool::GetTemplate, "t1"), "http://h/api/interaction/email/template/t1");
    assert_eq!(mhb_endpoint("http://h", MhbTool::RenderPreview, ""), "http://h/api/interaction/email/template/preview");
    assert_eq!(preview_variables(&obj(vec![])), obj(vec![]));
    assert_eq!(helper_failure(false, "  ", ""), Some("rune-mhb-mconnect-native exited with failure".to_string()));
    assert_eq!(helper_failure(false, "  ", "boom"), Some("boom".to_string()));
    assert_eq!(helper_failure(false, "{}", "boom"), None);
    assert_eq!(reply_error(&obj(vec![("error", st("bad"))])), Some("bad".to_string()));
}

#[test]
fn figma_configuration() {
    let args = strings(&["prog", "--ws-url", "  ", "--ws-url", " ws://a:1 ", "--channel"]);
    assert_eq!(cli_flag_value(&args, "--ws-url"), Some("ws://a:1".to_string()));
    assert_eq!(cli_flag_value(&args, "--channel"), None);
    assert_eq!(cli_flag_value(&strings(&["--channel", "x"]), "--channel"), None);
    assert_eq!(nonblank_trimmed(Some("  v ")), Some("v".to_string()));
    assert_eq!(nonblank_trimmed(Some("   ")), None);
    assert_eq!(figma_ws_url(None, None, Some("4000")), "ws://localhost:4000");
    assert_eq!(figma_ws_url(None, None, None), "ws://localhost:3055");
    assert_eq!(figma_ws_url(Some("ws://c"), Some("ws://e"), None), "ws://c");
    assert_eq!(figma_channel(None, None), "");
    let entries = dotenv_entries("# comment\nFIGMA_CHANNEL = \"abc\"\nEMPTY=''\nNOEQ\n  KEY='v=1'\r\n");
    assert_eq!(entries, vec![("FIGMA_CHANNEL".to_string(), "abc".to_string()), ("KEY".to_string(), "v=1".to_string())]);
    let params = obj(vec![("env", obj(vec![("ws_url", st(" ws://x ")), ("channel", st("  "))]))]);
    assert_eq!(init_ws_url(Some(&params)), Some("ws://x".to_string()));
    assert_eq!(init_channel(Some(&params)), None);
    let params = obj(vec![("initializationOptions", obj(vec![("FIGMA_WS_URL", n("3", 255)), ("wsUrl", st("ws://y"))]))]);
    assert_eq!(init_ws_url(Some(&params)), None);
}

#[test]
fn figma_relay_messages() {
    assert_eq!(join_message("c1", "init_join"), obj(vec![("type", st("join")), ("channel", st("c1")), ("id", st("init_join"))]));
    let env = command_envelope("c1", "req_1", "get_selection", obj(vec![]));
    assert_eq!(
        env,
        obj(vec![
            ("type", st("message")),
            ("channel", st("c1")),
            ("message", obj(vec![("id", st("req_1")), ("command", st("get_selection")), ("params", obj(vec![]))])),
        ])
    );
    let reply = obj(vec![("message", obj(vec![("id", st("req_1")), ("result", n("7", 255))]))]);
    assert_eq!(relay_reply(&reply), Some(("req_1".to_string(), Ok(n("7", 255)))));
    let failed = obj(vec![("id", st("req_2")), ("message", obj(vec![("error", st("nope"))]))]);
    assert_eq!(relay_reply(&failed), Some(("req_2".to_string(), Err("nope".to_string()))));
    let bare = obj(vec![("id", st("req_3")), ("ok", JsonValue::Bool(true))]);
    assert_eq!(relay_reply(&bare), Some(("req_3".to_string(), Ok(bare_clone()))));
    assert_eq!(relay_reply(&obj(vec![("id", n("1", 255))])), None);
    assert_eq!(join_channel_target("join_channel", &obj(vec![("channel", st("c9"))])), Some("c9".to_string()));
    assert_eq!(join_channel_target("join_channel", &obj(vec![])), None);
    assert_eq!(joined_channel_reply("c9"), obj(vec![("message", st("Joined channel 'c9'"))]));
    let node = obj(vec![("type", st("VECTOR"))]);
    assert_eq!(relay_result("get_node_info", node), obj(vec![("type", st("VECTOR"))]));
    let frame = obj(vec![("type", st("FRAME")), ("visible", JsonValue::Bool(true))]);
    assert_eq!(relay_result("read_my_design", frame), obj(vec![("type", st("FRAME"))]));
    assert_eq!(
        timeout_message("ping", "ws://h", "c"),
        "Command 'ping' timed out after 30s. Ensure cursor-talk-to-figma-socket is running at 'ws://h' and TalkToFigma in Figma is open in channel 'c'."
    );
}

fn bare_clone() -> JsonValue {
    obj(vec![("id", st("req_3")), ("ok", JsonValue::Bool(true))])
}

#[test]
fn sidecar_responses_and_requests() {
    assert_eq!(
        format_response(Some(n("1", 255)), Ok(st("x"))),
        obj(vec![("jsonrpc", st("2.0")), ("id", n("1", 255)), ("result", st("x"))])
    );
    assert_eq!(
        format_response(Some(st("a")), Err("bad".to_string())),
        obj(vec![
            ("jsonrpc", st("2.0")),
            ("id", st("a")),
            ("error", obj(vec![("code", n("-32000", 0)), ("message", st("bad"))])),
        ])
    );
    assert_eq!(format_response(None, Err("e".to_string())), obj(vec![("status", st("error")), ("error", st("e"))]));
    assert_eq!(format_response(None, Ok(JsonValue::Null)), obj(vec![("status", st("success")), ("result", JsonValue::Null)]));
    let params = obj(vec![("name", st("t")), ("arguments", obj(vec![("a", st("b"))]))]);
    assert_eq!(call_request(Some(&params), None, None), ("t".to_string(), obj(vec![("a", st("b"))])));
    let pair = JsonValue::Array(vec![st("u"), JsonValue::Null]);
    assert_eq!(call_request(Some(&pair), None, None), ("u".to_string(), JsonValue::Null));
    assert_eq!(call_request(None, Some("v"), None), ("v".to_string(), obj(vec![])));
    assert_eq!(call_request(None, None, Some(st("ignored"))), (String::new(), obj(vec![])));
    assert_eq!(int_number(-32000), n("-32000", 0));
}

#[test]
fn argument_readers() {
    let args = obj(vec![
        ("repoPath", st("/r")),
        ("limit", n("25", 255)),
        ("ratio", n("2.5", 255)),
        ("neg", n("-3", 0)),
        ("dryRun", JsonValue::Bool(true)),
        ("files", JsonValue::Array(vec![st("a"), n("1", 255), st("b")])),
    ]);
    assert_eq!(str_arg(&args, "repoPath"), Some("/r".to_string()));
    assert_eq!(str_arg2(&args, "repoPath", "repo_path"), Some("/r".to_string()));
    assert_eq!(str_arg2(&args, "limit", "repo_path"), None);
    assert_eq!(u64_arg(&args, "limit"), Some(25));
    assert_eq!(u64_arg(&args, "ratio"), None);
    assert_eq!(u64_arg(&args, "neg"), None);
    assert_eq!(u64_arg2(&args, "max", "limit"), Some(25));
    assert_eq!(bool_arg(&args, "dryRun"), Some(true));
    assert_eq!(bool_arg2(&args, "x", "dry_run"), None);
    assert_eq!(str_list_arg(&args, "files"), Some(strings(&["a", "b"])));
    assert_eq!(str_list_arg(&args, "limit"), None);
    assert_eq!(split_list(" a, ,b ,"), strings(&["a", "b"]));
    assert_eq!(parse_count("+42"), Some(42));
    assert_eq!(parse_count("18446744073709551616"), None);
}

fn tool(name: &str, description: &str, schema: JsonValue) -> ToolDefinition {
    ToolDefinition { name: name.to_string(), description: description.to_string(), input_schema: schema }
}

#[test]
fn tool_definition_contract() {
    let good = tool(
        "read_file",
        "Reads a file from disk",
        obj(vec![
            ("type", st("object")),
            ("properties", obj(vec![("path", obj(vec![("type", st("string")), ("description", st("p"))]))])),
        ]),
    );
    assert_eq!(check_tool_definitions(&[good]), Ok(()));
    assert_eq!(check_tool_definitions(&[]), Err("Plugin must export at least one tool".to_string()));
    let bad_name = tool("ReadFile", "Reads a file from disk", obj(vec![("type", st("object"))]));
    assert_eq!(check_tool_definitions(&[bad_name]), Err("Tool 'ReadFile' must be lowercase snake_case".to_string()));
    let short = tool("read", "short", obj(vec![("type", st("object"))]));
    assert_eq!(check_tool_definitions(&[short]), Err("Tool 'read' description is too short or missing".to_string()));
    let not_object = tool("read", "Reads a file from disk", obj(vec![("type", st("array"))]));
    assert_eq!(
        check_tool_definitions(&[not_object]),
        Err("Tool 'read' input_schema must be of type 'object'".to_string())
    );
    let untyped = tool(
        "read",
        "Reads a file from disk",
        obj(vec![("type", st("object")), ("properties", obj(vec![("path", obj(vec![("description", st("p"))]))]))]),
    );
    assert_eq!(check_tool_definitions(&[untyped]), Err("Tool 'read' property 'path' must specify a type".to_string()));

    assert_eq!(mock_valid_value("path", &obj(vec![])), st("mock_path"));
    assert_eq!(mock_valid_value("n", &obj(vec![("type", st("integer"))])), n("1", 255));
    assert_eq!(mock_valid_value("m", &obj(vec![("enum", JsonValue::Array(vec![st("fast"), st("slow")]))])), st("fast"));
    assert_eq!(mock_valid_value("m", &obj(vec![("enum", JsonValue::Array(vec![]))])), st(""));
    assert_eq!(mock_invalid_value(&obj(vec![("type", st("string"))])), n("123456", 255));
    assert_eq!(mock_invalid_value(&obj(vec![("type", st("weird"))])), JsonValue::Bool(true));
    let t = tool(
        "read",
        "Reads a file from disk",
        obj(vec![
            ("type", st("object")),
            ("properties", obj(vec![("flag", obj(vec![("type", st("boolean"))])), ("path", obj(vec![]))])),
        ]),
    );
    assert_eq!(
        invalid_type_cases(&t),
        vec![
            ("flag".to_string(), obj(vec![("flag", st("invalid_bool"))])),
            ("path".to_string(), obj(vec![("path", n("123456", 255))])),
        ]
    );
}

fn account(preset: Option<&str>, email: &str, password: &str, imap: Option<&str>, smtp: Option<&str>) -> rune_kit::email::AccountArgs {
    rune_kit::email::AccountArgs {
        preset: preset.map(|s| s.to_string()),
        email: Some(email.to_string()),
        password: Some(password.to_string()),
        display_name: None,
        imap_host: imap.map(|s| s.to_string()),
        smtp_host: smtp.map(|s| s.to_string()),
        imap_port: None,
        smtp_port: None,
        imap_tls: None,
        smtp_tls: None,
    }
}

#[test]
fn test_resolve_account_config_preset_hostinger() {
    let args = account(Some("hostinger"), "user@mybusiness.com", "secret_password", None, None);
    let config = rune_kit::email::resolve_account_config(&args).unwrap();
    assert_eq!(config.imap_host, "imap.hostinger.com");
    assert_eq!(config.imap_port, 993);
    assert_eq!(config.smtp_host, "smtp.hostinger.com");
    assert_eq!(config.smtp_port, 465);
}

#[test]
fn test_resolve_account_config_preset_gmail() {
    let args = account(Some("gmail"), "user@gmail.com", "app_password_16_chars", None, None);
    let config = rune_kit::email::resolve_account_config(&args).unwrap();
    assert_eq!(config.imap_host, "imap.gmail.com");
    assert_eq!(config.smtp_host, "smtp.gmail.com");
}

#[test]
fn test_resolve_account_config_custom() {
    let args = account(None, "agent@customserver.net", "pass", Some("mail.customserver.net"), Some("mail.customserver.net"));
    let config = rune_kit::email::resolve_account_config(&args).unwrap();
    assert_eq!(config.imap_host, "mail.customserver.net");
    assert_eq!(config.smtp_host, "mail.customserver.net");
}

fn git_args(message: Option<&str>) -> rune_kit::git::GitArgs {
    rune_kit::git::GitArgs {
        target: None,
        message: message.map(|s| s.to_string()),
        files: None,
        max_count: None,
        branch_name: None,
        revision: None,
    }
}

#[test]
fn test_git_missing_commit_message_rejection() {
    let res = rune_kit::git::git_command("git_commit", &git_args(None));
    assert!(res.is_err());
    assert!(res.unwrap_err().contains("Missing 'message' argument"));
}

#[test]
fn test_validate_commit_message_exact_length_check() {
    let msg = "feat(rune-memory): upgrade to v0.2.0 with observation support, search, and graph inspection";
    let res = rune_kit::git::validate_commit_message_content(msg, 100, true);
    assert!(res.valid);
    assert_eq!(res.subject_length, 91);
    assert_eq!(res.issues.len(), 0);

    let res_default = rune_kit::git::validate_commit_message_content(msg, 72, true);
    assert!(!res_default.valid);
    assert_eq!(res_default.subject_length, 91);
    assert!(res_default.issues[0].contains("Subject line exceeds 72 characters (actual: 91)"));
}

#[test]
fn test_validate_commit_message_conventional_rejection() {
    let res = rune_kit::git::validate_commit_message_content("bad commit message without type prefix", 72, true);
    assert!(!res.valid);
    assert!(!res.issues.is_empty());
}

#[test]
fn test_execute_tool_validation_failure() {
    let res = rune_kit::figma::validate_tool_args(
        "create_rectangle",
        &strings(&["x", "y", "width", "height"]),
        &strings(&["x"]),
        &strings(&["x"]),
    );
    assert!(res.is_err());
    assert!(res.unwrap_err().contains("requires parameter"));
}

#[test]
fn test_unknown_tool_rejection() {
    let res = rune_kit::figma::unknown_figma_tool("unknown_figma_tool");
    assert!(res.contains("Unknown tool"));
}

#[test]
fn test_generate_path_network_insufficient_nodes() {
    let res = rune_kit::game_engine::plan_path(1, false).expect_err("Should fail with insufficient nodes");
    assert!(res.contains("at least 2 nodes"));
}

#[test]
fn test_session_stop_without_session_id() {
    let err = rune_kit::browser::required_arg(None, "session_id", true).unwrap_err();
    assert!(err.contains("session_id"));
}

#[test]
fn test_navigate_empty_url() {
    let err = rune_kit::browser::required_arg(Some(""), "url", true).unwrap_err();
    assert!(err.contains("agent-browser") || err.contains("cannot be empty"));
}

#[test]
fn probes_match_declared_types() {
    let kind = |v: &JsonValue| match v {
        JsonValue::Null => "null",
        JsonValue::Bool(_) => "boolean",
        JsonValue::Number(_) => "number",
        JsonValue::Str(_) => "string",
        JsonValue::Array(_) => "array",
        JsonValue::Object(_) => "object",
    };
    for (t, expected) in [
        ("string", "string"),
        ("number", "number"),
        ("integer", "number"),
        ("boolean", "boolean"),
        ("array", "array"),
        ("object", "object"),
    ] {
        let spec = obj(vec![("type", st(t))]);
        assert_eq!(kind(&mock_valid_value("p", &spec)), expected, "{}", t);
        assert_ne!(kind(&mock_invalid_value(&spec)), expected, "{}", t);
    }
}

#[test]
fn raw_arguments_prefer_command_line_then_environment() {
    let cli = parse_cli_args(&strings(&["--path=/tmp", "--depth", "3", "--extra-flag=x", "--depth=4"]));
    let props = vec![
        ("path".to_string(), "string".to_string()),
        ("depth".to_string(), "integer".to_string()),
        ("mode".to_string(), "string".to_string()),
        ("quiet".to_string(), "boolean".to_string()),
    ];
    let env = vec![Some("/env".to_string()), Some("9".to_string()), Some("fast".to_string()), None];
    let raw = raw_arguments(&cli, &props, &env);
    let arg = |name: &str, raw: &str, t: Option<&str>| RawArgument {
        name: name.to_string(),
        raw: raw.to_string(),
        declared_type: t.map(|x| x.to_string()),
    };
    assert_eq!(
        raw,
        vec![
            arg("path", "/tmp", Some("string")),
            arg("depth", "4", Some("integer")),
            arg("mode", "fast", Some("string")),
            arg("extra_flag", "x", None),
        ]
    );
}
