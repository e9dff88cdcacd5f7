use rune_kit::email::{
    attachment_wanted, flag_command, page_of_uids, reply_all_cc, reply_subject, search_criteria,
    sender_text, sort_uids_desc, split_addresses, uid_set,
};
use rune_kit::figma::{figma_prompt, figma_resource, hex_color, uuid_or_random, validate_tool_args, FigmaResource};
use rune_kit::fs_ops::{
    apply_edits, combine_file_reads, directory_listing, line_window, media_chunk_len, media_kind,
    media_paging, sized_entry_line, sized_listing, string_arg, text_tail, FileRead, MediaKind,
    SizedEntry, TextEdit,
};
use rune_kit::game_engine::{
    bundle_webgl_page, default_draw_call_limit, inspect_webgl, interactive_parts, plan_path,
    segment_nodes, update_streak, zone_phase, StreakStatus, ZonePhase,
};
use rune_kit::git::{env_flag, git_command, git_outcome, GitArgs};
use rune_kit::media::{dedup_urls, gallerydl_access_args, ytdlp_access_args};

fn s(v: &[&str]) -> Vec<String> {
    v.iter().map(|x| x.to_string()).collect()
}

#[test]
fn edits_apply_in_order() {
    let edits = vec![
        TextEdit { old_text: "a".to_string(), new_text: "b".to_string() },
        TextEdit { old_text: "bb".to_string(), new_text: "c".to_string() },
    ];
    let out = apply_edits("xab", &edits, "f.txt").unwrap();
    assert_eq!(out.text, "xc");
    assert_eq!(out.log, "--- chunk 1\n- a\n+ b\n--- chunk 2\n- bb\n+ c");
    let bad = vec![TextEdit { old_text: "zz".to_string(), new_text: "y".to_string() }];
    assert_eq!(
        apply_edits("abc", &bad, "f.txt").unwrap_err(),
        "Edit #1 failed: text to replace was not found in 'f.txt'"
    );
}

#[test]
fn line_windows_and_tails() {
    let w = line_window("l1\nl2\r\nl3\nl4\n", 1, 2);
    assert_eq!(w.content, "l2\nl3");
    assert_eq!(w.lines_returned, 2);
    assert!(w.has_more);
    assert_eq!(w.next_line_offset, Some(3));
    let w = line_window("l1\nl2", 5, 2);
    assert_eq!(w.content, "");
    assert!(!w.has_more);
    assert_eq!(text_tail("a\nb\nc", 2), ("b\nc".to_string(), 3));
    assert_eq!(text_tail("a\nb", 9), ("a\nb".to_string(), 2));
}

#[test]
fn media_reads() {
    assert_eq!(media_kind("image/png"), MediaKind::Image);
    assert_eq!(media_kind("audio/mpeg"), MediaKind::Audio);
    assert_eq!(media_kind("application/pdf"), MediaKind::Resource);
    assert_eq!(media_chunk_len(MediaKind::Resource, None), 512 * 1024);
    assert_eq!(media_chunk_len(MediaKind::Image, Some(10)), 10);
    assert_eq!(media_chunk_len(MediaKind::Audio, Some(usize::MAX)), 512 * 1024);
    let p = media_paging(100, 40, 30);
    assert!(p.has_more);
    assert_eq!(p.next_offset, Some(70));
    let p = media_paging(100, 90, 10);
    assert!(!p.has_more);
    assert_eq!(p.next_offset, None);
}

#[test]
fn listings_and_reports() {
    assert_eq!(string_arg(None, "path").unwrap_err(), "Missing 'path' parameter");
    assert_eq!(string_arg(Some(None), "path").unwrap_err(), "Parameter 'path' must be a string");
    let listing = directory_listing(&s(&["zeta", "alpha", "mid"]), &[false, false, true]);
    assert_eq!(listing, "[DIR]  mid\n[FILE] alpha\n[FILE] zeta");
    assert_eq!(
        sized_entry_line("a.txt", false, 42),
        format!("[FILE] {:<30} ({:>8} bytes)", "a.txt", 42)
    );
    let entries = vec![
        SizedEntry { name: "B".to_string(), is_dir: false, size: 1 },
        SizedEntry { name: "a".to_string(), is_dir: false, size: 5 },
        SizedEntry { name: "c".to_string(), is_dir: true, size: 5 },
    ];
    let by_name = sized_listing(&entries, false);
    assert!(by_name.starts_with("[FILE] a"));
    let by_size = sized_listing(&entries, true);
    let first: Vec<&str> = by_size.lines().collect();
    assert!(first[0].starts_with("[FILE] a"));
    assert_eq!(first[1], "[DIR]  c");
    let reads = vec![
        FileRead { label: "x".to_string(), content: Ok("hello".to_string()) },
        FileRead { label: "y".to_string(), content: Err("nope".to_string()) },
    ];
    assert_eq!(combine_file_reads(&reads), "--- x ---\nhello\n\n--- y ---\n[Error reading file: nope]");
}

#[test]
fn email_helpers() {
    assert_eq!(sort_uids_desc(&[3, 10, 7]), vec![10, 7, 3]);
    let (total, page) = page_of_uids(&[1, 2, 3, 4, 5], 2, 2);
    assert_eq!(total, 5);
    assert_eq!(page, vec![3, 2]);
    let (_, page) = page_of_uids(&[1, 2, 3], 0, 2);
    assert_eq!(page, vec![3, 2]);
    assert_eq!(uid_set(&[5, 3, 1]), "5,3,1");
    assert_eq!(search_criteria(None, None, None, None, None), "ALL");
    assert_eq!(
        search_criteria(Some("hi"), Some("bob"), None, None, Some("1-Jan-2024")),
        "TEXT \"hi\" FROM \"bob\" SINCE \"1-Jan-2024\""
    );
    assert_eq!(sender_text(Some("Bob"), Some("b@x.org")), "Bob <b@x.org>");
    assert_eq!(sender_text(None, None), "");
    assert_eq!(reply_subject("RE: hi"), "RE: hi");
    assert_eq!(reply_subject("hi"), "Re: hi");
    assert_eq!(flag_command("star"), Ok("+FLAGS (\\Flagged)".to_string()));
    assert_eq!(flag_command("zap"), Err("Unsupported action 'zap'".to_string()));
    assert!(attachment_wanted(2, "A.PDF", None, Some("a.pdf")));
    assert!(!attachment_wanted(2, "a.pdf", Some(1), Some("a.pdf")));
    assert_eq!(split_addresses(" a@x, ,b@y ,"), s(&["a@x", "b@y"]));
    assert_eq!(reply_all_cc(&s(&["me@x", "c@x", "from@x"]), "me@x", "from@x"), s(&["c@x"]));
}

#[test]
fn git_helpers() {
    let none = GitArgs { target: None, message: None, files: None, max_count: None, branch_name: None, revision: None };
    assert_eq!(git_command("git_log", &none).unwrap(), s(&["log", "-n10", "--oneline", "--decorate"]));
    assert_eq!(git_command("git_add", &none).unwrap(), s(&["add", "."]));
    assert_eq!(git_command("git_diff", &none).unwrap(), s(&["diff", "HEAD"]));
    assert_eq!(git_command("git_commit", &none).unwrap_err(), "Missing 'message' argument");
    let blank = GitArgs { message: Some("  ".to_string()), ..none.clone() };
    assert_eq!(git_command("git_commit", &blank).unwrap_err(), "Parameter 'message' cannot be empty");
    assert_eq!(git_command("git_push", &none).unwrap_err(), "Unknown git tool: git_push");
    assert_eq!(git_outcome(true, "  \n", ""), Ok("OK (no output)".to_string()));
    assert_eq!(git_outcome(false, " out ", "  "), Err("Git error: out".to_string()));
    assert!(env_flag("YES"));
    assert!(!env_flag("no"));
}

#[test]
fn figma_helpers() {
    assert_eq!(hex_color(255, 255, 255, 255), "#ffffff");
    assert_eq!(hex_color(255, 0, 0, 128), "#ff000080");
    assert_eq!(hex_color(0, 128, 255, 255), "#0080ff");
    assert_eq!(uuid_or_random(255), "req_ff");
    assert_eq!(uuid_or_random(0), "req_0");
    let req = s(&["x", "y", "width", "height"]);
    assert!(validate_tool_args("create_rectangle", &req, &s(&["x", "y", "width", "height"]), &s(&["x"])).is_ok());
    let err = validate_tool_args("create_rectangle", &req, &s(&["x"]), &s(&["x"])).unwrap_err();
    assert!(err.contains("requires parameter"));
    assert_eq!(err, "Tool 'create_rectangle' requires parameter 'y'. Ensure it is provided.");
    assert!(validate_tool_args("set_image_fill", &[], &[], &s(&["imageUrl", "imagePath"])).is_err());
    assert!(validate_tool_args("set_image_fill", &[], &[], &s(&["imageUrl"])).is_ok());
    assert_eq!(figma_resource("rune://figma/styles"), Ok(FigmaResource::Styles));
    assert!(figma_resource("rune://figma/x").unwrap_err().contains("Unknown resource URI"));
    assert!(figma_prompt("design_strategy").unwrap().text.starts_with("1. Start with Document Structure"));
    assert!(figma_prompt("nope").unwrap_err().contains("Unknown prompt"));
}

#[test]
fn game_engine_helpers() {
    assert!(plan_path(1, false).unwrap_err().contains("at least 2"));
    let p = plan_path(3, false).unwrap();
    assert_eq!((p.segments, p.sample_count, p.vertex_budget), (2, 20, 160));
    assert_eq!(plan_path(2, true).unwrap().segments, 2);
    assert_eq!(segment_nodes(0, 3, false), (0, 0, 1, 2));
    assert_eq!(segment_nodes(1, 3, false), (0, 1, 2, 2));
    assert_eq!(segment_nodes(0, 2, true), (1, 0, 1, 0));
    assert_eq!(interactive_parts(&s(&["wheel_fl", "roof", "door_l"])), s(&["wheel_fl", "door_l"]));
    let (st, msg) = update_streak(StreakStatus { active: true, count: 2 }, true, false);
    assert_eq!(st, StreakStatus { active: false, count: 0 });
    assert!(msg.unwrap().starts_with("Streak broken"));
    let (st, msg) = update_streak(StreakStatus { active: false, count: 0 }, false, true);
    assert_eq!(st, StreakStatus { active: true, count: 1 });
    assert!(msg.is_none());
    assert_eq!(zone_phase("station", "dock"), ZonePhase::Docked);
    assert!(ZonePhase::Docked.doors_open());
    assert!(!ZonePhase::Docked.can_accelerate());
    assert_eq!(zone_phase("hazard", "dock").name(), "nominal");
    let page = bundle_webgl_page(&s(&["a()", "b()"]), None);
    assert!(page.starts_with("<!DOCTYPE html>"));
    assert!(page.contains("a()\n\nb()"));
    assert!(page.contains("--accent: #E06D53"));
    let r = inspect_webgl(&page, default_draw_call_limit());
    assert!(r.has_threejs);
    assert_eq!(r.script_tags, 2);
    assert_eq!(r.estimated_draw_calls, 65);
    assert!(r.pass_status);
    let r = inspect_webgl("<canvas></canvas> new WebGLRenderer()", 5);
    assert_eq!(r.estimated_draw_calls, 12);
    assert_eq!(r.warnings.len(), 2);
    assert_eq!(r.warnings[0], "Estimated draw calls (12) exceed limit (5)");
}

#[test]
fn media_access_arguments() {
    assert_eq!(
        ytdlp_access_args(Some(("--cookies".to_string(), "c.txt".to_string())), Some("web"), Some("http://p")),
        s(&["--cookies", "c.txt", "--extractor-args", "youtube:player_client=web", "--proxy", "http://p", "--geo-bypass"])
    );
    assert_eq!(ytdlp_access_args(None, None, None), s(&["--geo-bypass"]));
    assert_eq!(gallerydl_access_args(None, Some("p")), s(&["--proxy", "p"]));
    assert_eq!(dedup_urls(&s(&["u1", "u2", "u1", "u3", "u2"])), s(&["u1", "u2", "u3"]));
}

#[test]
fn paging_reads_listing_newest_first_without_gaps() {
    let uids = [5u32, 9, 1, 7, 3];
    let mut read = Vec::new();
    for page in 1..=4 {
        let (total, ids) = page_of_uids(&uids, page, 2);
        assert_eq!(total, 5);
        read.extend(ids);
    }
    assert_eq!(read, vec![9, 7, 5, 3, 1]);
    assert_eq!(page_of_uids(&uids, 3, 2).1, vec![1]);
    assert_eq!(page_of_uids(&uids, 4, 2).1, Vec::<u32>::new());
}
