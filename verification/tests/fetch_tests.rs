use rune_kit::fetch::{
    check_fetch_tool, check_fetch_url, default_max_length, get_prompt, is_html, process_content,
    read_resource, try_process_content,
};
use rune_kit::markdown::{
    attribute_slice_ok, clean_markdown_whitespace, decode_html_entities, ensure_blank_line,
    ensure_newline, extract_attribute, html_to_markdown, html_to_markdown_checked,
    markdown_convertible,
};

const TEST_PAGE_BODY: &str = "<!DOCTYPE html>\n\
<html><head><title>Test Page</title><style>body { color: red; }</style></head>\n\
<body>\n\
<h1>Hello Rune</h1>\n\
<p>Visit <a href=\"https://example.com\">Example</a> today.</p>\n\
<script>console.log('strip me');</script>\n\
</body></html>";

#[test]
fn test_html_to_markdown_elements() {
    let html = "<h2>Title</h2><p>Some <b>bold</b> and <i>italic</i> with <code>inline code</code>.</p>\
                <ul><li>Item 1</li><li>Item 2</li></ul>";
    let md = html_to_markdown(html);

    assert!(md.contains("## Title"));
    assert!(md.contains("**bold**"));
    assert!(md.contains("*italic*"));
    assert!(md.contains("`inline code`"));
    assert!(md.contains("* Item 1"));
    assert!(md.contains("* Item 2"));
}

#[test]
fn test_fetch_execution_with_mock_fetcher() {
    let url = check_fetch_url(Some(Some("https://example.com/test"))).unwrap();
    assert_eq!(url, "https://example.com/test");
    let res = process_content(TEST_PAGE_BODY, false, false, 0, default_max_length());
    let contents = res.contents.as_str();
    assert!(contents.contains("# Hello Rune"));
    assert!(contents.contains("[Example](https://example.com)"));
    assert!(!contents.contains("console.log"));
    assert!(!contents.contains("color: red"));
    assert_eq!(res.has_more, false);
}

#[test]
fn test_fetch_missing_url_parameter() {
    let res = check_fetch_url(None);
    assert!(res.is_err());
    assert!(res.unwrap_err().contains("Missing required parameter 'url'"));
}

#[test]
fn test_fetch_empty_url() {
    let res = check_fetch_url(Some(Some("   ")));
    assert!(res.is_err());
    assert!(res.unwrap_err().contains("Parameter 'url' cannot be empty"));
}

#[test]
fn test_fetch_invalid_protocol() {
    let res = check_fetch_url(Some(Some("ftp://example.com")));
    assert!(res.is_err());
    assert!(res.unwrap_err().contains("must start with 'http://' or 'https://'"));
}

#[test]
fn fetch_url_not_a_string() {
    assert_eq!(
        check_fetch_url(Some(None)),
        Err("Parameter 'url' must be a string.".to_string())
    );
    assert_eq!(
        check_fetch_url(Some(Some("  http://a.b  "))),
        Ok("http://a.b".to_string())
    );
    assert_eq!(
        check_fetch_url(Some(Some(" ftp://x "))),
        Err("Invalid URL 'ftp://x': URL must start with 'http://' or 'https://'.".to_string())
    );
}

#[test]
fn test_process_content_raw_mode() {
    let html = "<h1>Heading</h1>";
    let result = process_content(html, true, false, 0, 1000);
    assert_eq!(result.contents, "<h1>Heading</h1>");
}

#[test]
fn test_process_content_pagination() {
    let sample = "0123456789abcdef";

    let res_no_paginate = process_content(sample, true, false, 0, 5);
    assert_eq!(res_no_paginate.contents, "01234");
    assert_eq!(res_no_paginate.has_more, true);
    assert!(res_no_paginate.next_start_index.is_none());

    let res_paginate = process_content(sample, true, true, 0, 5);
    assert_eq!(res_paginate.contents, "01234");
    assert_eq!(res_paginate.has_more, true);
    assert_eq!(res_paginate.next_start_index, Some(5));
}

#[test]
fn pagination_pages_follow_each_other() {
    let sample = "0123456789abcdef";
    let mut start = 0;
    let mut collected = String::new();
    loop {
        let page = process_content(sample, true, true, start, 5);
        assert_eq!(page.start_index, start);
        assert_eq!(page.total_characters, 16);
        assert_eq!(page.length, page.contents.chars().count());
        collected.push_str(&page.contents);
        match page.next_start_index {
            Some(n) => start = n,
            None => break,
        }
    }
    assert_eq!(collected, sample);
}

#[test]
fn pagination_past_the_end_and_multibyte() {
    let page = process_content("héllo wörld", true, true, 100, 3);
    assert_eq!(page.start_index, 11);
    assert_eq!(page.contents, "");
    assert_eq!(page.length, 0);
    assert!(!page.has_more);
    assert_eq!(page.next_start_index, None);

    let page = process_content("héllo wörld", true, true, 1, 4);
    assert_eq!(page.contents, "éllo");
    assert_eq!(page.next_start_index, Some(5));
}

#[test]
fn try_process_content_refuses_overflowing_pages() {
    assert!(try_process_content("abc", true, false, 1, usize::MAX).is_none());
    let ok = try_process_content("abc", true, false, 0, usize::MAX).unwrap();
    assert_eq!(ok.contents, "abc");
}

#[test]
fn is_html_detection() {
    assert!(is_html("  <!DOCTYPE html><p>x"));
    assert!(is_html("<html>"));
    assert!(is_html("<?xml version='1.0'?>"));
    assert!(is_html("a <b> c </b>"));
    assert!(is_html("text <div"));
    assert!(!is_html("plain text"));
    assert!(!is_html("a < b"));
}

#[test]
fn test_read_resource() {
    let res = read_resource("rune://fetch/help").unwrap();
    assert!(res.text.contains("Rune Fetch Plugin"));
    assert_eq!(res.mime_type, "text/markdown");

    let err = read_resource("rune://fetch/unknown");
    assert!(err.is_err());
    assert!(err.unwrap_err().contains("Unknown resource URI"));
}

#[test]
fn test_get_prompt() {
    let res = get_prompt("fetch_and_summarize", Some("https://example.com")).unwrap();
    assert!(res.text.contains("https://example.com"));

    let err = get_prompt("invalid_prompt", Some("https://example.com"));
    assert!(err.is_err());
    assert!(err.unwrap_err().contains("Unknown prompt"));
}

#[test]
fn prompts_without_url() {
    let res = get_prompt("fetch_and_extract_markdown", None).unwrap();
    assert_eq!(
        res.text,
        "Please fetch the target URL using the 'fetch' tool and output the extracted Markdown content."
    );
    assert_eq!(res.description, "Fetch a URL and extract clean Markdown.");
    let res = get_prompt("fetch_and_summarize", Some("   ")).unwrap();
    assert!(res.text.starts_with("Please fetch the URL provided by the user"));
}

#[test]
fn test_unknown_tool_routing() {
    let res = check_fetch_tool("non_existent");
    assert!(res.is_err());
    assert!(res.unwrap_err().contains("Unknown tool: 'non_existent'"));
    assert!(check_fetch_tool("fetch").is_ok());
}

#[test]
fn entity_decoding() {
    assert_eq!(decode_html_entities("a &amp; b &lt;c&gt;"), "a & b <c>");
    assert_eq!(decode_html_entities("&quot;&apos;&nbsp;&copy;&mdash;&ndash;"), "\"' ©—–");
    assert_eq!(decode_html_entities("&#65;&#x42;&#X43;"), "ABC");
    assert_eq!(decode_html_entities("&#xD800;"), "&#xD800;");
    assert_eq!(decode_html_entities("&bogus; & alone"), "&bogus; & alone");
    assert_eq!(decode_html_entities("&abcdefghijkl;"), "&abcdefghijk" .to_string() + "l;");
    assert_eq!(decode_html_entities("&amp"), "&amp");
}

#[test]
fn whitespace_cleanup() {
    assert_eq!(clean_markdown_whitespace("  a  \n\n\n  b \r\n\n"), "a\n\nb");
    assert_eq!(clean_markdown_whitespace("\n\n x"), "x");
    assert_eq!(clean_markdown_whitespace(""), "");
}

#[test]
fn newline_helpers() {
    let mut s = String::from("abc");
    ensure_newline(&mut s);
    assert_eq!(s, "abc\n");
    ensure_newline(&mut s);
    assert_eq!(s, "abc\n");
    let mut e = String::new();
    ensure_newline(&mut e);
    assert_eq!(e, "");

    let mut t = String::from("para  \n ");
    ensure_blank_line(&mut t);
    assert_eq!(t, "para\n\n");
    let mut w = String::from("  \n");
    ensure_blank_line(&mut w);
    assert_eq!(w, "  \n");
}

#[test]
fn attribute_extraction() {
    assert_eq!(
        extract_attribute("a HREF=\"x.html\" class=y", "href"),
        Some("x.html".to_string())
    );
    assert_eq!(extract_attribute("a href='q'", "href"), Some("q".to_string()));
    assert_eq!(extract_attribute("a href=  plain>rest", "href"), Some("plain".to_string()));
    assert_eq!(extract_attribute("a href=\"open", "href"), None);
    assert_eq!(extract_attribute("a name=x", "href"), None);
    assert_eq!(extract_attribute("a href=", "href"), None);
    assert!(attribute_slice_ok("a href=x", "href"));
}

#[test]
fn markdown_structure() {
    let md = html_to_markdown("<ol><li>one</li><li>two</li></ol><hr><blockquote>q</blockquote><pre>x</pre>");
    assert_eq!(md, "1. one\n2. two\n\n---\n\n> q\n\n```\nx\n\n```");
    let md = html_to_markdown("<a>bare</a> <a href=u>t</a><br>next");
    assert_eq!(md, "[bare] [t](u)\nnext");
    let md = html_to_markdown("<svg><script>x</script>y</svg>z <noscript/>w");
    assert_eq!(md, "z w");
    assert!(markdown_convertible("<a href=\"x\">y</a>"));
    assert_eq!(html_to_markdown_checked("<p>a &amp; b</p>"), Some("a & b".to_string()));
}

#[test]
fn markdown_lines_are_tidy() {
    let r = rune_kit::markdown::html_to_markdown("  <p>  one  </p>\n\n\n\n<div>two   \n   three</div>\n\n  ");
    assert_eq!(r, r.trim());
    assert!(r.split('\n').all(|l| l == l.trim()));
    assert!(!r.contains("\n\n\n"));
}

#[test]
fn tidy_text_is_its_own_markdown() {
    let s = "first line\n\nsecond line\nthird";
    assert_eq!(rune_kit::markdown::html_to_markdown(s), s);
}

#[test]
fn skipped_elements_vanish_after_a_prefix() {
    for t in ["script", "style", "svg", "noscript"] {
        let with = format!("<h1>Title</h1>intro<{t}>var x = 1;</{t}> tail");
        assert_eq!(rune_kit::markdown::html_to_markdown(&with), rune_kit::markdown::html_to_markdown("<h1>Title</h1>intro tail"));
    }
}
