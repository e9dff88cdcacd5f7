//! The fetch plugin: argument checks, the choice between raw text and
//! Markdown, character-based pagination, and the plugin's help resource and
//! prompts. Downloading the page is left to the caller.
use vstd::prelude::*;
use crate::text::{
    append_str, chars_to_string, contains_exec, contains_seq, slice_vec, starts_with,
    starts_with_exec, str_chars, trim_bounds, trim_seq, trim_start_seq,
};
use crate::markdown::{
    html_to_markdown, html_to_markdown_checked, html_to_markdown_spec, is_word, markdown_defined,
};

verus! {

/// The arguments of the `fetch` tool.
#[derive(Debug, Clone)]
pub struct FetchPayload {
    pub url: String,
    pub max_length: usize,
    pub start_index: usize,
    pub raw: bool,
    pub paginate: bool,
}

/// One page of fetched content.
#[derive(Debug, Clone)]
pub struct FetchResult {
    pub contents: String,
    pub total_characters: usize,
    pub start_index: usize,
    pub length: usize,
    pub has_more: bool,
    pub next_start_index: Option<usize>,
}

/// The page size used when the caller gives none.
pub fn default_max_length() -> (n: usize)
    ensures
        n == 50000,
{
    50000
}

/// Whether content looks like HTML: after leading whitespace it starts with
/// a doctype, `<html` or `<?xml`, or it holds both `<` and `</`, or `<body`,
/// or `<div`.
pub open spec fn is_html_spec(c: Seq<char>) -> bool {
    let t = trim_start_seq(c);
    ||| starts_with(t, "<!DOCTYPE"@)
    ||| starts_with(t, "<html"@)
    ||| starts_with(t, "<?xml"@)
    ||| (contains_seq(c, "<"@) && contains_seq(c, "</"@))
    ||| contains_seq(c, "<body"@)
    ||| contains_seq(c, "<div"@)
}

/// Whether content looks like HTML.
pub fn is_html(content: &str) -> (b: bool)
    ensures
        b == is_html_spec(content@),
{
    let v = str_chars(content);
    let (s, _e) = trim_bounds(&v);
    let t = slice_vec(&v, s, v.len());
    assert(t@ =~= v@.skip(s as int));
    starts_with_exec(&t, &str_chars("<!DOCTYPE")) || starts_with_exec(&t, &str_chars("<html"))
        || starts_with_exec(&t, &str_chars("<?xml")) || (contains_exec(&v, &str_chars("<"))
        && contains_exec(&v, &str_chars("</"))) || contains_exec(&v, &str_chars("<body"))
        || contains_exec(&v, &str_chars("<div"))
}

/// The text that is paginated: the Markdown of HTML content unless raw
/// content was asked for, else the content itself.
pub open spec fn fetch_text(raw: Seq<char>, is_raw: bool) -> Seq<char> {
    if !is_raw && is_html_spec(raw) {
        html_to_markdown_spec(raw)
    } else {
        raw
    }
}

/// Whether that text can be produced (the Markdown conversion runs through).
pub open spec fn fetch_text_defined(raw: Seq<char>, is_raw: bool) -> bool {
    !is_raw && is_html_spec(raw) ==> markdown_defined(raw)
}

/// Where a page starts: the requested index, at most the text's length.
pub open spec fn page_start(total: nat, start_index: nat) -> nat {
    if start_index < total {
        start_index
    } else {
        total
    }
}

/// Where a page ends: `max_length` characters on, at most the text's length.
pub open spec fn page_end(total: nat, start_index: nat, max_length: nat) -> nat {
    let e = page_start(total, start_index) + max_length;
    if e < total {
        e as nat
    } else {
        total
    }
}

/// Whether `process_content` can run on these arguments: the text can be
/// produced and the page end fits in a `usize`.
pub open spec fn process_defined(raw: Seq<char>, is_raw: bool, start_index: nat, max_length: nat) -> bool {
    &&& fetch_text_defined(raw, is_raw)
    &&& page_start(fetch_text(raw, is_raw).len(), start_index) + max_length <= usize::MAX
}

/// What `process_content` returns, field by field.
pub open spec fn fetch_result_matches(
    r: FetchResult,
    raw: Seq<char>,
    is_raw: bool,
    paginate: bool,
    start_index: nat,
    max_length: nat,
) -> bool {
    let text = fetch_text(raw, is_raw);
    let start = page_start(text.len(), start_index);
    let end = page_end(text.len(), start_index, max_length);
    &&& r.contents@ == text.subrange(start as int, end as int)
    &&& r.total_characters == text.len()
    &&& r.start_index == start
    &&& r.length == end - start
    &&& r.has_more == (end < text.len())
    &&& r.next_start_index == (if paginate && end < text.len() {
        Some(end as usize)
    } else {
        None
    })
}

/// Turns fetched content into one page of text: Markdown for HTML unless
/// `is_raw`, then the characters `start_index .. start_index + max_length`
/// (clamped to the text), with the total length, whether more follows and,
/// when paginating, where the next page starts.
pub fn process_content(
    raw_content: &str,
    is_raw: bool,
    paginate: bool,
    start_index: usize,
    max_length: usize,
) -> (r: FetchResult)
    requires
        process_defined(raw_content@, is_raw, start_index as nat, max_length as nat),
    ensures
        fetch_result_matches(r, raw_content@, is_raw, paginate, start_index as nat, max_length as nat),
{
    let text: Vec<char> = if !is_raw && is_html(raw_content) {
        let md = html_to_markdown(raw_content);
        str_chars(md.as_str())
    } else {
        str_chars(raw_content)
    };
    let total = text.len();
    let start = if start_index < total { start_index } else { total };
    let far = start + max_length;
    let end = if far < total { far } else { total };
    let sliced = slice_vec(&text, start, end);
    let length = sliced.len();
    let has_more = end < total;
    let next_start_index = if paginate && has_more { Some(end) } else { None };
    FetchResult {
        contents: chars_to_string(&sliced),
        total_characters: total,
        start_index: start,
        length,
        has_more,
        next_start_index,
    }
}

/// `process_content` where it is defined, `None` elsewhere (a Markdown
/// conversion that cannot run, or a page end past `usize::MAX`).
pub fn try_process_content(
    raw_content: &str,
    is_raw: bool,
    paginate: bool,
    start_index: usize,
    max_length: usize,
) -> (r: Option<FetchResult>)
    ensures
        match r {
            Some(x) => process_defined(raw_content@, is_raw, start_index as nat, max_length as nat)
                && fetch_result_matches(x, raw_content@, is_raw, paginate, start_index as nat, max_length as nat),
            None => !process_defined(raw_content@, is_raw, start_index as nat, max_length as nat),
        },
{
    let total: usize = if !is_raw && is_html(raw_content) {
        match html_to_markdown_checked(raw_content) {
            Some(md) => str_chars(md.as_str()).len(),
            None => return None,
        }
    } else {
        str_chars(raw_content).len()
    };
    let start = if start_index < total { start_index } else { total };
    if start > usize::MAX - max_length {
        return None;
    }
    Some(process_content(raw_content, is_raw, paginate, start_index, max_length))
}

} // verus!

verus! {

pub open spec fn missing_url_message() -> Seq<char> {
    "Missing required parameter 'url'. Please provide a valid HTTP or HTTPS URL (e.g. 'https://example.com')."@
}

pub open spec fn url_not_string_message() -> Seq<char> {
    "Parameter 'url' must be a string."@
}

pub open spec fn empty_url_message() -> Seq<char> {
    "Parameter 'url' cannot be empty. Please provide a valid HTTP or HTTPS URL."@
}

pub open spec fn bad_scheme_message(url: Seq<char>) -> Seq<char> {
    "Invalid URL '"@ + url + "': URL must start with 'http://' or 'https://'."@
}

/// The outcome of checking the `url` argument: absent (`None`), present but
/// not a string (`Some(None)`), or a string.
pub open spec fn check_fetch_url_spec(url: Option<Option<Seq<char>>>) -> Result<Seq<char>, Seq<char>> {
    match url {
        None => Err(missing_url_message()),
        Some(None) => Err(url_not_string_message()),
        Some(Some(u)) => {
            let t = trim_seq(u);
            if t.len() == 0 {
                Err(empty_url_message())
            } else if !starts_with(t, "http://"@) && !starts_with(t, "https://"@) {
                Err(bad_scheme_message(t))
            } else {
                Ok(t)
            }
        },
    }
}

pub open spec fn url_arg_view(url: Option<Option<&str>>) -> Option<Option<Seq<char>>> {
    match url {
        None => None,
        Some(None) => Some(None),
        Some(Some(s)) => Some(Some(s@)),
    }
}

pub open spec fn result_view(r: Result<String, String>) -> Result<Seq<char>, Seq<char>> {
    match r {
        Ok(s) => Ok(s@),
        Err(e) => Err(e@),
    }
}

/// Checks the `url` argument of the `fetch` tool and returns it trimmed:
/// it must be present, a string, not blank, and start with `http://` or
/// `https://`.
pub fn check_fetch_url(url: Option<Option<&str>>) -> (r: Result<String, String>)
    ensures
        result_view(r) == check_fetch_url_spec(url_arg_view(url)),
{
    match url {
        None => Err(String::from_str(
            "Missing required parameter 'url'. Please provide a valid HTTP or HTTPS URL (e.g. 'https://example.com').",
        )),
        Some(None) => Err(String::from_str("Parameter 'url' must be a string.")),
        Some(Some(u)) => {
            let v = str_chars(u);
            let t = crate::text::trim_vec(&v);
            if t.len() == 0 {
                return Err(String::from_str(
                    "Parameter 'url' cannot be empty. Please provide a valid HTTP or HTTPS URL.",
                ));
            }
            if !starts_with_exec(&t, &str_chars("http://")) && !starts_with_exec(
                &t,
                &str_chars("https://"),
            ) {
                let mut m: Vec<char> = Vec::new();
                append_str(&mut m, "Invalid URL '");
                crate::text::append_chars(&mut m, &t);
                append_str(&mut m, "': URL must start with 'http://' or 'https://'.");
                assert(m@ =~= bad_scheme_message(t@));
                return Err(chars_to_string(&m));
            }
            Ok(chars_to_string(&t))
        },
    }
}

pub open spec fn unknown_fetch_tool_message(name: Seq<char>) -> Seq<char> {
    "Unknown tool: '"@ + name + "'. Available tools: 'fetch'. Please check the tool name."@
}

/// Routes a tool call: only `fetch` is served.
pub fn check_fetch_tool(name: &str) -> (r: Result<(), String>)
    ensures
        match r {
            Ok(_) => name@ == "fetch"@,
            Err(e) => name@ != "fetch"@ && e@ == unknown_fetch_tool_message(name@),
        },
{
    let n = str_chars(name);
    if is_word(&n, "fetch") {
        Ok(())
    } else {
        let mut m: Vec<char> = Vec::new();
        append_str(&mut m, "Unknown tool: '");
        crate::text::append_chars(&mut m, &n);
        append_str(&mut m, "'. Available tools: 'fetch'. Please check the tool name.");
        assert(m@ =~= unknown_fetch_tool_message(name@));
        Err(chars_to_string(&m))
    }
}

/// A text resource served by a plugin.
#[derive(Debug, Clone)]
pub struct ResourceText {
    pub uri: String,
    pub mime_type: String,
    pub text: String,
}

pub open spec fn fetch_help_text() -> Seq<char> {
    "# Rune Fetch Plugin\n\nFetches web pages and extracts their contents as clean Markdown.\n\n## Features\n- Converts HTML into structured Markdown (headers, links, lists, code blocks)\n- Strips scripts, styles, and unwanted tags\n- Character-based pagination with `max_length`, `start_index`, and `paginate`\n- Option for `raw` content retrieval when exact HTML/text is needed."@
}

pub open spec fn unknown_resource_message(uri: Seq<char>) -> Seq<char> {
    "Unknown resource URI: '"@ + uri + "'. Available resources: 'rune://fetch/help'."@
}

/// The plugin's one resource, `rune://fetch/help`, a Markdown help page.
pub fn read_resource(uri: &str) -> (r: Result<ResourceText, String>)
    ensures
        match r {
            Ok(res) => uri@ == "rune://fetch/help"@ && res.uri@ == uri@ && res.mime_type@
                == "text/markdown"@ && res.text@ == fetch_help_text(),
            Err(e) => uri@ != "rune://fetch/help"@ && e@ == unknown_resource_message(uri@),
        },
{
    let u = str_chars(uri);
    if is_word(&u, "rune://fetch/help") {
        Ok(ResourceText {
            uri: String::from_str("rune://fetch/help"),
            mime_type: String::from_str("text/markdown"),
            text: String::from_str(
                "# Rune Fetch Plugin\n\nFetches web pages and extracts their contents as clean Markdown.\n\n## Features\n- Converts HTML into structured Markdown (headers, links, lists, code blocks)\n- Strips scripts, styles, and unwanted tags\n- Character-based pagination with `max_length`, `start_index`, and `paginate`\n- Option for `raw` content retrieval when exact HTML/text is needed.",
            ),
        })
    } else {
        let mut m: Vec<char> = Vec::new();
        append_str(&mut m, "Unknown resource URI: '");
        crate::text::append_chars(&mut m, &u);
        append_str(&mut m, "'. Available resources: 'rune://fetch/help'.");
        assert(m@ =~= unknown_resource_message(uri@));
        Err(chars_to_string(&m))
    }
}

/// A prompt: its description and the text of its one user message.
#[derive(Debug, Clone)]
pub struct PromptReply {
    pub description: String,
    pub text: String,
}

pub open spec fn summarize_text(url: Seq<char>) -> Seq<char> {
    if url.len() == 0 {
        "Please fetch the URL provided by the user using the 'fetch' tool, then summarize the key takeaways and main points in bullet format."@
    } else {
        "Please fetch '"@ + url
            + "' using the 'fetch' tool, then summarize the key takeaways and main points in bullet format."@
    }
}

pub open spec fn extract_text(url: Seq<char>) -> Seq<char> {
    if url.len() == 0 {
        "Please fetch the target URL using the 'fetch' tool and output the extracted Markdown content."@
    } else {
        "Please fetch '"@ + url
            + "' using the 'fetch' tool with Markdown extraction enabled, and format the output cleanly."@
    }
}

pub open spec fn unknown_prompt_message(name: Seq<char>) -> Seq<char> {
    "Unknown prompt: '"@ + name
        + "'. Available prompts: 'fetch_and_summarize', 'fetch_and_extract_markdown'."@
}

pub open spec fn opt_url(url: Option<&str>) -> Seq<char> {
    match url {
        Some(u) => trim_seq(u@),
        None => seq![],
    }
}

/// The plugin's prompts, `fetch_and_summarize` and
/// `fetch_and_extract_markdown`, each naming the trimmed `url` argument
/// when one is given.
pub fn get_prompt(name: &str, url: Option<&str>) -> (r: Result<PromptReply, String>)
    ensures
        match r {
            Ok(p) => (name@ == "fetch_and_summarize"@ && p.description@
                == "Fetch a web page and summarize its core content."@ && p.text@ == summarize_text(
                opt_url(url),
            )) || (name@ != "fetch_and_summarize"@ && name@ == "fetch_and_extract_markdown"@
                && p.description@ == "Fetch a URL and extract clean Markdown."@ && p.text@
                == extract_text(opt_url(url))),
            Err(e) => name@ != "fetch_and_summarize"@ && name@ != "fetch_and_extract_markdown"@
                && e@ == unknown_prompt_message(name@),
        },
{
    let u: Vec<char> = match url {
        Some(s) => crate::text::trim_vec(&str_chars(s)),
        None => Vec::new(),
    };
    assert(u@ =~= opt_url(url));
    let n = str_chars(name);
    if is_word(&n, "fetch_and_summarize") {
        let mut t: Vec<char> = Vec::new();
        if u.len() == 0 {
            append_str(
                &mut t,
                "Please fetch the URL provided by the user using the 'fetch' tool, then summarize the key takeaways and main points in bullet format.",
            );
        } else {
            append_str(&mut t, "Please fetch '");
            crate::text::append_chars(&mut t, &u);
            append_str(
                &mut t,
                "' using the 'fetch' tool, then summarize the key takeaways and main points in bullet format.",
            );
        }
        assert(t@ =~= summarize_text(u@));
        Ok(PromptReply {
            description: String::from_str("Fetch a web page and summarize its core content."),
            text: chars_to_string(&t),
        })
    } else if is_word(&n, "fetch_and_extract_markdown") {
        let mut t: Vec<char> = Vec::new();
        if u.len() == 0 {
            append_str(
                &mut t,
                "Please fetch the target URL using the 'fetch' tool and output the extracted Markdown content.",
            );
        } else {
            append_str(&mut t, "Please fetch '");
            crate::text::append_chars(&mut t, &u);
            append_str(
                &mut t,
                "' using the 'fetch' tool with Markdown extraction enabled, and format the output cleanly.",
            );
        }
        assert(t@ =~= extract_text(u@));
        Ok(PromptReply {
            description: String::from_str("Fetch a URL and extract clean Markdown."),
            text: chars_to_string(&t),
        })
    } else {
        let mut m: Vec<char> = Vec::new();
        append_str(&mut m, "Unknown prompt: '");
        crate::text::append_chars(&mut m, &n);
        append_str(
            &mut m,
            "'. Available prompts: 'fetch_and_summarize', 'fetch_and_extract_markdown'.",
        );
        assert(m@ =~= unknown_prompt_message(name@));
        Err(chars_to_string(&m))
    }
}

} // verus!

verus! {

/// Reads a text page by page from `start`, following each page's end,
/// and concatenates the pages.
pub open spec fn paged_text(text: Seq<char>, start: nat, max_length: nat) -> Seq<char>
    decreases text.len() - page_start(text.len(), start),
{
    let s = page_start(text.len(), start);
    let e = page_end(text.len(), start, max_length);
    if max_length == 0 || e >= text.len() {
        text.subrange(s as int, e as int)
    } else {
        text.subrange(s as int, e as int) + paged_text(text, e, max_length)
    }
}

/// A page lies inside the text and holds at most `max_length` characters.
pub proof fn law_page_within_text(total: nat, start_index: nat, max_length: nat)
    ensures
        page_start(total, start_index) <= page_end(total, start_index, max_length) <= total,
        page_end(total, start_index, max_length) - page_start(total, start_index) <= max_length,
        start_index <= total ==> page_start(total, start_index) == start_index,
{
}

/// The next page starts exactly where the previous one ended.
pub proof fn law_next_page_continues(total: nat, start_index: nat, max_length: nat)
    requires
        page_end(total, start_index, max_length) < total,
    ensures
        page_start(total, page_end(total, start_index, max_length)) == page_end(
            total,
            start_index,
            max_length,
        ),
{
}

/// Following the pages from any start with a positive page size gives back
/// the whole rest of the text, in order and without gaps or repeats.
pub proof fn law_paging_reads_rest_of_text(text: Seq<char>, start: nat, max_length: nat)
    requires
        max_length > 0,
    ensures
        paged_text(text, start, max_length) == text.skip(page_start(text.len(), start) as int),
    decreases text.len() - page_start(text.len(), start),
{
    let s = page_start(text.len(), start);
    let e = page_end(text.len(), start, max_length);
    if e >= text.len() {
        assert(text.subrange(s as int, e as int) =~= text.skip(s as int));
    } else {
        law_paging_reads_rest_of_text(text, e, max_length);
        assert(page_start(text.len(), e) == e);
        assert(text.subrange(s as int, e as int) + text.skip(e as int) =~= text.skip(s as int));
    }
}

/// In raw mode the content is paginated exactly as fetched.
pub proof fn law_raw_content_unchanged(raw: Seq<char>)
    ensures
        fetch_text(raw, true) == raw,
        fetch_text_defined(raw, true),
{
}

} // verus!
