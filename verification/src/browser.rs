//! The browser plugin's decisions: where sessions and captures are kept,
//! which executables may be run, how a tool name is routed, which engine
//! serves a call, the command lines handed to the `agent-browser` CLI, and
//! the in-memory session store. Running the CLI, the clock and the disk are
//! left to the caller.
use vstd::prelude::*;
use crate::text::{
    append_chars, append_str, chars_to_string, contains_exec, contains_seq, ends_with,
    ends_with_exec, lowercase_vec, str_chars,
};
use crate::filesystem::{opt_str_view, path_join, path_join_pub};
use crate::markdown::is_word;

verus! {

/// How a browser session was started.
#[derive(Debug, Clone)]
pub struct BrowserSessionConfig {
    pub engine: String,
    pub session_id: Option<String>,
    pub browser_type: Option<String>,
    pub cdp_port: u16,
    pub headed: bool,
    pub output_dir: String,
}

/// A stored browser session.
#[derive(Debug, Clone)]
pub struct SessionInfo {
    pub session_id: String,
    pub engine: String,
    pub url: String,
    pub created_at: String,
    pub last_accessed: String,
    pub status: String,
}

/// A message from the page's console.
#[derive(Debug, Clone)]
pub struct ConsoleMessage {
    pub level: String,
    pub text: String,
    pub timestamp: String,
    pub source: String,
}

/// Where the `agent-browser` executable is published.
#[derive(Debug, Clone)]
pub struct BrowserBinaryConfig {
    pub binary_name: String,
    pub download_url: String,
    pub platforms: Vec<PlatformConfig>,
}

/// The executable's name and download location on one operating system.
#[derive(Debug, Clone)]
pub struct PlatformConfig {
    pub os: String,
    pub binary_name: String,
    pub download_url: String,
}

pub open spec fn release_url() -> Seq<char> {
    "https://github.com/vercel-labs/agent-browser/releases/latest/download/agent-browser"@
}

impl Default for BrowserBinaryConfig {
    fn default() -> (r: Self)
        ensures
            r.binary_name@ == "agent-browser"@,
            r.download_url@ == release_url(),
            r.platforms@.len() == 3,
            r.platforms@[0].os@ == "windows"@,
            r.platforms@[0].binary_name@ == "agent-browser.exe"@,
            r.platforms@[0].download_url@ == release_url() + ".exe"@,
            r.platforms@[1].os@ == "linux"@,
            r.platforms@[1].binary_name@ == "agent-browser"@,
            r.platforms@[1].download_url@ == release_url() + "-linux"@,
            r.platforms@[2].os@ == "macos"@,
            r.platforms@[2].binary_name@ == "agent-browser"@,
            r.platforms@[2].download_url@ == release_url() + "-macos"@,
    {
        let mut base: Vec<char> = Vec::new();
        append_str(
            &mut base,
            "https://github.com/vercel-labs/agent-browser/releases/latest/download/agent-browser",
        );
        let mut win = base.clone();
        append_str(&mut win, ".exe");
        let mut lin = base.clone();
        append_str(&mut lin, "-linux");
        let mut mac = base.clone();
        append_str(&mut mac, "-macos");
        let mut platforms: Vec<PlatformConfig> = Vec::new();
        platforms.push(
            PlatformConfig {
                os: String::from_str("windows"),
                binary_name: String::from_str("agent-browser.exe"),
                download_url: chars_to_string(&win),
            },
        );
        platforms.push(
            PlatformConfig {
                os: String::from_str("linux"),
                binary_name: String::from_str("agent-browser"),
                download_url: chars_to_string(&lin),
            },
        );
        platforms.push(
            PlatformConfig {
                os: String::from_str("macos"),
                binary_name: String::from_str("agent-browser"),
                download_url: chars_to_string(&mac),
            },
        );
        BrowserBinaryConfig {
            binary_name: String::from_str("agent-browser"),
            download_url: chars_to_string(&base),
            platforms,
        }
    }
}

/// The output directory: the one given, else the one configured in the
/// environment (read by the caller), else `.`.
pub open spec fn browser_dir_spec(dir_param: Option<Seq<char>>, env_dir: Option<Seq<char>>) -> Seq<char> {
    match dir_param {
        Some(d) => d,
        None => match env_dir {
            Some(e) => e,
            None => "."@,
        },
    }
}

/// Chooses the output directory.
pub fn resolve_dir(dir_param: Option<&str>, env_dir: Option<&str>) -> (r: String)
    ensures
        r@ == browser_dir_spec(opt_str_view(dir_param), opt_str_view(env_dir)),
{
    match dir_param {
        Some(d) => String::from_str(d),
        None => match env_dir {
            Some(e) => String::from_str(e),
            None => String::from_str("."),
        },
    }
}

/// `<base>/browser-sessions/<id>.json`, joined as `PathBuf::join` does.
pub open spec fn session_path_spec(base: Seq<char>, session_id: Seq<char>) -> Seq<char> {
    path_join(path_join(base, "browser-sessions"@), session_id + ".json"@)
}

/// Where a session is stored on disk.
pub fn get_session_path(base: &str, session_id: &str) -> (r: String)
    ensures
        r@ == session_path_spec(base@, session_id@),
{
    let b = str_chars(base);
    let dir = path_join_pub(&b, &str_chars("browser-sessions"));
    let mut file = str_chars(session_id);
    append_str(&mut file, ".json");
    let p = path_join_pub(&dir, &file);
    chars_to_string(&p)
}

/// Whether a path, lower-cased, names a script or package-manager shim
/// rather than a native executable: it mentions `.bun` or `node_modules`,
/// or ends in `.cmd`, `.bat`, `.ps1` or `.js`.
pub open spec fn is_shim_path(lower: Seq<char>) -> bool {
    ||| contains_seq(lower, ".bun"@)
    ||| contains_seq(lower, "node_modules"@)
    ||| ends_with(lower, ".cmd"@)
    ||| ends_with(lower, ".bat"@)
    ||| ends_with(lower, ".ps1"@)
    ||| ends_with(lower, ".js"@)
}

/// Whether a located `agent-browser` may be run: any path on a Unix host
/// that is not a shim.
pub fn is_pure_executable(path: &str) -> (b: bool)
    ensures
        b == !is_shim_path(crate::text::lowercase_spec(path@)),
{
    let p = str_chars(path);
    let l = lowercase_vec(&p);
    !(contains_exec(&l, &str_chars(".bun")) || contains_exec(&l, &str_chars("node_modules"))
        || ends_with_exec(&l, &str_chars(".cmd")) || ends_with_exec(&l, &str_chars(".bat"))
        || ends_with_exec(&l, &str_chars(".ps1")) || ends_with_exec(&l, &str_chars(".js")))
}

} // verus!

verus! {

/// Position of the last `__` in `s`, or -1.
pub open spec fn last_double_underscore(s: Seq<char>) -> int
    decreases s.len(),
{
    if s.len() < 2 {
        -1
    } else if s[s.len() - 2] == '_' && s.last() == '_' {
        s.len() - 2
    } else {
        last_double_underscore(s.drop_last())
    }
}

/// A tool name without a router prefix: what follows the last `__`.
pub open spec fn tool_suffix_spec(s: Seq<char>) -> Seq<char> {
    let p = last_double_underscore(s);
    if p >= 0 {
        s.skip(p + 2)
    } else {
        s
    }
}

proof fn lemma_last_double_underscore(s: Seq<char>)
    ensures
        last_double_underscore(s) == -1 || 0 <= last_double_underscore(s) <= s.len() - 2,
    decreases s.len(),
{
    if s.len() >= 2 && !(s[s.len() - 2] == '_' && s.last() == '_') {
        lemma_last_double_underscore(s.drop_last());
    }
}

/// Strips a router prefix (`server__tool` becomes `tool`).
pub fn tool_suffix(name: &str) -> (r: String)
    ensures
        r@ == tool_suffix_spec(name@),
{
    let v = str_chars(name);
    let mut end = v.len();
    assert(v@.take(end as int) =~= v@);
    while end >= 2 && !(v[end - 2] == '_' && v[end - 1] == '_')
        invariant
            end <= v.len(),
            last_double_underscore(v@) == last_double_underscore(v@.take(end as int)),
        decreases end,
    {
        assert(v@.take(end as int).drop_last() =~= v@.take(end - 1));
        end -= 1;
    }
    proof {
        lemma_last_double_underscore(v@);
    }
    if end >= 2 {
        let out = crate::text::slice_vec(&v, end, v.len());
        assert(out@ =~= v@.skip(end as int));
        chars_to_string(&out)
    } else {
        String::from_str(name)
    }
}

/// The tools of the browser plugin.
#[derive(Debug, Clone, Copy, PartialEq, Eq)]
pub enum BrowserTool {
    SessionStart,
    SessionStop,
    SessionList,
    Navigate,
    Type,
    Click,
    Fill,
    SelectOption,
    Hover,
    ExecuteScript,
    Screenshot,
    Pdf,
    ConsoleMessages,
    NetworkRequests,
    CdpConnect,
    CdpRequest,
    CdpDisconnect,
}

/// The tool a (prefix-free) name selects.
pub open spec fn browser_tool_spec(n: Seq<char>) -> Option<BrowserTool> {
    if n == "browser_session_start"@ {
        Some(BrowserTool::SessionStart)
    } else if n == "browser_session_stop"@ {
        Some(BrowserTool::SessionStop)
    } else if n == "browser_session_list"@ {
        Some(BrowserTool::SessionList)
    } else if n == "browser_navigate"@ {
        Some(BrowserTool::Navigate)
    } else if n == "browser_type"@ {
        Some(BrowserTool::Type)
    } else if n == "browser_click"@ {
        Some(BrowserTool::Click)
    } else if n == "browser_fill"@ {
        Some(BrowserTool::Fill)
    } else if n == "browser_select_option"@ {
        Some(BrowserTool::SelectOption)
    } else if n == "browser_hover"@ {
        Some(BrowserTool::Hover)
    } else if n == "browser_execute_script"@ {
        Some(BrowserTool::ExecuteScript)
    } else if n == "browser_screenshot"@ {
        Some(BrowserTool::Screenshot)
    } else if n == "browser_pdf"@ {
        Some(BrowserTool::Pdf)
    } else if n == "browser_console_messages"@ {
        Some(BrowserTool::ConsoleMessages)
    } else if n == "browser_network_requests"@ {
        Some(BrowserTool::NetworkRequests)
    } else if n == "browser_cdp_connect"@ {
        Some(BrowserTool::CdpConnect)
    } else if n == "browser_cdp_request"@ {
        Some(BrowserTool::CdpRequest)
    } else if n == "browser_cdp_disconnect"@ {
        Some(BrowserTool::CdpDisconnect)
    } else {
        None
    }
}

fn tool_of(n: &[char]) -> (r: Option<BrowserTool>)
    ensures
        r == browser_tool_spec(n@),
{
    if is_word(n, "browser_session_start") {
        Some(BrowserTool::SessionStart)
    } else if is_word(n, "browser_session_stop") {
        Some(BrowserTool::SessionStop)
    } else if is_word(n, "browser_session_list") {
        Some(BrowserTool::SessionList)
    } else if is_word(n, "browser_navigate") {
        Some(BrowserTool::Navigate)
    } else if is_word(n, "browser_type") {
        Some(BrowserTool::Type)
    } else if is_word(n, "browser_click") {
        Some(BrowserTool::Click)
    } else if is_word(n, "browser_fill") {
        Some(BrowserTool::Fill)
    } else if is_word(n, "browser_select_option") {
        Some(BrowserTool::SelectOption)
    } else if is_word(n, "browser_hover") {
        Some(BrowserTool::Hover)
    } else if is_word(n, "browser_execute_script") {
        Some(BrowserTool::ExecuteScript)
    } else if is_word(n, "browser_screenshot") {
        Some(BrowserTool::Screenshot)
    } else if is_word(n, "browser_pdf") {
        Some(BrowserTool::Pdf)
    } else if is_word(n, "browser_console_messages") {
        Some(BrowserTool::ConsoleMessages)
    } else if is_word(n, "browser_network_requests") {
        Some(BrowserTool::NetworkRequests)
    } else if is_word(n, "browser_cdp_connect") {
        Some(BrowserTool::CdpConnect)
    } else if is_word(n, "browser_cdp_request") {
        Some(BrowserTool::CdpRequest)
    } else if is_word(n, "browser_cdp_disconnect") {
        Some(BrowserTool::CdpDisconnect)
    } else {
        None
    }
}

/// Routes a tool call by name, a router prefix ignored; an unknown name is
/// refused with `Unknown tool: <name>`.
pub fn route_browser_tool(name: &str) -> (r: Result<BrowserTool, String>)
    ensures
        match browser_tool_spec(tool_suffix_spec(name@)) {
            Some(t) => r == Ok::<BrowserTool, String>(t),
            None => r matches Err(e) && e@ == "Unknown tool: "@ + tool_suffix_spec(name@),
        },
{
    let s = tool_suffix(name);
    let sv = str_chars(s.as_str());
    match tool_of(&sv) {
        Some(t) => Ok(t),
        None => {
            let mut m: Vec<char> = Vec::new();
            append_str(&mut m, "Unknown tool: ");
            append_chars(&mut m, &sv);
            Err(chars_to_string(&m))
        },
    }
}

/// The engine of a call: the one asked for, else the stored session's,
/// else `agent-browser`.
pub open spec fn engine_spec(asked: Option<Seq<char>>, saved: Option<Seq<char>>) -> Seq<char> {
    match asked {
        Some(e) => e,
        None => match saved {
            Some(e) => e,
            None => "agent-browser"@,
        },
    }
}

/// Chooses the engine of a call.
pub fn resolve_engine(asked: Option<&str>, saved: Option<&str>) -> (r: String)
    ensures
        r@ == engine_spec(opt_str_view(asked), opt_str_view(saved)),
{
    match asked {
        Some(e) => String::from_str(e),
        None => match saved {
            Some(e) => String::from_str(e),
            None => String::from_str("agent-browser"),
        },
    }
}

/// Whether calls go straight to the DevTools protocol.
pub fn is_cdp_engine(engine: &str) -> (b: bool)
    ensures
        b == (engine@ == "cdp"@),
{
    is_word(&str_chars(engine), "cdp")
}

pub open spec fn missing_param_message(name: Seq<char>) -> Seq<char> {
    "Missing '"@ + name + "' parameter"@
}

pub open spec fn empty_param_message(name: Seq<char>) -> Seq<char> {
    "Parameter '"@ + name + "' cannot be empty"@
}

/// A required argument: present, and (when `non_blank`) not blank.
pub open spec fn required_arg_spec(value: Option<Seq<char>>, name: Seq<char>, non_blank: bool) -> Result<
    Seq<char>,
    Seq<char>,
> {
    match value {
        None => Err(missing_param_message(name)),
        Some(v) => if non_blank && crate::text::trim_seq(v).len() == 0 {
            Err(empty_param_message(name))
        } else {
            Ok(v)
        },
    }
}

/// Checks a required argument.
pub fn required_arg(value: Option<&str>, name: &str, non_blank: bool) -> (r: Result<String, String>)
    ensures
        crate::fetch::result_view(r) == required_arg_spec(opt_str_view(value), name@, non_blank),
{
    match value {
        None => {
            let mut m: Vec<char> = Vec::new();
            append_str(&mut m, "Missing '");
            append_str(&mut m, name);
            append_str(&mut m, "' parameter");
            Err(chars_to_string(&m))
        },
        Some(v) => {
            let t = crate::text::trim_vec(&str_chars(v));
            if non_blank && t.len() == 0 {
                let mut m: Vec<char> = Vec::new();
                append_str(&mut m, "Parameter '");
                append_str(&mut m, name);
                append_str(&mut m, "' cannot be empty");
                Err(chars_to_string(&m))
            } else {
                Ok(String::from_str(v))
            }
        },
    }
}

} // verus!

verus! {

pub open spec fn flag_text(name: Seq<char>, value: Seq<char>) -> Seq<char> {
    "--"@ + name + "="@ + value
}

/// `--name=value` when a value is given, else nothing.
pub open spec fn opt_flag(name: Seq<char>, value: Option<Seq<char>>) -> Seq<Seq<char>> {
    match value {
        Some(v) => seq![flag_text(name, v)],
        None => seq![],
    }
}

/// `--name` when on, else nothing.
pub open spec fn switch_flag(name: Seq<char>, on: bool) -> Seq<Seq<char>> {
    if on {
        seq!["--"@ + name]
    } else {
        seq![]
    }
}

pub open spec fn args_view(v: Seq<String>) -> Seq<Seq<char>> {
    crate::sidecar::strings_view(v)
}

fn push_text(args: &mut Vec<String>, s: &str)
    ensures
        args_view(final(args)@) == args_view(old(args)@).push(s@),
{
    let ghost before = args@;
    args.push(String::from_str(s));
    assert(args_view(args@) =~= args_view(before).push(s@));
}

fn push_flag(args: &mut Vec<String>, name: &str, value: Option<&str>)
    ensures
        args_view(final(args)@) == args_view(old(args)@) + opt_flag(name@, opt_str_view(value)),
{
    let ghost before = args@;
    match value {
        Some(v) => {
            let mut t: Vec<char> = Vec::new();
            append_str(&mut t, "--");
            append_str(&mut t, name);
            append_str(&mut t, "=");
            append_str(&mut t, v);
            args.push(chars_to_string(&t));
            assert(args_view(args@) =~= args_view(before) + opt_flag(name@, opt_str_view(value)));
        },
        None => {
            assert(args_view(before) + opt_flag(name@, opt_str_view(value)) =~= args_view(before));
        },
    }
}

fn push_switch(args: &mut Vec<String>, name: &str, on: bool)
    ensures
        args_view(final(args)@) == args_view(old(args)@) + switch_flag(name@, on),
{
    let ghost before = args@;
    if on {
        let mut t: Vec<char> = Vec::new();
        append_str(&mut t, "--");
        append_str(&mut t, name);
        args.push(chars_to_string(&t));
        assert(args_view(args@) =~= args_view(before) + switch_flag(name@, on));
    } else {
        assert(args_view(before) + switch_flag(name@, on) =~= args_view(before));
    }
}

/// `open <url>`, the session, a `--browser` other than `auto`, `--headed`.
pub fn navigate_command(url: &str, session_id: Option<&str>, browser_type: &str, headed: bool) -> (r: Vec<String>)
    ensures
        args_view(r@) == seq!["open"@, url@] + opt_flag("session"@, opt_str_view(session_id))
            + opt_flag("browser"@, if browser_type@ == "auto"@ { None } else { Some(browser_type@) })
            + switch_flag("headed"@, headed),
{
    let mut a: Vec<String> = Vec::new();
    push_text(&mut a, "open");
    push_text(&mut a, url);
    push_flag(&mut a, "session", session_id);
    let bt = if is_word(&str_chars(browser_type), "auto") { None } else { Some(browser_type) };
    push_flag(&mut a, "browser", bt);
    push_switch(&mut a, "headed", headed);
    assert(args_view(a@) =~= seq!["open"@, url@] + opt_flag("session"@, opt_str_view(session_id))
        + opt_flag("browser"@, opt_str_view(bt)) + switch_flag("headed"@, headed));
    a
}

/// `type <target> <value>` and the session.
pub fn type_command(target: &str, value: &str, session_id: Option<&str>) -> (r: Vec<String>)
    ensures
        args_view(r@) == seq!["type"@, target@, value@] + opt_flag("session"@, opt_str_view(session_id)),
{
    let mut a: Vec<String> = Vec::new();
    push_text(&mut a, "type");
    push_text(&mut a, target);
    push_text(&mut a, value);
    push_flag(&mut a, "session", session_id);
    assert(args_view(a@) =~= seq!["type"@, target@, value@] + opt_flag("session"@, opt_str_view(session_id)));
    a
}

/// `click <target>`, the session, `--double-click`, `--new-tab`.
pub fn click_command(target: &str, session_id: Option<&str>, double_click: bool, new_tab: bool) -> (r: Vec<String>)
    ensures
        args_view(r@) == seq!["click"@, target@] + opt_flag("session"@, opt_str_view(session_id))
            + switch_flag("double-click"@, double_click) + switch_flag("new-tab"@, new_tab),
{
    let mut a: Vec<String> = Vec::new();
    push_text(&mut a, "click");
    push_text(&mut a, target);
    push_flag(&mut a, "session", session_id);
    push_switch(&mut a, "double-click", double_click);
    push_switch(&mut a, "new-tab", new_tab);
    assert(args_view(a@) =~= seq!["click"@, target@] + opt_flag("session"@, opt_str_view(session_id))
        + switch_flag("double-click"@, double_click) + switch_flag("new-tab"@, new_tab));
    a
}

/// `fill <target> <value>` and the session.
pub fn fill_command(target: &str, value: &str, session_id: Option<&str>) -> (r: Vec<String>)
    ensures
        args_view(r@) == seq!["fill"@, target@, value@] + opt_flag("session"@, opt_str_view(session_id)),
{
    let mut a: Vec<String> = Vec::new();
    push_text(&mut a, "fill");
    push_text(&mut a, target);
    push_text(&mut a, value);
    push_flag(&mut a, "session", session_id);
    assert(args_view(a@) =~= seq!["fill"@, target@, value@] + opt_flag("session"@, opt_str_view(session_id)));
    a
}

/// `select <target>`, the session, `--value=`, `--label=`.
pub fn select_command(target: &str, session_id: Option<&str>, value: Option<&str>, label: Option<&str>) -> (r: Vec<String>)
    ensures
        args_view(r@) == seq!["select"@, target@] + opt_flag("session"@, opt_str_view(session_id))
            + opt_flag("value"@, opt_str_view(value)) + opt_flag("label"@, opt_str_view(label)),
{
    let mut a: Vec<String> = Vec::new();
    push_text(&mut a, "select");
    push_text(&mut a, target);
    push_flag(&mut a, "session", session_id);
    push_flag(&mut a, "value", value);
    push_flag(&mut a, "label", label);
    assert(args_view(a@) =~= seq!["select"@, target@] + opt_flag("session"@, opt_str_view(session_id))
        + opt_flag("value"@, opt_str_view(value)) + opt_flag("label"@, opt_str_view(label)));
    a
}

/// `<verb> <operand>` and the session (`hover`, `eval`).
pub fn single_operand_command(verb: &str, operand: &str, session_id: Option<&str>) -> (r: Vec<String>)
    ensures
        args_view(r@) == seq![verb@, operand@] + opt_flag("session"@, opt_str_view(session_id)),
{
    let mut a: Vec<String> = Vec::new();
    push_text(&mut a, verb);
    push_text(&mut a, operand);
    push_flag(&mut a, "session", session_id);
    assert(args_view(a@) =~= seq![verb@, operand@] + opt_flag("session"@, opt_str_view(session_id)));
    a
}

/// `<verb> <path>`, the session and one switch (`screenshot` with
/// `--full-page`, `pdf` with `--landscape`).
pub fn capture_command(verb: &str, path: &str, session_id: Option<&str>, switch: &str, on: bool) -> (r: Vec<String>)
    ensures
        args_view(r@) == seq![verb@, path@] + opt_flag("session"@, opt_str_view(session_id))
            + switch_flag(switch@, on),
{
    let mut a: Vec<String> = Vec::new();
    push_text(&mut a, verb);
    push_text(&mut a, path);
    push_flag(&mut a, "session", session_id);
    push_switch(&mut a, switch, on);
    assert(args_view(a@) =~= seq![verb@, path@] + opt_flag("session"@, opt_str_view(session_id))
        + switch_flag(switch@, on));
    a
}

/// `<verb>`, the session and two optional filters (`console` with
/// `--level=`/`--limit=`, `network` with `--url=`/`--method=`).
pub fn query_command(
    verb: &str,
    session_id: Option<&str>,
    first: &str,
    first_value: Option<&str>,
    second: &str,
    second_value: Option<&str>,
) -> (r: Vec<String>)
    ensures
        args_view(r@) == seq![verb@] + opt_flag("session"@, opt_str_view(session_id)) + opt_flag(
            first@,
            opt_str_view(first_value),
        ) + opt_flag(second@, opt_str_view(second_value)),
{
    let mut a: Vec<String> = Vec::new();
    push_text(&mut a, verb);
    push_flag(&mut a, "session", session_id);
    push_flag(&mut a, first, first_value);
    push_flag(&mut a, second, second_value);
    assert(args_view(a@) =~= seq![verb@] + opt_flag("session"@, opt_str_view(session_id))
        + opt_flag(first@, opt_str_view(first_value)) + opt_flag(second@, opt_str_view(second_value)));
    a
}

} // verus!

verus! {

/// A signed number in decimal, with `-` before negative ones.
pub open spec fn signed_decimal(n: int) -> Seq<char> {
    if n < 0 {
        seq!['-'] + crate::text::decimal((0 - n) as nat)
    } else {
        crate::text::decimal(n as nat)
    }
}

/// `<prefix><millis><suffix>`: names made from the clock, such as
/// `session_<ms>`, `cdp_<ms>`, `screenshot_<ms>.png` and `page_<ms>.pdf`.
pub fn stamped_name(prefix: &str, millis: i64, suffix: &str) -> (r: String)
    ensures
        r@ == prefix@ + signed_decimal(millis as int) + suffix@,
{
    let mut v = str_chars(prefix);
    let ghost p = v@;
    if millis < 0 {
        v.push('-');
        let m: u64 = if millis == i64::MIN {
            9223372036854775808
        } else {
            (0 - millis) as u64
        };
        let d = crate::text::decimal_vec(m);
        append_chars(&mut v, &d);
        assert(v@ =~= p + signed_decimal(millis as int));
    } else {
        let d = crate::text::decimal_vec(millis as u64);
        append_chars(&mut v, &d);
    }
    append_str(&mut v, suffix);
    chars_to_string(&v)
}

/// Where a capture is written: the file name joined to the output
/// directory.
pub fn capture_path(out_dir: &str, filename: &str) -> (r: String)
    ensures
        r@ == path_join(out_dir@, filename@),
{
    let p = path_join_pub(&str_chars(out_dir), &str_chars(filename));
    chars_to_string(&p)
}

/// The fields of a stored session.
pub struct SessionView {
    pub session_id: Seq<char>,
    pub engine: Seq<char>,
    pub url: Seq<char>,
    pub created_at: Seq<char>,
    pub last_accessed: Seq<char>,
    pub status: Seq<char>,
}

pub open spec fn session_view(s: SessionInfo) -> SessionView {
    SessionView {
        session_id: s.session_id@,
        engine: s.engine@,
        url: s.url@,
        created_at: s.created_at@,
        last_accessed: s.last_accessed@,
        status: s.status@,
    }
}

/// The record kept for a session started now.
pub open spec fn started_session(id: Seq<char>, engine: Seq<char>, created: Seq<char>, accessed: Seq<char>) -> SessionView {
    SessionView {
        session_id: id,
        engine: engine,
        url: seq![],
        created_at: created,
        last_accessed: accessed,
        status: "active"@,
    }
}

fn copy_session(s: &SessionInfo) -> (r: SessionInfo)
    ensures
        session_view(r) == session_view(*s),
{
    SessionInfo {
        session_id: s.session_id.clone(),
        engine: s.engine.clone(),
        url: s.url.clone(),
        created_at: s.created_at.clone(),
        last_accessed: s.last_accessed.clone(),
        status: s.status.clone(),
    }
}

/// The sessions of this process, by id. They are held in a vector whose
/// ids are distinct, viewed as a map from id to session: vstd's hash map
/// has a usable specification only for keys with a key model (integers),
/// and session ids are text.
#[derive(Debug, Clone)]
pub struct SessionStore {
    sessions: Vec<SessionInfo>,
}

pub open spec fn ids_distinct(v: Seq<SessionInfo>) -> bool {
    forall|i: int, j: int|
        0 <= i < v.len() && 0 <= j < v.len() && i != j ==> v[i].session_id@ != v[j].session_id@
}

/// The map of a list of sessions with distinct ids.
pub open spec fn sessions_map(v: Seq<SessionInfo>) -> Map<Seq<char>, SessionView> {
    Map::new(
        |k: Seq<char>| exists|i: int| 0 <= i < v.len() && v[i].session_id@ == k,
        |k: Seq<char>| session_view(v[choose|i: int| 0 <= i < v.len() && v[i].session_id@ == k]),
    )
}

impl SessionStore {
    /// The stored sessions by id.
    pub closed spec fn view(&self) -> Map<Seq<char>, SessionView> {
        sessions_map(self.sessions@)
    }

    /// The stored sessions in store order.
    pub closed spec fn records(&self) -> Seq<SessionInfo> {
        self.sessions@
    }

    /// No id is stored twice.
    pub closed spec fn wf(&self) -> bool {
        ids_distinct(self.sessions@)
    }

    /// An empty store.
    pub fn new() -> (s: Self)
        ensures
            s.wf(),
            s.view() == Map::<Seq<char>, SessionView>::empty(),
    {
        let s = SessionStore { sessions: Vec::new() };
        assert(s.view() =~= Map::<Seq<char>, SessionView>::empty());
        s
    }

    fn find(&self, id: &[char]) -> (r: Option<usize>)
        requires
            self.wf(),
        ensures
            match r {
                Some(i) => i < self.sessions@.len() && self.sessions@[i as int].session_id@ == id@,
                None => forall|i: int| 0 <= i < self.sessions@.len() ==> self.sessions@[i].session_id@ != id@,
            },
    {
        let mut i: usize = 0;
        while i < self.sessions.len()
            invariant
                i <= self.sessions@.len(),
                forall|j: int| 0 <= j < i ==> self.sessions@[j].session_id@ != id@,
            decreases self.sessions.len() - i,
        {
            let k = str_chars(self.sessions[i].session_id.as_str());
            if crate::markdown::same_chars(&k, id) {
                return Some(i);
            }
            i += 1;
        }
        None
    }

    /// Stores a session started now with the configuration's engine,
    /// replacing one with the same id, and returns its id.
    pub fn save_session(&mut self, session_id: &str, config: &BrowserSessionConfig, created_at: &str, last_accessed: &str) -> (r: String)
        requires
            old(self).wf(),
        ensures
            final(self).wf(),
            final(self).view() == old(self).view().insert(
                session_id@,
                started_session(session_id@, config.engine@, created_at@, last_accessed@),
            ),
            r@ == session_id@,
    {
        let info = SessionInfo {
            session_id: String::from_str(session_id),
            engine: config.engine.clone(),
            url: String::new(),
            created_at: String::from_str(created_at),
            last_accessed: String::from_str(last_accessed),
            status: String::from_str("active"),
        };
        assert(session_view(info) =~= started_session(session_id@, config.engine@, created_at@, last_accessed@));
        let idv = str_chars(session_id);
        let ghost before = self.sessions@;
        match self.find(&idv) {
            Some(i) => {
                self.sessions.set(i, info);
                proof {
                    let after = self.sessions@;
                    assert forall|a: int, b: int|
                        0 <= a < after.len() && 0 <= b < after.len() && a != b implies after[a].session_id@
                        != after[b].session_id@ by {
                        if a != i && b != i {
                            assert(after[a] == before[a] && after[b] == before[b]);
                        } else if a == i {
                            assert(after[b] == before[b]);
                        } else {
                            assert(after[a] == before[a]);
                        }
                    }
                    assert forall|k: Seq<char>| #[trigger] sessions_map(after).contains_key(k)
                        <==> sessions_map(before).insert(session_id@, session_view(info)).contains_key(k) by {
                        if sessions_map(before).contains_key(k) {
                            let j = choose|j: int| 0 <= j < before.len() && before[j].session_id@ == k;
                            if j == i {
                                assert(after[j].session_id@ == k);
                            } else {
                                assert(after[j] == before[j]);
                            }
                        }
                        if sessions_map(after).contains_key(k) {
                            let j = choose|j: int| 0 <= j < after.len() && after[j].session_id@ == k;
                            if j != i {
                                assert(after[j] == before[j]);
                            }
                        }
                        if k == session_id@ {
                            assert(after[i as int].session_id@ == k);
                        }
                    }
                    assert forall|k: Seq<char>| #[trigger] sessions_map(after).contains_key(k) implies sessions_map(after)[k]
                        == sessions_map(before).insert(session_id@, session_view(info))[k] by {
                        let j = choose|j: int| 0 <= j < after.len() && after[j].session_id@ == k;
                        if k == session_id@ {
                            assert(j == i);
                        } else {
                            let j2 = choose|j2: int| 0 <= j2 < before.len() && before[j2].session_id@ == k;
                            assert(j2 != i);
                            assert(after[j2] == before[j2]);
                            assert(j == j2);
                        }
                    }
                    assert(sessions_map(after) =~= sessions_map(before).insert(session_id@, session_view(info)));
                }
            },
            None => {
                self.sessions.push(info);
                proof {
                    let after = self.sessions@;
                    assert(after[before.len() as int] == info);
                    assert forall|a: int| 0 <= a < before.len() implies after[a] == before[a] by {}
                    assert forall|k: Seq<char>| #[trigger] sessions_map(after).contains_key(k)
                        <==> sessions_map(before).insert(session_id@, session_view(info)).contains_key(k) by {
                        if sessions_map(before).contains_key(k) {
                            let j = choose|j: int| 0 <= j < before.len() && before[j].session_id@ == k;
                            assert(after[j] == before[j]);
                        }
                        if k == session_id@ {
                            assert(after[before.len() as int].session_id@ == k);
                        }
                    }
                    assert forall|k: Seq<char>| #[trigger] sessions_map(after).contains_key(k) implies sessions_map(after)[k]
                        == sessions_map(before).insert(session_id@, session_view(info))[k] by {
                        let j = choose|j: int| 0 <= j < after.len() && after[j].session_id@ == k;
                        if k == session_id@ {
                            assert(j == before.len());
                        } else {
                            let j2 = choose|j2: int| 0 <= j2 < before.len() && before[j2].session_id@ == k;
                            assert(after[j2] == before[j2]);
                            assert(j == j2);
                        }
                    }
                    assert(sessions_map(after) =~= sessions_map(before).insert(session_id@, session_view(info)));
                }
            },
        }
        String::from_str(session_id)
    }

    /// The stored session with this id.
    pub fn load_session(&self, session_id: &str) -> (r: Option<SessionInfo>)
        requires
            self.wf(),
        ensures
            match r {
                Some(s) => self.view().contains_key(session_id@) && session_view(s) == self.view()[session_id@],
                None => !self.view().contains_key(session_id@),
            },
    {
        let idv = str_chars(session_id);
        match self.find(&idv) {
            Some(i) => {
                proof {
                    let v = self.sessions@;
                    let j = choose|j: int| 0 <= j < v.len() && v[j].session_id@ == session_id@;
                    assert(j == i);
                }
                Some(copy_session(&self.sessions[i]))
            },
            None => None,
        }
    }
}

} // verus!

verus! {

/// What stopping session `id` answers: success where it is stored here or
/// its file was removed, else the failure message.
pub open spec fn stop_result(store: Map<Seq<char>, SessionView>, id: Seq<char>, file_removed: bool) -> Result<(), Seq<char>> {
    if store.contains_key(id) || file_removed {
        Ok(())
    } else {
        Err(stop_failed_message(id))
    }
}

pub open spec fn stop_failed_message(id: Seq<char>) -> Seq<char> {
    "Failed to stop session: session '"@ + id + "' not found"@
}

/// Whether a session id occurs in a list of sessions.
pub open spec fn has_id(v: Seq<SessionInfo>, id: Seq<char>) -> bool {
    exists|i: int| 0 <= i < v.len() && v[i].session_id@ == id
}

/// The sessions listed: those on disk in their order, then the stored ones
/// whose id is not among them, in store order.
pub open spec fn listed_sessions(disk: Seq<SessionInfo>, mem: Seq<SessionInfo>) -> Seq<SessionInfo> {
    disk + not_on_disk(disk, mem)
}

/// The sessions of `mem` whose id is not on disk, in order.
pub open spec fn not_on_disk(disk: Seq<SessionInfo>, mem: Seq<SessionInfo>) -> Seq<SessionInfo>
    decreases mem.len(),
{
    if mem.len() == 0 {
        seq![]
    } else {
        let r = not_on_disk(disk, mem.drop_last());
        if has_id(disk, mem.last().session_id@) {
            r
        } else {
            r.push(mem.last())
        }
    }
}

impl SessionStore {
    /// Forgets a session; tells whether it was stored.
    pub fn remove_session(&mut self, session_id: &str) -> (found: bool)
        requires
            old(self).wf(),
        ensures
            final(self).wf(),
            found == old(self).view().contains_key(session_id@),
            final(self).view() == old(self).view().remove(session_id@),
    {
        let idv = str_chars(session_id);
        let ghost before = self.sessions@;
        match self.find(&idv) {
            Some(i) => {
                self.sessions.remove(i);
                proof {
                    let after = self.sessions@;
                    assert forall|a: int| 0 <= a < after.len() implies after[a] == (if a < i {
                        before[a]
                    } else {
                        before[a + 1]
                    }) by {}
                    assert forall|a: int, b: int|
                        0 <= a < after.len() && 0 <= b < after.len() && a != b implies after[a].session_id@
                        != after[b].session_id@ by {
                        let a2 = if a < i { a } else { a + 1 };
                        let b2 = if b < i { b } else { b + 1 };
                        assert(after[a] == before[a2] && after[b] == before[b2]);
                    }
                    assert forall|k: Seq<char>| #[trigger] sessions_map(after).contains_key(k)
                        <==> sessions_map(before).remove(session_id@).contains_key(k) by {
                        if sessions_map(after).contains_key(k) {
                            let j = choose|j: int| 0 <= j < after.len() && after[j].session_id@ == k;
                            let j2 = if j < i { j } else { j + 1 };
                            assert(after[j] == before[j2]);
                            assert(j2 != i);
                        }
                        if sessions_map(before).remove(session_id@).contains_key(k) {
                            let j = choose|j: int| 0 <= j < before.len() && before[j].session_id@ == k;
                            assert(j != i);
                            let j2 = if j < i { j } else { j - 1 };
                            assert(after[j2] == before[j]);
                        }
                    }
                    assert forall|k: Seq<char>| #[trigger] sessions_map(after).contains_key(k) implies sessions_map(after)[k]
                        == sessions_map(before).remove(session_id@)[k] by {
                        let j = choose|j: int| 0 <= j < after.len() && after[j].session_id@ == k;
                        let j2 = if j < i { j } else { j + 1 };
                        assert(after[j] == before[j2]);
                        let j3 = choose|j3: int| 0 <= j3 < before.len() && before[j3].session_id@ == k;
                        assert(j3 == j2);
                    }
                    assert(sessions_map(after) =~= sessions_map(before).remove(session_id@));
                    assert(sessions_map(before).contains_key(session_id@));
                }
                true
            },
            None => {
                assert(sessions_map(before).remove(session_id@) =~= sessions_map(before));
                false
            },
        }
    }

    /// Stops a session: it is forgotten here; the call fails unless it was
    /// stored here or its file was removed (by the caller).
    pub fn stop_session(&mut self, session_id: &str, file_removed: bool) -> (r: Result<(), String>)
        requires
            old(self).wf(),
        ensures
            final(self).wf(),
            final(self).view() == old(self).view().remove(session_id@),
            r is Ok <==> (old(self).view().contains_key(session_id@) || file_removed),
            r matches Err(e) ==> e@ == stop_failed_message(session_id@),
            match r {
                Ok(_) => stop_result(old(self).view(), session_id@, file_removed) is Ok,
                Err(e) => stop_result(old(self).view(), session_id@, file_removed) == Err::<(), Seq<char>>(e@),
            },
    {
        let found = self.remove_session(session_id);
        if !found && !file_removed {
            let mut m: Vec<char> = Vec::new();
            append_str(&mut m, "Failed to stop session: session '");
            append_str(&mut m, session_id);
            append_str(&mut m, "' not found");
            return Err(chars_to_string(&m));
        }
        Ok(())
    }

    /// All sessions: those read from disk (by the caller), then the stored
    /// ones not already listed.
    pub fn list_sessions(&self, on_disk: Vec<SessionInfo>) -> (r: Vec<SessionInfo>)
        requires
            self.wf(),
        ensures
            r@.len() == listed_sessions(on_disk@, self.records()).len(),
            forall|i: int| 0 <= i < r@.len() ==> session_view(#[trigger] r@[i]) == session_view(
                listed_sessions(on_disk@, self.records())[i],
            ),
    {
        let ghost disk = on_disk@;
        let mut out = on_disk;
        let nd = out.len();
        let mut i: usize = 0;
        while i < self.sessions.len()
            invariant
                i <= self.sessions@.len(),
                out@.len() == listed_sessions(disk, self.sessions@.take(i as int)).len(),
                forall|j: int| 0 <= j < out@.len() ==> session_view(#[trigger] out@[j]) == session_view(
                    listed_sessions(disk, self.sessions@.take(i as int))[j],
                ),
                forall|j: int| 0 <= j < disk.len() ==> #[trigger] out@[j].session_id@ == disk[j].session_id@,
                disk.len() <= out@.len(),
                nd == disk.len(),
            decreases self.sessions.len() - i,
        {
            let s = &self.sessions[i];
            let sid = str_chars(s.session_id.as_str());
            let mut seen = false;
            let mut k: usize = 0;
            while k < nd
                invariant
                    k <= disk.len() <= out@.len(),
                    nd == disk.len(),
                    seen == exists|j: int| 0 <= j < k && disk[j].session_id@ == sid@,
                    forall|j: int| 0 <= j < disk.len() ==> #[trigger] out@[j].session_id@ == disk[j].session_id@,
                decreases disk.len() - k,
            {
                let other = str_chars(out[k].session_id.as_str());
                if crate::markdown::same_chars(&other, &sid) {
                    seen = true;
                }
                k += 1;
            }
            proof {
                let pre = self.sessions@.take(i as int);
                let nxt = self.sessions@.take(i + 1);
                assert(nxt =~= pre.push(self.sessions@[i as int]));
                assert(nxt.drop_last() =~= pre);
                assert(seen == has_id(disk, sid@));
            }
            if !seen {
                out.push(copy_session(s));
            }
            i += 1;
        }
        assert(self.sessions@.take(self.sessions@.len() as int) =~= self.sessions@);
        out
    }
}

} // verus!

verus! {

/// A saved session is found again by its id, with the configuration's
/// engine, no URL yet, the save times, and `active`; other ids are
/// unaffected.
pub proof fn law_load_after_save(
    before: Map<Seq<char>, SessionView>,
    after: Map<Seq<char>, SessionView>,
    id: Seq<char>,
    engine: Seq<char>,
    created: Seq<char>,
    accessed: Seq<char>,
)
    requires
        after == before.insert(id, started_session(id, engine, created, accessed)),
    ensures
        after.contains_key(id),
        after[id].session_id == id,
        after[id].engine == engine,
        after[id].url.len() == 0,
        after[id].created_at == created && after[id].last_accessed == accessed,
        after[id].status == "active"@,
        forall|k: Seq<char>| k != id ==> (after.contains_key(k) == before.contains_key(k)),
        forall|k: Seq<char>| k != id && before.contains_key(k) ==> after[k] == before[k],
{
}

/// Starting a session under a new id and stopping it is a round trip: the
/// stop succeeds and leaves the store as it was before the start, and
/// stopping the id again (with no file left to remove) fails with the
/// failure message.
pub proof fn law_start_stop_round_trip(
    before: Map<Seq<char>, SessionView>,
    id: Seq<char>,
    engine: Seq<char>,
    created: Seq<char>,
    accessed: Seq<char>,
)
    requires
        !before.contains_key(id),
    ensures
        ({
            let started = before.insert(id, started_session(id, engine, created, accessed));
            &&& stop_result(started, id, false) == Ok::<(), Seq<char>>(())
            &&& started.remove(id) == before
            &&& stop_result(started.remove(id), id, false) == Err::<(), Seq<char>>(stop_failed_message(id))
        }),
{
    let started = before.insert(id, started_session(id, engine, created, accessed));
    assert(started.remove(id) =~= before);
}

/// Stopping a stored session succeeds and forgets it; stopping it again
/// (with no file left to remove) fails.
pub proof fn law_stop_forgets(store: Map<Seq<char>, SessionView>, id: Seq<char>)
    requires
        store.contains_key(id),
    ensures
        stop_result(store, id, false) == Ok::<(), Seq<char>>(()),
        !store.remove(id).contains_key(id),
        store.remove(id).remove(id) == store.remove(id),
        stop_result(store.remove(id), id, false) == Err::<(), Seq<char>>(stop_failed_message(id)),
{
    assert(store.remove(id).remove(id) =~= store.remove(id));
}

/// Every stored session is listed, and no id is listed twice when the
/// sessions on disk have distinct ids.
pub proof fn law_listing_complete_and_distinct(disk: Seq<SessionInfo>, mem: Seq<SessionInfo>)
    requires
        ids_distinct(disk),
        ids_distinct(mem),
    ensures
        forall|i: int| 0 <= i < mem.len() ==> has_id(listed_sessions(disk, mem), #[trigger] mem[i].session_id@),
        ids_distinct(listed_sessions(disk, mem)),
    decreases mem.len(),
{
    lemma_not_on_disk(disk, mem);
    let l = listed_sessions(disk, mem);
    let nd = not_on_disk(disk, mem);
    assert forall|i: int| 0 <= i < mem.len() implies has_id(l, #[trigger] mem[i].session_id@) by {
        if has_id(disk, mem[i].session_id@) {
            let j = choose|j: int| 0 <= j < disk.len() && disk[j].session_id@ == mem[i].session_id@;
            assert(l[j] == disk[j]);
        } else {
            let j = choose|j: int| 0 <= j < nd.len() && nd[j].session_id@ == mem[i].session_id@;
            assert(l[disk.len() + j] == nd[j]);
        }
    }
    assert forall|a: int, b: int| 0 <= a < l.len() && 0 <= b < l.len() && a != b implies l[a].session_id@ != l[b].session_id@ by {
        if a < disk.len() && b < disk.len() {
        } else if a >= disk.len() && b >= disk.len() {
            assert(l[a] == nd[a - disk.len()]);
            assert(l[b] == nd[b - disk.len()]);
        } else if a < disk.len() {
            assert(l[b] == nd[b - disk.len()]);
            assert(!has_id(disk, nd[b - disk.len()].session_id@));
        } else {
            assert(l[a] == nd[a - disk.len()]);
            assert(!has_id(disk, nd[a - disk.len()].session_id@));
        }
    }
}

/// What is kept from the store: ids not on disk, each stored id that is not
/// on disk kept, the kept ids distinct.
proof fn lemma_not_on_disk(disk: Seq<SessionInfo>, mem: Seq<SessionInfo>)
    requires
        ids_distinct(mem),
    ensures
        forall|j: int| 0 <= j < not_on_disk(disk, mem).len() ==> !has_id(disk, #[trigger] not_on_disk(disk, mem)[j].session_id@),
        forall|j: int| 0 <= j < not_on_disk(disk, mem).len() ==> has_id(mem, #[trigger] not_on_disk(disk, mem)[j].session_id@),
        forall|i: int| 0 <= i < mem.len() && !has_id(disk, #[trigger] mem[i].session_id@) ==> has_id(not_on_disk(disk, mem), mem[i].session_id@),
        ids_distinct(not_on_disk(disk, mem)),
    decreases mem.len(),
{
    if mem.len() > 0 {
        let m0 = mem.drop_last();
        assert(ids_distinct(m0)) by {
            assert forall|a: int, b: int| 0 <= a < m0.len() && 0 <= b < m0.len() && a != b implies m0[a].session_id@ != m0[b].session_id@ by {
                assert(m0[a] == mem[a] && m0[b] == mem[b]);
            }
        }
        lemma_not_on_disk(disk, m0);
        let r = not_on_disk(disk, m0);
        let x = mem.last();
        assert forall|j: int| 0 <= j < r.len() implies has_id(mem, #[trigger] r[j].session_id@) by {
            let i = choose|i: int| 0 <= i < m0.len() && m0[i].session_id@ == r[j].session_id@;
            assert(mem[i] == m0[i]);
        }
        assert forall|j: int| 0 <= j < r.len() implies r[j].session_id@ != x.session_id@ by {
            let i = choose|i: int| 0 <= i < m0.len() && m0[i].session_id@ == r[j].session_id@;
            assert(mem[i] == m0[i]);
            assert(i != mem.len() - 1);
        }
        if !has_id(disk, x.session_id@) {
            let n = r.push(x);
            assert(n[r.len() as int] == x);
            assert forall|i: int| 0 <= i < mem.len() && !has_id(disk, #[trigger] mem[i].session_id@) implies has_id(n, mem[i].session_id@) by {
                if i == mem.len() - 1 {
                    assert(n[r.len() as int].session_id@ == mem[i].session_id@);
                } else {
                    assert(mem[i] == m0[i]);
                    let j = choose|j: int| 0 <= j < r.len() && r[j].session_id@ == m0[i].session_id@;
                    assert(n[j] == r[j]);
                }
            }
            assert forall|j: int| 0 <= j < n.len() implies has_id(mem, #[trigger] n[j].session_id@) by {
                if j == r.len() {
                    assert(mem[mem.len() - 1] == x);
                } else {
                    assert(n[j] == r[j]);
                }
            }
            assert forall|j: int| 0 <= j < n.len() implies !has_id(disk, #[trigger] n[j].session_id@) by {
                if j < r.len() {
                    assert(n[j] == r[j]);
                }
            }
            assert forall|a: int, b: int| 0 <= a < n.len() && 0 <= b < n.len() && a != b implies n[a].session_id@ != n[b].session_id@ by {
                if a < r.len() && b < r.len() {
                    assert(n[a] == r[a] && n[b] == r[b]);
                } else if a < r.len() {
                    assert(n[a] == r[a]);
                } else {
                    assert(n[b] == r[b]);
                }
            }
        } else {
            assert forall|i: int| 0 <= i < mem.len() && !has_id(disk, #[trigger] mem[i].session_id@) implies has_id(r, mem[i].session_id@) by {
                assert(i != mem.len() - 1);
                assert(mem[i] == m0[i]);
            }
        }
    }
}

} // verus!

verus! {

/// The current time in milliseconds since the epoch
/// (`chrono::Utc::now().timestamp_millis()`). It is the clock's reading, so
/// nothing is stated of it.
#[verifier::external_body]
fn now_millis() -> (ms: i64) {
    chrono::Utc::now().timestamp_millis()
}

/// The current time as RFC 3339 text (`chrono::Utc::now().to_rfc3339()`).
/// It is the clock's reading, so nothing is stated of it.
#[verifier::external_body]
fn now_rfc3339() -> (s: String) {
    chrono::Utc::now().to_rfc3339()
}

/// A name made from the clock: `<prefix><milliseconds><suffix>`.
pub fn clock_name(prefix: &str, suffix: &str) -> (r: String)
    ensures
        exists|ms: i64| r@ == prefix@ + signed_decimal(ms as int) + suffix@,
{
    let ms = now_millis();
    stamped_name(prefix, ms, suffix)
}

impl SessionStore {
    /// Starts a session: names it `session_<milliseconds>` from the clock
    /// and stores it with the configuration's engine and the current time.
    pub fn start_session(&mut self, config: &BrowserSessionConfig) -> (r: String)
        requires
            old(self).wf(),
        ensures
            final(self).wf(),
            exists|ms: i64, created: Seq<char>, accessed: Seq<char>|
                r@ == "session_"@ + signed_decimal(ms as int)
                && final(self).view() == old(self).view().insert(r@, started_session(r@, config.engine@, created, accessed)),
    {
        let id = clock_name("session_", "");
        let created = now_rfc3339();
        let accessed = now_rfc3339();
        let ghost ms = choose|ms: i64| id@ == "session_"@ + signed_decimal(ms as int) + ""@;
        assert(id@ == "session_"@ + signed_decimal(ms as int)) by {
            assert(("session_"@ + signed_decimal(ms as int) + ""@) =~= "session_"@ + signed_decimal(ms as int)) by {
                reveal_strlit("");
            }
        }
        self.save_session(id.as_str(), config, created.as_str(), accessed.as_str())
    }
}

} // verus!

verus! {

/// The executable's file name on the host (`.exe` on Windows).
pub fn agent_browser_bin_name(windows: bool) -> (r: String)
    ensures
        r@ == (if windows { "agent-browser.exe"@ } else { "agent-browser"@ }),
{
    if windows {
        String::from_str("agent-browser.exe")
    } else {
        String::from_str("agent-browser")
    }
}

/// Where a managed copy of the executable may already be: under the output
/// directory's `bin`, in the output directory, and under the temporary
/// directory's `rune-bin`, in that order.
pub fn binary_candidates(base: &str, temp: &str, bin_name: &str) -> (r: Vec<String>)
    ensures
        r@.len() == 3,
        r@[0]@ == path_join(path_join(base@, "bin"@), bin_name@),
        r@[1]@ == path_join(base@, bin_name@),
        r@[2]@ == path_join(path_join(temp@, "rune-bin"@), bin_name@),
{
    let b = str_chars(base);
    let n = str_chars(bin_name);
    let first = path_join_pub(&path_join_pub(&b, &str_chars("bin")), &n);
    let second = path_join_pub(&b, &n);
    let third = path_join_pub(&path_join_pub(&str_chars(temp), &str_chars("rune-bin")), &n);
    let mut r: Vec<String> = Vec::new();
    r.push(chars_to_string(&first));
    r.push(chars_to_string(&second));
    r.push(chars_to_string(&third));
    r
}

/// The release asset for an operating system and architecture.
pub open spec fn release_asset_spec(os: Seq<char>, arch: Seq<char>) -> Option<Seq<char>> {
    if os == "windows"@ {
        Some("agent-browser-win32-x64.exe"@)
    } else if os == "macos"@ && arch == "aarch64"@ {
        Some("agent-browser-darwin-arm64"@)
    } else if os == "macos"@ {
        Some("agent-browser-darwin-x64"@)
    } else if os == "linux"@ && arch == "aarch64"@ {
        Some("agent-browser-linux-arm64"@)
    } else if os == "linux"@ {
        Some("agent-browser-linux-x64"@)
    } else {
        None
    }
}

/// The release asset to download; an error names an unsupported platform.
pub fn release_asset(os: &str, arch: &str) -> (r: Result<String, String>)
    ensures
        match release_asset_spec(os@, arch@) {
            Some(a) => r matches Ok(x) && x@ == a,
            None => r matches Err(e) && e@ == "Unsupported platform for agent-browser: "@ + os@ + "-"@ + arch@,
        },
{
    let o = str_chars(os);
    let a = str_chars(arch);
    if is_word(&o, "windows") {
        Ok(String::from_str("agent-browser-win32-x64.exe"))
    } else if is_word(&o, "macos") && is_word(&a, "aarch64") {
        Ok(String::from_str("agent-browser-darwin-arm64"))
    } else if is_word(&o, "macos") {
        Ok(String::from_str("agent-browser-darwin-x64"))
    } else if is_word(&o, "linux") && is_word(&a, "aarch64") {
        Ok(String::from_str("agent-browser-linux-arm64"))
    } else if is_word(&o, "linux") {
        Ok(String::from_str("agent-browser-linux-x64"))
    } else {
        let mut m: Vec<char> = Vec::new();
        append_str(&mut m, "Unsupported platform for agent-browser: ");
        append_str(&mut m, os);
        append_str(&mut m, "-");
        append_str(&mut m, arch);
        Err(chars_to_string(&m))
    }
}

/// Where an asset is downloaded from, in the order tried: the latest
/// release, then two pinned ones.
pub fn release_urls(asset: &str) -> (r: Vec<String>)
    ensures
        r@.len() == 3,
        r@[0]@ == "https://github.com/vercel-labs/agent-browser/releases/latest/download/"@ + asset@,
        r@[1]@ == "https://github.com/vercel-labs/agent-browser/releases/download/v0.38.1/"@ + asset@,
        r@[2]@ == "https://github.com/vercel-labs/agent-browser/releases/download/v0.37.1/"@ + asset@,
{
    let mut r: Vec<String> = Vec::new();
    let mut u1: Vec<char> = Vec::new();
    append_str(&mut u1, "https://github.com/vercel-labs/agent-browser/releases/latest/download/");
    append_str(&mut u1, asset);
    let mut u2: Vec<char> = Vec::new();
    append_str(&mut u2, "https://github.com/vercel-labs/agent-browser/releases/download/v0.38.1/");
    append_str(&mut u2, asset);
    let mut u3: Vec<char> = Vec::new();
    append_str(&mut u3, "https://github.com/vercel-labs/agent-browser/releases/download/v0.37.1/");
    append_str(&mut u3, asset);
    r.push(chars_to_string(&u1));
    r.push(chars_to_string(&u2));
    r.push(chars_to_string(&u3));
    r
}

} // verus!
