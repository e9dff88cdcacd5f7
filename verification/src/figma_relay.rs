//! The decisions of the Figma sidecar, which relays tool calls over a
//! WebSocket to the Figma plugin: where to connect and which channel to
//! join, how a reply is matched to its request, what a call sends and what
//! it answers, and how the local `.env` file and the command line are read.
use vstd::prelude::*;
use crate::text::{str_chars, chars_to_string, append_str, append_chars, trim_seq, trim_vec};
use crate::markdown::is_word;
use crate::lines::lines_seq;
use crate::json::{
    JsonValue, Json, json_view, lookup, lookup_str, get_member, member_str, json_string,
    push_member, entries_view, clone_json,
};
use crate::figma_node::{filter_figma_node, filter_node_spec};

verus! {

// ---------------------------------------------------------------------
// Configuration
// ---------------------------------------------------------------------

/// A value with surrounding whitespace removed, kept only when something
/// is left.
pub open spec fn nonblank_spec(v: Option<Seq<char>>) -> Option<Seq<char>> {
    match v {
        Some(s) => if trim_seq(s).len() > 0 {
            Some(trim_seq(s))
        } else {
            None
        },
        None => None,
    }
}

/// An environment value, trimmed, where it is not blank.
pub fn nonblank_trimmed(v: Option<&str>) -> (r: Option<String>)
    ensures
        match r {
            Some(s) => nonblank_spec(opt_view(v)) == Some(s@),
            None => nonblank_spec(opt_view(v)) is None,
        },
{
    match v {
        Some(s) => {
            let t = trim_vec(&str_chars(s));
            if t.len() > 0 {
                Some(chars_to_string(&t))
            } else {
                None
            }
        },
        None => None,
    }
}

pub open spec fn opt_view(v: Option<&str>) -> Option<Seq<char>> {
    match v {
        Some(s) => Some(s@),
        None => None,
    }
}

/// The value after the first occurrence of `flag`, from position `i` on,
/// that is followed by a value that is not blank (trimmed).
pub open spec fn flag_value_from(args: Seq<Seq<char>>, flag: Seq<char>, i: int) -> Option<Seq<char>>
    decreases args.len() - i,
{
    if i >= args.len() || i < 1 {
        None
    } else if args[i] == flag && i + 1 < args.len() && trim_seq(args[i + 1]).len() > 0 {
        Some(trim_seq(args[i + 1]))
    } else {
        flag_value_from(args, flag, i + 1)
    }
}

/// The value given for `flag` on the command line (`args[0]` is the
/// program): the trimmed argument after the first occurrence of the flag
/// that is followed by a value that is not blank.
pub fn cli_flag_value(args: &[String], flag: &str) -> (r: Option<String>)
    ensures
        match r {
            Some(s) => flag_value_from(crate::sidecar::strings_view(args@), flag@, 1) == Some(s@),
            None => flag_value_from(crate::sidecar::strings_view(args@), flag@, 1) is None,
        },
{
    let ghost sv = crate::sidecar::strings_view(args@);
    if args.len() < 2 {
        return None;
    }
    let fl = str_chars(flag);
    let mut i: usize = 1;
    while i < args.len()
        invariant
            1 <= i <= args.len(),
            sv == crate::sidecar::strings_view(args@),
            fl@ == flag@,
            flag_value_from(sv, flag@, 1) == flag_value_from(sv, flag@, i as int),
        decreases args.len() - i,
    {
        let a = str_chars(args[i].as_str());
        assert(sv[i as int] == a@);
        if crate::markdown::same_chars(&a, &fl) && i + 1 < args.len() {
            let v = trim_vec(&str_chars(args[i + 1].as_str()));
            assert(sv[i + 1] == args@[i + 1]@);
            if v.len() > 0 {
                return Some(chars_to_string(&v));
            }
        }
        i += 1;
    }
    None
}

/// The relay's WebSocket URL: the command line, else `FIGMA_WS_URL`, else
/// a local URL on `FIGMA_WS_PORT`, else `ws://localhost:3055`.
pub open spec fn ws_url_spec(cli: Option<Seq<char>>, env_url: Option<Seq<char>>, env_port: Option<Seq<char>>) -> Seq<char> {
    match cli {
        Some(u) => u,
        None => match env_url {
            Some(u) => u,
            None => match env_port {
                Some(p) => "ws://localhost:"@ + p,
                None => "ws://localhost:3055"@,
            },
        },
    }
}

/// Picks the relay's WebSocket URL from what the caller read (each value
/// already trimmed and not blank).
pub fn figma_ws_url(cli: Option<&str>, env_url: Option<&str>, env_port: Option<&str>) -> (r: String)
    ensures
        r@ == ws_url_spec(opt_view(cli), opt_view(env_url), opt_view(env_port)),
{
    match cli {
        Some(u) => chars_to_string(&str_chars(u)),
        None => match env_url {
            Some(u) => chars_to_string(&str_chars(u)),
            None => match env_port {
                Some(p) => {
                    let mut v: Vec<char> = Vec::new();
                    append_str(&mut v, "ws://localhost:");
                    append_str(&mut v, p);
                    chars_to_string(&v)
                },
                None => chars_to_string(&str_chars("ws://localhost:3055")),
            },
        },
    }
}

/// The channel to join: the command line, else `FIGMA_CHANNEL`, else none
/// (the empty channel).
pub fn figma_channel(cli: Option<&str>, env_channel: Option<&str>) -> (r: String)
    ensures
        r@ == (match opt_view(cli) {
            Some(c) => c,
            None => match opt_view(env_channel) {
                Some(c) => c,
                None => Seq::empty(),
            },
        }),
{
    match cli {
        Some(c) => chars_to_string(&str_chars(c)),
        None => match env_channel {
            Some(c) => chars_to_string(&str_chars(c)),
            None => String::new(),
        },
    }
}

/// A value left after removing every leading `c`.
pub open spec fn strip_start_char(s: Seq<char>, c: char) -> Seq<char>
    decreases s.len(),
{
    if s.len() > 0 && s[0] == c {
        strip_start_char(s.drop_first(), c)
    } else {
        s
    }
}

/// A value left after removing every trailing `c`.
pub open spec fn strip_end_char(s: Seq<char>, c: char) -> Seq<char>
    decreases s.len(),
{
    if s.len() > 0 && s.last() == c {
        strip_end_char(s.drop_last(), c)
    } else {
        s
    }
}

/// `str::trim_matches` with one character.
pub open spec fn trim_char(s: Seq<char>, c: char) -> Seq<char> {
    strip_end_char(strip_start_char(s, c), c)
}

/// The setting on one line of a `.env` file: none for a blank line or a
/// comment, or one without `=` or with an empty value; else the trimmed key
/// and the trimmed value without its surrounding quotes.
pub open spec fn dotenv_line(line: Seq<char>) -> Option<(Seq<char>, Seq<char>)> {
    let t = trim_seq(line);
    let i = crate::lines::find_char(t, '=');
    if t.len() == 0 || t[0] == '#' || i >= t.len() {
        None
    } else {
        let key = trim_seq(t.take(i));
        let val = trim_char(trim_char(trim_seq(t.skip(i + 1)), '"'), '\'');
        if val.len() == 0 {
            None
        } else {
            Some((key, val))
        }
    }
}

/// The settings of a `.env` file, line by line.
pub open spec fn dotenv_settings(lines: Seq<Seq<char>>) -> Seq<(Seq<char>, Seq<char>)>
    decreases lines.len(),
{
    if lines.len() == 0 {
        Seq::empty()
    } else {
        match dotenv_line(lines.last()) {
            Some(kv) => dotenv_settings(lines.drop_last()).push(kv),
            None => dotenv_settings(lines.drop_last()),
        }
    }
}

fn strip_chars(v: &[char], c: char) -> (out: Vec<char>)
    ensures
        out@ == trim_char(v@, c),
{
    let mut a: usize = 0;
    assert(v@.skip(0) =~= v@);
    while a < v.len() && v[a] == c
        invariant
            a <= v.len(),
            strip_start_char(v@, c) == strip_start_char(v@.skip(a as int), c),
        decreases v.len() - a,
    {
        assert(v@.skip(a as int).drop_first() =~= v@.skip(a + 1));
        a += 1;
    }
    let ghost s = v@.skip(a as int);
    assert(strip_start_char(s, c) == s);
    let mut b: usize = v.len();
    while b > a && v[b - 1] == c
        invariant
            a <= b <= v.len(),
            s == v@.skip(a as int),
            strip_end_char(s, c) == strip_end_char(v@.subrange(a as int, b as int), c),
        decreases b - a,
    {
        assert(v@.subrange(a as int, b as int).drop_last() =~= v@.subrange(a as int, b - 1));
        b -= 1;
    }
    assert(strip_end_char(v@.subrange(a as int, b as int), c) == v@.subrange(a as int, b as int));
    crate::text::slice_vec(v, a, b)
}

fn find_eq(v: &[char]) -> (i: usize)
    ensures
        i as int == crate::lines::find_char(v@, '='),
        i <= v.len(),
{
    let i = crate::lines::find_char_from(v, '=', 0);
    assert(v@.skip(0) =~= v@);
    i
}

/// The settings of a `.env` file, in order; the caller sets those that
/// are not in the environment yet.
pub fn dotenv_entries(content: &str) -> (r: Vec<(String, String)>)
    ensures
        r@.len() == dotenv_settings(lines_seq(content@)).len(),
        forall|k: int| 0 <= k < r@.len() ==> (#[trigger] r@[k]).0@ == dotenv_settings(lines_seq(content@))[k].0
            && r@[k].1@ == dotenv_settings(lines_seq(content@))[k].1,
{
    let lines = crate::lines::split_lines(&str_chars(content));
    let ghost ls = lines_seq(content@);
    assert(crate::lines::vv(lines@) == ls);
    let mut out: Vec<(String, String)> = Vec::new();
    let mut j: usize = 0;
    while j < lines.len()
        invariant
            j <= lines.len(),
            crate::lines::vv(lines@) == ls,
            out@.len() == dotenv_settings(ls.take(j as int)).len(),
            forall|k: int| 0 <= k < out@.len() ==> (#[trigger] out@[k]).0@ == dotenv_settings(ls.take(j as int))[k].0
                && out@[k].1@ == dotenv_settings(ls.take(j as int))[k].1,
        decreases lines.len() - j,
    {
        let line: &Vec<char> = &lines[j];
        assert(ls[j as int] == line@);
        assert(ls.take(j + 1).drop_last() =~= ls.take(j as int));
        let t = trim_vec(line);
        let i = find_eq(&t);
        if t.len() > 0 && t[0] != '#' && i < t.len() {
            let key = trim_vec(&crate::text::slice_vec(&t, 0, i));
            let rest = trim_vec(&crate::text::slice_vec(&t, i + 1, t.len()));
            let val = strip_chars(&strip_chars(&rest, '"'), '\'');
            assert(t@.take(i as int) =~= t@.subrange(0, i as int));
            assert(t@.skip(i + 1) =~= t@.subrange(i + 1, t@.len() as int));
            if val.len() > 0 {
                out.push((chars_to_string(&key), chars_to_string(&val)));
            }
        }
        j += 1;
    }
    assert(ls.take(lines.len() as int) =~= ls);
    out
}

// ---------------------------------------------------------------------
// The `initialize` request
// ---------------------------------------------------------------------

/// The first of two members that is present.
pub open spec fn either(v: JsonValue, a: Seq<char>, b: Seq<char>) -> Option<JsonValue> {
    match lookup(v, a) {
        Some(x) => Some(x),
        None => lookup(v, b),
    }
}

/// The options of an `initialize` request: `initializationOptions`, else
/// `env`, of its parameters.
pub open spec fn init_options(params: Option<JsonValue>) -> Option<JsonValue> {
    match params {
        Some(p) => either(p, "initializationOptions"@, "env"@),
        None => None,
    }
}

/// A trimmed, non-blank string option.
pub open spec fn text_option(v: Option<JsonValue>) -> Option<Seq<char>> {
    match v {
        Some(JsonValue::Str(s)) => if trim_seq(s@).len() > 0 {
            Some(trim_seq(s@))
        } else {
            None
        },
        _ => None,
    }
}

/// The WebSocket URL an `initialize` request sets: `FIGMA_WS_URL`, else
/// `ws_url`, else `wsUrl`, of its options.
pub open spec fn init_ws_url_spec(params: Option<JsonValue>) -> Option<Seq<char>> {
    match init_options(params) {
        Some(o) => text_option(
            match lookup(o, "FIGMA_WS_URL"@) {
                Some(x) => Some(x),
                None => either(o, "ws_url"@, "wsUrl"@),
            },
        ),
        None => None,
    }
}

/// The channel an `initialize` request sets: `FIGMA_CHANNEL`, else
/// `channel`, of its options.
pub open spec fn init_channel_spec(params: Option<JsonValue>) -> Option<Seq<char>> {
    match init_options(params) {
        Some(o) => text_option(either(o, "FIGMA_CHANNEL"@, "channel"@)),
        None => None,
    }
}

fn either_exec<'a>(v: &'a JsonValue, a: &str, b: &str) -> (r: Option<&'a JsonValue>)
    ensures
        match r {
            Some(x) => either(*v, a@, b@) == Some(*x),
            None => either(*v, a@, b@) is None,
        },
{
    match get_member(v, a) {
        Some(x) => Some(x),
        None => get_member(v, b),
    }
}

fn text_option_exec(v: Option<&JsonValue>) -> (r: Option<String>)
    ensures
        match r {
            Some(s) => text_option(match v { Some(x) => Some(*x), None => None }) == Some(s@),
            None => text_option(match v { Some(x) => Some(*x), None => None }) is None,
        },
{
    match v {
        Some(JsonValue::Str(s)) => {
            let t = trim_vec(&str_chars(s.as_str()));
            if t.len() > 0 {
                Some(chars_to_string(&t))
            } else {
                None
            }
        },
        _ => None,
    }
}

fn init_options_exec(params: Option<&JsonValue>) -> (r: Option<&JsonValue>)
    ensures
        match r {
            Some(x) => init_options(match params { Some(p) => Some(*p), None => None }) == Some(*x),
            None => init_options(match params { Some(p) => Some(*p), None => None }) is None,
        },
{
    match params {
        Some(p) => either_exec(p, "initializationOptions", "env"),
        None => None,
    }
}

/// The WebSocket URL that an `initialize` request's parameters set, if any.
pub fn init_ws_url(params: Option<&JsonValue>) -> (r: Option<String>)
    ensures
        match r {
            Some(s) => init_ws_url_spec(match params { Some(p) => Some(*p), None => None }) == Some(s@),
            None => init_ws_url_spec(match params { Some(p) => Some(*p), None => None }) is None,
        },
{
    match init_options_exec(params) {
        Some(o) => {
            let v = match get_member(o, "FIGMA_WS_URL") {
                Some(x) => Some(x),
                None => either_exec(o, "ws_url", "wsUrl"),
            };
            text_option_exec(v)
        },
        None => None,
    }
}

/// The channel that an `initialize` request's parameters set, if any.
pub fn init_channel(params: Option<&JsonValue>) -> (r: Option<String>)
    ensures
        match r {
            Some(s) => init_channel_spec(match params { Some(p) => Some(*p), None => None }) == Some(s@),
            None => init_channel_spec(match params { Some(p) => Some(*p), None => None }) is None,
        },
{
    match init_options_exec(params) {
        Some(o) => text_option_exec(either_exec(o, "FIGMA_CHANNEL", "channel")),
        None => None,
    }
}

// ---------------------------------------------------------------------
// Messages to and from the relay
// ---------------------------------------------------------------------

/// A request to join a channel, tagged with `id`.
pub open spec fn join_spec(channel: Seq<char>, id: Seq<char>) -> Json {
    Json::Object(
        seq![("type"@, Json::Str("join"@)), ("channel"@, Json::Str(channel)), ("id"@, Json::Str(id))],
    )
}

/// The message that joins `channel` (`init_join` when connecting,
/// `switch_channel` when a call switches).
pub fn join_message(channel: &str, id: &str) -> (r: JsonValue)
    ensures
        r@ == join_spec(channel@, id@),
{
    let mut m: Vec<(String, JsonValue)> = Vec::new();
    push_member(&mut m, "type", json_string("join"));
    push_member(&mut m, "channel", json_string(channel));
    push_member(&mut m, "id", json_string(id));
    assert(entries_view(m@) =~= seq![
        ("type"@, Json::Str("join"@)),
        ("channel"@, Json::Str(channel@)),
        ("id"@, Json::Str(id@)),
    ]);
    JsonValue::Object(m)
}

/// The envelope that carries a command to the plugin on `channel`.
pub open spec fn envelope_spec(channel: Seq<char>, req_id: Seq<char>, command: Seq<char>, params: Json) -> Json {
    Json::Object(
        seq![
            ("type"@, Json::Str("message"@)),
            ("channel"@, Json::Str(channel)),
            (
                "message"@,
                Json::Object(
                    seq![
                        ("id"@, Json::Str(req_id)),
                        ("command"@, Json::Str(command)),
                        ("params"@, params),
                    ],
                ),
            ),
        ],
    )
}

/// Wraps a command and its parameters for the plugin.
pub fn command_envelope(channel: &str, req_id: &str, command: &str, params: JsonValue) -> (r: JsonValue)
    ensures
        r@ == envelope_spec(channel@, req_id@, command@, params@),
{
    let ghost pv = params@;
    let mut inner: Vec<(String, JsonValue)> = Vec::new();
    push_member(&mut inner, "id", json_string(req_id));
    push_member(&mut inner, "command", json_string(command));
    push_member(&mut inner, "params", params);
    assert(entries_view(inner@) =~= seq![
        ("id"@, Json::Str(req_id@)),
        ("command"@, Json::Str(command@)),
        ("params"@, pv),
    ]);
    let mut m: Vec<(String, JsonValue)> = Vec::new();
    push_member(&mut m, "type", json_string("message"));
    push_member(&mut m, "channel", json_string(channel));
    push_member(&mut m, "message", JsonValue::Object(inner));
    assert(entries_view(m@) =~= seq![
        ("type"@, Json::Str("message"@)),
        ("channel"@, Json::Str(channel@)),
        ("message"@, Json::Object(seq![
            ("id"@, Json::Str(req_id@)),
            ("command"@, Json::Str(command@)),
            ("params"@, pv),
        ])),
    ]);
    JsonValue::Object(m)
}

/// The part of a relay message that carries the reply: its `message`
/// member where it has one, else the whole message.
pub open spec fn relay_inner(val: JsonValue) -> JsonValue {
    match lookup(val, "message"@) {
        Some(m) => m,
        None => val,
    }
}

/// The request id a relay message answers: the `id` of its reply part,
/// else its own `id`, where that is a string.
pub open spec fn relay_id(val: JsonValue) -> Option<Seq<char>> {
    let idv = match lookup(relay_inner(val), "id"@) {
        Some(x) => Some(x),
        None => lookup(val, "id"@),
    };
    match idv {
        Some(JsonValue::Str(s)) => Some(s@),
        _ => None,
    }
}

/// What a relay message answers: its `error` text, else its `result`,
/// else the whole reply part.
pub open spec fn relay_outcome(val: JsonValue) -> Result<Json, Seq<char>> {
    let inner = relay_inner(val);
    match lookup(inner, "error"@) {
        Some(JsonValue::Str(e)) => Err(e@),
        _ => match lookup(inner, "result"@) {
            Some(r) => Ok(json_view(r)),
            None => Ok(json_view(inner)),
        },
    }
}

/// Reads a message from the relay: the id of the request it answers and
/// the answer, or `None` when it names no request.
pub fn relay_reply(val: &JsonValue) -> (r: Option<(String, Result<JsonValue, String>)>)
    ensures
        match r {
            Some((id, out)) => relay_id(*val) == Some(id@) && match out {
                Ok(x) => relay_outcome(*val) == Ok::<Json, Seq<char>>(x@),
                Err(e) => relay_outcome(*val) == Err::<Json, Seq<char>>(e@),
            },
            None => relay_id(*val) is None,
        },
{
    let inner: &JsonValue = match get_member(val, "message") {
        Some(m) => m,
        None => val,
    };
    let idv = match get_member(inner, "id") {
        Some(x) => Some(x),
        None => get_member(val, "id"),
    };
    let id = match idv {
        Some(JsonValue::Str(s)) => s.clone(),
        _ => {
            return None;
        },
    };
    let out = match get_member(inner, "error") {
        Some(JsonValue::Str(e)) => Err(e.clone()),
        _ => match get_member(inner, "result") {
            Some(res) => Ok(clone_json(res)),
            None => Ok(clone_json(inner)),
        },
    };
    Some((id, out))
}

/// The channel a `join_channel` call switches to: its `channel` parameter
/// where that is a string.
pub fn join_channel_target(command: &str, params: &JsonValue) -> (r: Option<String>)
    ensures
        match r {
            Some(c) => command@ == "join_channel"@ && lookup_str(*params, "channel"@) == Some(c@),
            None => command@ != "join_channel"@ || lookup_str(*params, "channel"@) is None,
        },
{
    if is_word(&str_chars(command), "join_channel") {
        member_str(params, "channel")
    } else {
        None
    }
}

pub open spec fn joined_message_spec(channel: Seq<char>) -> Seq<char> {
    "Joined channel '"@ + channel + "'"@
}

/// What a `join_channel` call answers.
pub fn joined_channel_reply(channel: &str) -> (r: JsonValue)
    ensures
        r@ == Json::Object(seq![("message"@, Json::Str(joined_message_spec(channel@)))]),
{
    let mut t: Vec<char> = Vec::new();
    append_str(&mut t, "Joined channel '");
    append_str(&mut t, channel);
    append_str(&mut t, "'");
    let mut m: Vec<(String, JsonValue)> = Vec::new();
    push_member(&mut m, "message", JsonValue::Str(chars_to_string(&t)));
    assert(entries_view(m@) =~= seq![("message"@, Json::Str(joined_message_spec(channel@)))]);
    JsonValue::Object(m)
}

/// Whether a command reads nodes, whose replies are pruned.
pub open spec fn reads_nodes(command: Seq<char>) -> bool {
    command == "get_node_info"@ || command == "read_my_design"@
}

/// What a call answers from the plugin's result: for a command that reads
/// nodes, the pruned node where it is kept; otherwise the result itself.
pub fn relay_result(command: &str, val: JsonValue) -> (r: JsonValue)
    ensures
        r@ == (if reads_nodes(command@) {
            match filter_node_spec(val) {
                Some(j) => j,
                None => val@,
            }
        } else {
            val@
        }),
{
    let c = str_chars(command);
    if is_word(&c, "get_node_info") || is_word(&c, "read_my_design") {
        match filter_figma_node(&val) {
            Some(x) => x,
            None => val,
        }
    } else {
        val
    }
}

pub open spec fn timeout_message_spec(command: Seq<char>, url: Seq<char>, channel: Seq<char>) -> Seq<char> {
    "Command '"@ + command
        + "' timed out after 30s. Ensure cursor-talk-to-figma-socket is running at '"@ + url
        + "' and TalkToFigma in Figma is open in channel '"@ + channel + "'."@
}

/// The error of a call that got no reply in time.
pub fn timeout_message(command: &str, url: &str, channel: &str) -> (r: String)
    ensures
        r@ == timeout_message_spec(command@, url@, channel@),
{
    let mut m: Vec<char> = Vec::new();
    append_str(&mut m, "Command '");
    append_str(&mut m, command);
    append_str(&mut m, "' timed out after 30s. Ensure cursor-talk-to-figma-socket is running at '");
    append_str(&mut m, url);
    append_str(&mut m, "' and TalkToFigma in Figma is open in channel '");
    append_str(&mut m, channel);
    append_str(&mut m, "'.");
    chars_to_string(&m)
}

} // verus!
