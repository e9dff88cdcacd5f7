//! Decisions of the native sidecar: reading `--flag` command-line
//! arguments, routing a request to a handler method, and the typed
//! reading of argument values.
use vstd::prelude::*;
use crate::text::{append_str, chars_to_string, str_chars, starts_with};
use crate::lines::{find_char, find_char_from};
use crate::markdown::is_word;

verus! {

/// `s` with every `-` replaced by `_`.
pub open spec fn dashes_to_underscores(s: Seq<char>) -> Seq<char> {
    Seq::new(s.len(), |i: int| if s[i] == '-' { '_' } else { s[i] })
}

/// The assignments made by the flags from position `idx` on, in order:
/// `--key=value`; `--key value` when the next argument does not start with
/// `-`; else `--key` alone, which means `true`. Other arguments are passed
/// over. Dashes in keys become underscores.
pub open spec fn cli_ops(args: Seq<Seq<char>>, idx: int) -> Seq<(Seq<char>, Seq<char>)>
    decreases args.len() - idx,
{
    if idx < 0 || idx >= args.len() {
        seq![]
    } else {
        let a = args[idx];
        if starts_with(a, "--"@) {
            let s = a.skip(2);
            let p = find_char(s, '=');
            if p < s.len() {
                seq![(dashes_to_underscores(s.take(p)), s.skip(p + 1))] + cli_ops(args, idx + 1)
            } else if idx + 1 < args.len() && !starts_with(args[idx + 1], "-"@) {
                seq![(dashes_to_underscores(s), args[idx + 1])] + cli_ops(args, idx + 2)
            } else {
                seq![(dashes_to_underscores(s), "true"@)] + cli_ops(args, idx + 1)
            }
        } else {
            cli_ops(args, idx + 1)
        }
    }
}

/// The map after the assignments `ops`, later ones winning.
pub open spec fn apply_ops(m: Map<Seq<char>, Seq<char>>, ops: Seq<(Seq<char>, Seq<char>)>) -> Map<
    Seq<char>,
    Seq<char>,
>
    decreases ops.len(),
{
    if ops.len() == 0 {
        m
    } else {
        apply_ops(m.insert(ops[0].0, ops[0].1), ops.drop_first())
    }
}

/// The key-value map of a command line.
pub open spec fn cli_map(args: Seq<Seq<char>>) -> Map<Seq<char>, Seq<char>> {
    apply_ops(Map::empty(), cli_ops(args, 0))
}

pub open spec fn strings_view(v: Seq<String>) -> Seq<Seq<char>> {
    Seq::new(v.len(), |i: int| v[i]@)
}

pub open spec fn pair_key(v: Seq<(String, String)>, i: int) -> Seq<char> {
    v[i].0@
}

/// The map held by a list of pairs.
pub open spec fn pairs_map(v: Seq<(String, String)>) -> Map<Seq<char>, Seq<char>> {
    Map::new(
        |k: Seq<char>| exists|i: int| 0 <= i < v.len() && pair_key(v, i) == k,
        |k: Seq<char>| v[choose|i: int| 0 <= i < v.len() && pair_key(v, i) == k].1@,
    )
}

/// No key occurs twice.
pub open spec fn distinct_keys(v: Seq<(String, String)>) -> bool {
    forall|i: int, j: int|
        0 <= i < v.len() && 0 <= j < v.len() && i != j ==> pair_key(v, i) != pair_key(v, j)
}

proof fn lemma_pairs_map_push(v: Seq<(String, String)>, k: String, val: String)
    requires
        distinct_keys(v),
        forall|i: int| 0 <= i < v.len() ==> pair_key(v, i) != k@,
    ensures
        distinct_keys(v.push((k, val))),
        pairs_map(v.push((k, val))) =~= pairs_map(v).insert(k@, val@),
{
    let w = v.push((k, val));
    assert(pair_key(w, v.len() as int) == k@);
    assert forall|i: int| 0 <= i < v.len() implies pair_key(w, i) == pair_key(v, i) by {}
    assert forall|kk: Seq<char>| #[trigger] pairs_map(w).contains_key(kk) <==> pairs_map(v).insert(
        k@,
        val@,
    ).contains_key(kk) by {
        if pairs_map(v).contains_key(kk) {
            let i = choose|i: int| 0 <= i < v.len() && pair_key(v, i) == kk;
            assert(pair_key(w, i) == kk);
        }
        if kk == k@ {
            assert(pair_key(w, v.len() as int) == kk);
        }
    }
    assert forall|kk: Seq<char>| #[trigger] pairs_map(w).contains_key(kk) implies pairs_map(w)[kk]
        == pairs_map(v).insert(k@, val@)[kk] by {
        let i = choose|i: int| 0 <= i < w.len() && pair_key(w, i) == kk;
        if kk == k@ {
            assert(i == v.len());
        } else {
            let j = choose|j: int| 0 <= j < v.len() && pair_key(v, j) == kk;
            assert(pair_key(w, j) == kk);
            assert(i == j);
        }
    }
}

proof fn lemma_pairs_map_set(v: Seq<(String, String)>, at: int, val: String)
    requires
        distinct_keys(v),
        0 <= at < v.len(),
    ensures
        distinct_keys(v.update(at, (v[at].0, val))),
        pairs_map(v.update(at, (v[at].0, val))) =~= pairs_map(v).insert(pair_key(v, at), val@),
{
    let w = v.update(at, (v[at].0, val));
    assert forall|i: int| 0 <= i < v.len() implies pair_key(w, i) == pair_key(v, i) by {}
    assert forall|kk: Seq<char>| #[trigger] pairs_map(w).contains_key(kk) <==> pairs_map(v).insert(
        pair_key(v, at),
        val@,
    ).contains_key(kk) by {
        if pairs_map(v).contains_key(kk) {
            let i = choose|i: int| 0 <= i < v.len() && pair_key(v, i) == kk;
            assert(pair_key(w, i) == kk);
        }
        if pairs_map(w).contains_key(kk) {
            let i = choose|i: int| 0 <= i < w.len() && pair_key(w, i) == kk;
            assert(pair_key(v, i) == kk);
        }
        assert(pair_key(w, at) == pair_key(v, at));
    }
    assert forall|kk: Seq<char>| #[trigger] pairs_map(w).contains_key(kk) implies pairs_map(w)[kk]
        == pairs_map(v).insert(pair_key(v, at), val@)[kk] by {
        let i = choose|i: int| 0 <= i < w.len() && pair_key(w, i) == kk;
        if kk == pair_key(v, at) {
            assert(i == at);
        } else {
            let j = choose|j: int| 0 <= j < v.len() && pair_key(v, j) == kk;
            assert(pair_key(w, j) == kk);
            assert(i == j);
        }
    }
}

/// Sets `key` to `value`: replaces the value of an existing pair, or adds a
/// pair at the end.
fn insert_pair(pairs: &mut Vec<(String, String)>, key: String, value: String)
    requires
        distinct_keys(old(pairs)@),
    ensures
        distinct_keys(final(pairs)@),
        pairs_map(final(pairs)@) == pairs_map(old(pairs)@).insert(key@, value@),
{
    let kv = str_chars(key.as_str());
    let mut i: usize = 0;
    while i < pairs.len()
        invariant
            i <= pairs.len(),
            kv@ == key@,
            pairs@ == old(pairs)@,
            distinct_keys(pairs@),
            forall|j: int| 0 <= j < i ==> pair_key(pairs@, j) != key@,
        decreases pairs.len() - i,
    {
        let pk = str_chars(pairs[i].0.as_str());
        if crate::markdown::same_chars(&pk, &kv) {
            let ghost before = pairs@;
            let k2 = pairs[i].0.clone();
            proof {
                lemma_pairs_map_set(before, i as int, value);
            }
            pairs.set(i, (k2, value));
            assert(pairs@ == before.update(i as int, (before[i as int].0, value)));
            return;
        }
        i += 1;
    }
    proof {
        lemma_pairs_map_push(pairs@, key, value);
    }
    pairs.push((key, value));
}

} // verus!

verus! {

fn dashes_to_underscores_exec(v: &[char]) -> (out: Vec<char>)
    ensures
        out@ == dashes_to_underscores(v@),
{
    let mut out: Vec<char> = Vec::new();
    let mut i: usize = 0;
    while i < v.len()
        invariant
            i <= v.len(),
            out@ =~= dashes_to_underscores(v@.take(i as int)),
        decreases v.len() - i,
    {
        let c = if v[i] == '-' { '_' } else { v[i] };
        out.push(c);
        i += 1;
    }
    assert(v@.take(v.len() as int) =~= v@);
    out
}

proof fn lemma_apply_ops_cons(
    m: Map<Seq<char>, Seq<char>>,
    x: (Seq<char>, Seq<char>),
    rest: Seq<(Seq<char>, Seq<char>)>,
)
    ensures
        apply_ops(m, seq![x] + rest) == apply_ops(m.insert(x.0, x.1), rest),
{
    assert((seq![x] + rest).drop_first() =~= rest);
    assert((seq![x] + rest)[0] == x);
}

/// Reads `--key=value`, `--key value` and `--key` (meaning `true`) flags
/// into key-value pairs, dashes in keys turned into underscores; a key set
/// twice keeps its last value. Arguments that are not flags are passed over.
/// The pairs come in a vector with distinct keys, read as a map: a hash
/// map keyed by text has no usable specification in vstd.
pub fn parse_cli_args(args: &[String]) -> (r: Vec<(String, String)>)
    ensures
        distinct_keys(r@),
        pairs_map(r@) == cli_map(strings_view(args@)),
{
    let ghost sv = strings_view(args@);
    let mut map: Vec<(String, String)> = Vec::new();
    let mut idx: usize = 0;
    assert(pairs_map(map@) =~= Map::<Seq<char>, Seq<char>>::empty());
    while idx < args.len()
        invariant
            idx <= args.len(),
            sv == strings_view(args@),
            distinct_keys(map@),
            cli_map(sv) == apply_ops(pairs_map(map@), cli_ops(sv, idx as int)),
        decreases args.len() - idx,
    {
        let a = str_chars(args[idx].as_str());
        assert(sv[idx as int] == a@);
        if crate::text::starts_with_exec(&a, &str_chars("--")) {
            proof {
                reveal_strlit("--");
            }
            let s = crate::text::slice_vec(&a, 2, a.len());
            assert(s@ =~= a@.skip(2));
            let p = find_char_from(&s, '=', 0);
            assert(s@.skip(0) =~= s@);
            if p < s.len() {
                let k = dashes_to_underscores_exec(&crate::text::slice_vec(&s, 0, p));
                let v = crate::text::slice_vec(&s, p + 1, s.len());
                assert(s@.subrange(0, p as int) =~= s@.take(p as int));
                assert(v@ =~= s@.skip(p + 1));
                let ghost m0 = pairs_map(map@);
                insert_pair(&mut map, chars_to_string(&k), chars_to_string(&v));
                proof {
                    lemma_apply_ops_cons(m0, (k@, v@), cli_ops(sv, idx + 1));
                }
                idx += 1;
            } else if idx + 1 < args.len() && !crate::text::starts_with_exec(
                &str_chars(args[idx + 1].as_str()),
                &str_chars("-"),
            ) {
                let k = dashes_to_underscores_exec(&s);
                let v = args[idx + 1].clone();
                assert(sv[idx + 1] == v@);
                let ghost m0 = pairs_map(map@);
                insert_pair(&mut map, chars_to_string(&k), v);
                proof {
                    lemma_apply_ops_cons(m0, (k@, v@), cli_ops(sv, idx + 2));
                }
                idx += 2;
            } else {
                let k = dashes_to_underscores_exec(&s);
                let v = String::from_str("true");
                let ghost m0 = pairs_map(map@);
                insert_pair(&mut map, chars_to_string(&k), v);
                proof {
                    lemma_apply_ops_cons(m0, (k@, v@), cli_ops(sv, idx + 1));
                }
                idx += 1;
            }
        } else {
            idx += 1;
        }
    }
    map
}

} // verus!

verus! {

/// What the sidecar does with a request.
#[derive(Debug, Clone, PartialEq, Eq)]
pub enum SidecarAction {
    Info,
    ListTools,
    CallTool,
    CallNamed,
    Unknown(String),
}

pub open spec fn unknown_method_message(method: Seq<char>) -> Seq<char> {
    "Unknown method: "@ + method
}

/// Routes a request by its `method` (empty when absent): `info`,
/// `mcp_info`; `list_tools`, `mcp_list_tools`, `tools/list`; `call_tool`,
/// `mcp_call_tool`, `tools/call`; any other method with a tool `name` calls
/// that tool; anything else is an unknown method.
pub fn sidecar_action(method: Option<&str>, has_name: bool) -> (r: SidecarAction)
    ensures
        ({
            let m = match method {
                Some(s) => s@,
                None => seq![],
            };
            if m == "info"@ || m == "mcp_info"@ {
                r == SidecarAction::Info
            } else if m == "list_tools"@ || m == "mcp_list_tools"@ || m == "tools/list"@ {
                r == SidecarAction::ListTools
            } else if m == "call_tool"@ || m == "mcp_call_tool"@ || m == "tools/call"@ {
                r == SidecarAction::CallTool
            } else if has_name {
                r == SidecarAction::CallNamed
            } else {
                r matches SidecarAction::Unknown(msg) && msg@ == unknown_method_message(m)
            }
        }),
{
    let m: Vec<char> = match method {
        Some(s) => str_chars(s),
        None => Vec::new(),
    };
    if is_word(&m, "info") || is_word(&m, "mcp_info") {
        SidecarAction::Info
    } else if is_word(&m, "list_tools") || is_word(&m, "mcp_list_tools") || is_word(
        &m,
        "tools/list",
    ) {
        SidecarAction::ListTools
    } else if is_word(&m, "call_tool") || is_word(&m, "mcp_call_tool") || is_word(
        &m,
        "tools/call",
    ) {
        SidecarAction::CallTool
    } else if has_name {
        SidecarAction::CallNamed
    } else {
        let mut msg: Vec<char> = Vec::new();
        append_str(&mut msg, "Unknown method: ");
        crate::text::append_chars(&mut msg, &m);
        SidecarAction::Unknown(chars_to_string(&msg))
    }
}

/// How a raw argument value is read for a declared JSON schema type.
#[derive(Debug, Clone, Copy, PartialEq, Eq)]
pub enum ValueKind {
    Number,
    Boolean,
    Json,
    Text,
}

/// `integer` and `number` are numbers, `boolean` a truth value, `object`
/// and `array` JSON text; anything else is kept as text.
pub fn value_kind(target_type: &str) -> (k: ValueKind)
    ensures
        k == (if target_type@ == "integer"@ || target_type@ == "number"@ {
            ValueKind::Number
        } else if target_type@ == "boolean"@ {
            ValueKind::Boolean
        } else if target_type@ == "object"@ || target_type@ == "array"@ {
            ValueKind::Json
        } else {
            ValueKind::Text
        }),
{
    let t = str_chars(target_type);
    if is_word(&t, "integer") || is_word(&t, "number") {
        ValueKind::Number
    } else if is_word(&t, "boolean") {
        ValueKind::Boolean
    } else if is_word(&t, "object") || is_word(&t, "array") {
        ValueKind::Json
    } else {
        ValueKind::Text
    }
}

pub open spec fn bool_error_message(raw: Seq<char>) -> Seq<char> {
    "Failed to parse '"@ + raw + "' as boolean"@
}

pub open spec fn number_error_message(raw: Seq<char>) -> Seq<char> {
    "Failed to parse '"@ + raw + "' as number"@
}

/// Reads a truth value, ASCII case-blind: `true`, `1`, `yes` or `false`,
/// `0`, `no`.
pub fn parse_bool_word(raw: &str) -> (r: Result<bool, String>)
    ensures
        ({
            let l = crate::text::ascii_lower_seq(raw@);
            if l == "true"@ || l == "1"@ || l == "yes"@ {
                r == Ok::<bool, String>(true)
            } else if l == "false"@ || l == "0"@ || l == "no"@ {
                r == Ok::<bool, String>(false)
            } else {
                r matches Err(e) && e@ == bool_error_message(raw@)
            }
        }),
{
    let v = str_chars(raw);
    let l = crate::text::ascii_lower_vec(&v);
    if is_word(&l, "true") || is_word(&l, "1") || is_word(&l, "yes") {
        Ok(true)
    } else if is_word(&l, "false") || is_word(&l, "0") || is_word(&l, "no") {
        Ok(false)
    } else {
        let mut m: Vec<char> = Vec::new();
        append_str(&mut m, "Failed to parse '");
        crate::text::append_chars(&mut m, &v);
        append_str(&mut m, "' as boolean");
        Err(chars_to_string(&m))
    }
}

/// The message for a value that reads as no number.
pub fn number_error(raw: &str) -> (e: String)
    ensures
        e@ == number_error_message(raw@),
{
    let mut m: Vec<char> = Vec::new();
    append_str(&mut m, "Failed to parse '");
    append_str(&mut m, raw);
    append_str(&mut m, "' as number");
    chars_to_string(&m)
}

/// What `str::parse::<i64>` gives: an optional sign, then one or more ASCII
/// digits whose signed value fits in an `i64`.
pub open spec fn parse_i64_spec(s: Seq<char>) -> Option<i64> {
    let neg = s.len() > 0 && s[0] == '-';
    let d = if s.len() > 0 && (s[0] == '+' || s[0] == '-') {
        s.drop_first()
    } else {
        s
    };
    if d.len() > 0 && crate::text::all_digits(d) {
        let v = crate::text::digits_value(d);
        if neg && v <= 0x8000_0000_0000_0000 {
            Some((0 - v) as i64)
        } else if !neg && v <= 0x7fff_ffff_ffff_ffff {
            Some(v as i64)
        } else {
            None
        }
    } else {
        None
    }
}

proof fn lemma_digits_value_prefix(s: Seq<char>, i: int)
    requires
        0 <= i <= s.len(),
        crate::text::all_digits(s),
    ensures
        crate::text::digits_value(s.take(i)) <= crate::text::digits_value(s),
    decreases s.len() - i,
{
    if i < s.len() {
        assert(s.drop_last().take(i) =~= s.take(i));
        assert(crate::text::all_digits(s.drop_last())) by {
            assert forall|k: int| 0 <= k < s.drop_last().len() implies crate::text::is_digit(
                #[trigger] s.drop_last()[k],
            ) by {
                assert(s.drop_last()[k] == s[k]);
            }
        }
        lemma_digits_value_prefix(s.drop_last(), i);
    } else {
        assert(s.take(i) =~= s);
    }
}

/// Parses a signed 64-bit decimal number as `str::parse::<i64>` does.
pub fn parse_i64(raw: &str) -> (r: Option<i64>)
    ensures
        r == parse_i64_spec(raw@),
{
    let v = str_chars(raw);
    let neg = v.len() > 0 && v[0] == '-';
    let start: usize = if v.len() > 0 && (v[0] == '+' || v[0] == '-') { 1 } else { 0 };
    let ghost d = if v@.len() > 0 && (v@[0] == '+' || v@[0] == '-') { v@.drop_first() } else { v@ };
    assert(d =~= v@.skip(start as int));
    if start >= v.len() {
        return None;
    }
    let mut acc: u64 = 0;
    let mut i = start;
    while i < v.len()
        invariant
            start <= i <= v.len(),
            d == v@.skip(start as int),
            d == (if v@.len() > 0 && (v@[0] == '+' || v@[0] == '-') { v@.drop_first() } else { v@ }),
            neg == (v@.len() > 0 && v@[0] == '-'),
            v@ == raw@,
            d.len() > 0,
            forall|k: int| 0 <= k < i - start ==> crate::text::is_digit(#[trigger] d[k]),
            acc == crate::text::digits_value(d.take(i - start)),
            acc <= 0x8000_0000_0000_0000,
        decreases v.len() - i,
    {
        let c = v[i];
        assert(d[i - start] == c);
        if !('0' <= c && c <= '9') {
            assert(!crate::text::is_digit(d[i - start]));
            return None;
        }
        assert(d.take(i - start + 1).drop_last() =~= d.take(i - start));
        let big = acc > 922_337_203_685_477_580;
        let next: u64 = if big { 0 } else { acc * 10 + (c as u32 - 48) as u64 };
        if big || next > 0x8000_0000_0000_0000 {
            proof {
                assert(crate::text::digits_value(d.take(i - start + 1)) == acc * 10 + (c as u32
                    - 48));
                if crate::text::all_digits(d) {
                    lemma_digits_value_prefix(d, i - start + 1);
                }
            }
            return None;
        }
        acc = next;
        i += 1;
    }
    assert(d.take(i - start) =~= d);
    if neg {
        if acc == 0x8000_0000_0000_0000 {
            Some(i64::MIN)
        } else {
            Some(0 - (acc as i64))
        }
    } else if acc <= 0x7fff_ffff_ffff_ffff {
        Some(acc as i64)
    } else {
        None
    }
}

} // verus!

verus! {

/// The model of an optional value.
pub open spec fn opt_json(v: Option<crate::json::JsonValue>) -> Option<crate::json::Json> {
    match v {
        Some(x) => Some(x@),
        None => None,
    }
}

/// The model of a call's outcome.
pub open spec fn result_json(r: Result<crate::json::JsonValue, String>) -> Result<crate::json::Json, Seq<char>> {
    match r {
        Ok(x) => Ok(x@),
        Err(e) => Err(e@),
    }
}

/// The reply to a request: a JSON-RPC 2.0 result or error (code -32000)
/// where the request has an id, else a plain status record.
pub open spec fn response_spec(id: Option<crate::json::Json>, result: Result<crate::json::Json, Seq<char>>) -> crate::json::Json {
    match id {
        Some(i) => match result {
            Ok(v) => crate::json::Json::Object(
                seq![("jsonrpc"@, crate::json::Json::Str("2.0"@)), ("id"@, i), ("result"@, v)],
            ),
            Err(e) => crate::json::Json::Object(
                seq![
                    ("jsonrpc"@, crate::json::Json::Str("2.0"@)),
                    ("id"@, i),
                    (
                        "error"@,
                        crate::json::Json::Object(
                            seq![
                                ("code"@, crate::json::Json::Number(crate::json::int_text(-32000i64), 0)),
                                ("message"@, crate::json::Json::Str(e)),
                            ],
                        ),
                    ),
                ],
            ),
        },
        None => match result {
            Ok(v) => crate::json::Json::Object(
                seq![("status"@, crate::json::Json::Str("success"@)), ("result"@, v)],
            ),
            Err(e) => crate::json::Json::Object(
                seq![("status"@, crate::json::Json::Str("error"@)), ("error"@, crate::json::Json::Str(e))],
            ),
        },
    }
}

/// Builds the reply to a request from its id and the call's outcome.
pub fn format_response(id: Option<crate::json::JsonValue>, result: Result<crate::json::JsonValue, String>) -> (r: crate::json::JsonValue)
    ensures
        r@ == response_spec(opt_json(id), result_json(result)),
{
    let ghost idv = opt_json(id);
    let ghost rv = result_json(result);
    let mut m: Vec<(String, crate::json::JsonValue)> = Vec::new();
    match id {
        Some(i) => {
            crate::json::push_member(&mut m, "jsonrpc", crate::json::json_string("2.0"));
            crate::json::push_member(&mut m, "id", i);
            match result {
                Ok(v) => {
                    crate::json::push_member(&mut m, "result", v);
                },
                Err(e) => {
                    let mut em: Vec<(String, crate::json::JsonValue)> = Vec::new();
                    crate::json::push_member(&mut em, "code", crate::json::int_number(-32000));
                    crate::json::push_member(&mut em, "message", crate::json::JsonValue::Str(e));
                    assert(crate::json::entries_view(em@) =~= seq![
                        ("code"@, crate::json::Json::Number(crate::json::int_text(-32000i64), 0)),
                        ("message"@, crate::json::Json::Str(rv->Err_0)),
                    ]);
                    crate::json::push_member(&mut m, "error", crate::json::JsonValue::Object(em));
                },
            }
        },
        None => {
            match result {
                Ok(v) => {
                    crate::json::push_member(&mut m, "status", crate::json::json_string("success"));
                    crate::json::push_member(&mut m, "result", v);
                },
                Err(e) => {
                    crate::json::push_member(&mut m, "status", crate::json::json_string("error"));
                    crate::json::push_member(&mut m, "error", crate::json::JsonValue::Str(e));
                },
            }
        },
    }
    assert(crate::json::JsonValue::Object(m)@ =~= response_spec(idv, rv)) by {
        assert(crate::json::entries_view(m@) =~= match response_spec(idv, rv) {
            crate::json::Json::Object(es) => es,
            _ => Seq::empty(),
        });
    }
    crate::json::JsonValue::Object(m)
}

/// The tool call a request makes: from its parameters (a `name` string and
/// `arguments`, or a two-element array of them), else from its own `name`
/// and `arguments`; a missing name is empty and missing arguments are `{}`.
pub open spec fn call_request_spec(
    params: Option<crate::json::JsonValue>,
    name: Option<Seq<char>>,
    arguments: Option<crate::json::Json>,
) -> (Seq<char>, crate::json::Json) {
    match params {
        Some(p) => {
            if p is Array && p->Array_0@.len() == 2 && p->Array_0@[0] is Str {
                (p->Array_0@[0]->Str_0@, p->Array_0@[1]@)
            } else {
                (
                    match crate::json::lookup_str(p, "name"@) {
                        Some(n) => n,
                        None => Seq::empty(),
                    },
                    match crate::json::lookup(p, "arguments"@) {
                        Some(a) => a@,
                        None => crate::json::Json::Object(Seq::empty()),
                    },
                )
            }
        },
        None => match name {
            Some(n) => (
                n,
                match arguments {
                    Some(a) => a,
                    None => crate::json::Json::Object(Seq::empty()),
                },
            ),
            None => (Seq::empty(), crate::json::Json::Object(Seq::empty())),
        },
    }
}

/// The tool name and arguments of a call request.
pub fn call_request(
    params: Option<&crate::json::JsonValue>,
    name: Option<&str>,
    arguments: Option<crate::json::JsonValue>,
) -> (r: (String, crate::json::JsonValue))
    ensures
        (r.0@, r.1@) == call_request_spec(
            match params {
                Some(p) => Some(*p),
                None => None,
            },
            match name {
                Some(n) => Some(n@),
                None => None,
            },
            opt_json(arguments),
        ),
{
    let empty_args = crate::json::JsonValue::Object(Vec::new());
    assert(empty_args@ =~= crate::json::Json::Object(Seq::empty()));
    match params {
        Some(p) => {
            if let crate::json::JsonValue::Array(a) = p {
                if a.len() == 2 {
                    if let crate::json::JsonValue::Str(n) = &a[0] {
                        return (n.clone(), crate::json::clone_json(&a[1]));
                    }
                }
            }
            let n = match crate::json::member_str(p, "name") {
                Some(n) => n,
                None => String::new(),
            };
            let args = match crate::json::get_member(p, "arguments") {
                Some(a) => crate::json::clone_json(a),
                None => empty_args,
            };
            (n, args)
        },
        None => match name {
            Some(n) => (
                chars_to_string(&str_chars(n)),
                match arguments {
                    Some(a) => a,
                    None => empty_args,
                },
            ),
            None => (String::new(), empty_args),
        },
    }
}

} // verus!

verus! {

/// A raw argument of a tool: its name, its text, and the type its property
/// declares (`None` for a flag that no property declares).
#[derive(Debug, Clone, PartialEq, Eq)]
pub struct RawArgument {
    pub name: String,
    pub raw: String,
    pub declared_type: Option<String>,
}

/// The model of a raw argument.
pub open spec fn raw_view(a: RawArgument) -> (Seq<char>, Seq<char>, Option<Seq<char>>) {
    (
        a.name@,
        a.raw@,
        match a.declared_type {
            Some(t) => Some(t@),
            None => None,
        },
    )
}

pub open spec fn raws_view(v: Seq<RawArgument>) -> Seq<(Seq<char>, Seq<char>, Option<Seq<char>>)> {
    Seq::new(v.len(), |i: int| raw_view(v[i]))
}

/// The text of property `name`: its command-line value, else its
/// environment value.
pub open spec fn property_source(cli: Seq<(String, String)>, name: Seq<char>, env: Option<String>) -> Option<
    Seq<char>,
> {
    if pairs_map(cli).dom().contains(name) {
        Some(pairs_map(cli)[name])
    } else {
        match env {
            Some(e) => Some(e@),
            None => None,
        }
    }
}

/// The raw arguments of the first `n` declared properties (name, type), in
/// order: each one that has a text.
pub open spec fn declared_raw(
    cli: Seq<(String, String)>,
    props: Seq<(String, String)>,
    env: Seq<Option<String>>,
    n: int,
) -> Seq<(Seq<char>, Seq<char>, Option<Seq<char>>)>
    decreases n,
{
    if n <= 0 {
        Seq::empty()
    } else {
        let before = declared_raw(cli, props, env, n - 1);
        match property_source(cli, props[n - 1].0@, env[n - 1]) {
            Some(raw) => before.push((props[n - 1].0@, raw, Some(props[n - 1].1@))),
            None => before,
        }
    }
}

/// Whether some property declares `k`.
pub open spec fn is_declared(props: Seq<(String, String)>, k: Seq<char>) -> bool {
    exists|j: int| 0 <= j < props.len() && props[j].0@ == k
}

/// The command-line flags that no property declares, in order, as text.
pub open spec fn undeclared_raw(cli: Seq<(String, String)>, props: Seq<(String, String)>) -> Seq<
    (Seq<char>, Seq<char>, Option<Seq<char>>),
>
    decreases cli.len(),
{
    if cli.len() == 0 {
        Seq::empty()
    } else {
        let before = undeclared_raw(cli.drop_last(), props);
        if is_declared(props, cli.last().0@) {
            before
        } else {
            before.push((cli.last().0@, cli.last().1@, None))
        }
    }
}

proof fn lemma_pairs_map_at(cli: Seq<(String, String)>, i: int)
    requires
        distinct_keys(cli),
        0 <= i < cli.len(),
    ensures
        pairs_map(cli).dom().contains(cli[i].0@),
        pairs_map(cli)[cli[i].0@] == cli[i].1@,
{
    assert(pair_key(cli, i) == cli[i].0@);
    let j = choose|j: int| 0 <= j < cli.len() && pair_key(cli, j) == cli[i].0@;
    assert(pair_key(cli, j) == pair_key(cli, i));
}

fn same_text(a: &String, b: &String) -> (r: bool)
    ensures
        r == (a@ == b@),
{
    crate::markdown::same_chars(&str_chars(a.as_str()), &str_chars(b.as_str()))
}

fn copy_text(s: &String) -> (r: String)
    ensures
        r@ == s@,
{
    chars_to_string(&str_chars(s.as_str()))
}

/// The command-line value of `name`, where the command line sets it.
fn cli_value(cli: &[(String, String)], name: &String) -> (r: Option<String>)
    requires
        distinct_keys(cli@),
    ensures
        match r {
            Some(v) => pairs_map(cli@).dom().contains(name@) && v@ == pairs_map(cli@)[name@],
            None => !pairs_map(cli@).dom().contains(name@),
        },
{
    let mut i: usize = 0;
    while i < cli.len()
        invariant
            i <= cli.len(),
            distinct_keys(cli@),
            forall|j: int| 0 <= j < i ==> pair_key(cli@, j) != name@,
        decreases cli.len() - i,
    {
        if same_text(&cli[i].0, name) {
            proof {
                lemma_pairs_map_at(cli@, i as int);
            }
            return Some(copy_text(&cli[i].1));
        }
        i += 1;
    }
    None
}

fn declares(props: &[(String, String)], k: &String) -> (r: bool)
    ensures
        r == is_declared(props@, k@),
{
    let mut j: usize = 0;
    while j < props.len()
        invariant
            j <= props.len(),
            forall|m: int| 0 <= m < j ==> props@[m].0@ != k@,
        decreases props.len() - j,
    {
        if same_text(&props[j].0, k) {
            return true;
        }
        j += 1;
    }
    false
}

/// Gathers the raw arguments of a tool from its command line (flags as
/// `parse_cli_args` reads them) and the environment value of each declared
/// property (name, type), `env[i]` standing for `props[i]`: first each
/// declared property, in order, with its command-line value or else its
/// environment value, where either exists; then each flag that no property
/// declares, as text.
pub fn raw_arguments(
    cli: &[(String, String)],
    props: &[(String, String)],
    env: &[Option<String>],
) -> (r: Vec<RawArgument>)
    requires
        distinct_keys(cli@),
        props.len() == env.len(),
    ensures
        raws_view(r@) == declared_raw(cli@, props@, env@, props@.len() as int) + undeclared_raw(
            cli@,
            props@,
        ),
{
    let mut out: Vec<RawArgument> = Vec::new();
    let mut i: usize = 0;
    while i < props.len()
        invariant
            i <= props.len(),
            props.len() == env.len(),
            distinct_keys(cli@),
            raws_view(out@) == declared_raw(cli@, props@, env@, i as int),
        decreases props.len() - i,
    {
        let name = &props[i].0;
        let source = match cli_value(cli, name) {
            Some(v) => Some(v),
            None => match &env[i] {
                Some(e) => Some(copy_text(e)),
                None => None,
            },
        };
        if let Some(raw) = source {
            let ghost before = raws_view(out@);
            out.push(RawArgument { name: copy_text(name), raw, declared_type: Some(copy_text(&props[i].1)) });
            assert(raws_view(out@) =~= before.push(raw_view(out@[out@.len() - 1])));
        }
        i += 1;
    }
    let ghost declared = raws_view(out@);
    let mut k: usize = 0;
    while k < cli.len()
        invariant
            k <= cli.len(),
            raws_view(out@) == declared + undeclared_raw(cli@.take(k as int), props@),
        decreases cli.len() - k,
    {
        assert(cli@.take(k + 1).drop_last() =~= cli@.take(k as int));
        assert(cli@.take(k + 1).last() == cli@[k as int]);
        if !declares(props, &cli[k].0) {
            let ghost before = raws_view(out@);
            out.push(RawArgument { name: copy_text(&cli[k].0), raw: copy_text(&cli[k].1), declared_type: None });
            assert(raws_view(out@) =~= before.push(raw_view(out@[out@.len() - 1])));
        }
        k += 1;
    }
    assert(cli@.take(cli.len() as int) =~= cli@);
    out
}

} // verus!
