//! The plugin development kit shared by every plugin: the records of the
//! plugin protocol (tools, calls, resources, prompts, binary status) and the
//! contract checks that plugins run in their tests: that tool definitions
//! are well formed, and the argument sets that probe required fields and
//! wrongly typed values.
use vstd::prelude::*;
use crate::text::{str_chars, chars_to_string, append_str, append_chars, trim_seq, trim_vec, utf8_len, utf8_len_exec};
use crate::json::{
    JsonValue, Json, json_view, lookup, lookup_str, get_member, member_str, clone_json, json_string,
    int_number, int_text, push_member, entries_view, members_of, lemma_entries_view_push,
};

verus! {

/// A plugin's name, version and description.
#[derive(Debug, Clone)]
pub struct PluginInfo {
    pub name: String,
    pub version: String,
    pub description: Option<String>,
}

/// A tool a plugin offers: its name, what it does, and the JSON schema of
/// its arguments.
#[derive(Debug)]
pub struct ToolDefinition {
    pub name: String,
    pub description: String,
    pub input_schema: JsonValue,
}

/// A call of a tool with its arguments.
#[derive(Debug)]
pub struct ToolCallRequest {
    pub name: String,
    pub arguments: JsonValue,
}

/// One page of a listing, with the cursor of the next one.
#[derive(Debug, Clone)]
pub struct Page<T> {
    pub items: T,
    pub cursor: Option<String>,
    pub has_more: bool,
}

/// A resource a plugin offers.
#[derive(Debug, Clone)]
pub struct ResourceDefinition {
    pub uri: String,
    pub name: String,
    pub description: String,
    pub mime_type: Option<String>,
}

/// A request to read a resource.
#[derive(Debug, Clone)]
pub struct ResourceReadRequest {
    pub uri: String,
}

/// An argument of a prompt.
#[derive(Debug, Clone)]
pub struct PromptArgument {
    pub name: String,
    pub description: Option<String>,
    pub required: Option<bool>,
}

/// A prompt a plugin offers.
#[derive(Debug)]
pub struct PromptDefinition {
    pub name: String,
    pub description: String,
    pub arguments: JsonValue,
}

/// A request for a prompt.
#[derive(Debug)]
pub struct PromptGetRequest {
    pub name: String,
    pub arguments: Option<JsonValue>,
}

/// Where a binary that the host provides stands.
#[derive(Debug, Clone, Copy, PartialEq, Eq)]
pub enum BinaryProvisionStatus {
    Installed,
    Provisioning,
    Missing,
    UnsupportedPlatform,
}

/// A report on a binary that the host provides.
#[derive(Debug, Clone)]
pub struct BinaryStatus {
    pub name: String,
    pub status: BinaryProvisionStatus,
    pub version: Option<String>,
    pub path: Option<String>,
    pub message: Option<String>,
}

// ---------------------------------------------------------------------
// Checking tool definitions
// ---------------------------------------------------------------------

/// Whether a tool name is lower-case snake case: ASCII lower-case letters
/// and underscores only.
pub open spec fn snake_name(n: Seq<char>) -> bool {
    forall|k: int| 0 <= k < n.len() ==> ('a' <= #[trigger] n[k] && n[k] <= 'z') || n[k] == '_'
}

/// The first property of a schema's `properties` without a description or
/// a type: the message about it.
pub open spec fn property_problem(tool: Seq<char>, props: Seq<(String, JsonValue)>) -> Option<Seq<char>>
    decreases props.len(),
{
    if props.len() == 0 {
        None
    } else {
        match property_problem(tool, props.drop_last()) {
            Some(m) => Some(m),
            None => {
                let p = props.last();
                if lookup(p.1, "description"@) is None {
                    Some("Tool '"@ + tool + "' property '"@ + p.0@ + "' must specify a description"@)
                } else if lookup(p.1, "type"@) is None {
                    Some("Tool '"@ + tool + "' property '"@ + p.0@ + "' must specify a type"@)
                } else {
                    None
                }
            },
        }
    }
}

/// What is wrong with one tool definition, if anything: the first failed
/// requirement's message.
pub open spec fn tool_problem(t: ToolDefinition) -> Option<Seq<char>> {
    let n = t.name@;
    if trim_seq(n).len() == 0 {
        Some("Tool name cannot be empty"@)
    } else if !snake_name(n) {
        Some("Tool '"@ + n + "' must be lowercase snake_case"@)
    } else if utf8_len(t.description@) < 10 {
        Some("Tool '"@ + n + "' description is too short or missing"@)
    } else if lookup_str(t.input_schema, "type"@) != Some("object"@) {
        Some("Tool '"@ + n + "' input_schema must be of type 'object'"@)
    } else {
        match lookup(t.input_schema, "properties"@) {
            Some(JsonValue::Object(props)) => property_problem(n, props@),
            _ => None,
        }
    }
}

/// The first problem among a list of tool definitions.
pub open spec fn tools_problem(ts: Seq<ToolDefinition>) -> Option<Seq<char>>
    decreases ts.len(),
{
    if ts.len() == 0 {
        None
    } else {
        match tools_problem(ts.drop_last()) {
            Some(m) => Some(m),
            None => tool_problem(ts.last()),
        }
    }
}

fn tool_message(a: &str, n: &[char], b: &str) -> (m: String)
    ensures
        m@ == a@ + n@ + b@,
{
    let mut v: Vec<char> = Vec::new();
    append_str(&mut v, a);
    append_chars(&mut v, n);
    append_str(&mut v, b);
    assert(v@ =~= a@ + n@ + b@);
    chars_to_string(&v)
}

fn property_message(n: &[char], p: &String, b: &str) -> (m: String)
    ensures
        m@ == "Tool '"@ + n@ + "' property '"@ + p@ + b@,
{
    let mut v: Vec<char> = Vec::new();
    append_str(&mut v, "Tool '");
    append_chars(&mut v, n);
    append_str(&mut v, "' property '");
    append_str(&mut v, p.as_str());
    append_str(&mut v, b);
    assert(v@ =~= "Tool '"@ + n@ + "' property '"@ + p@ + b@);
    chars_to_string(&v)
}

fn check_properties(n: &[char], props: &Vec<(String, JsonValue)>) -> (r: Result<(), String>)
    ensures
        match r {
            Ok(_) => property_problem(n@, props@) is None,
            Err(m) => property_problem(n@, props@) == Some(m@),
        },
{
    let mut i: usize = 0;
    while i < props.len()
        invariant
            i <= props.len(),
            property_problem(n@, props@.take(i as int)) is None,
        decreases props.len() - i,
    {
        assert(props@.take(i + 1).drop_last() =~= props@.take(i as int));
        let p = &props[i];
        if get_member(&p.1, "description").is_none() {
            proof {
                lemma_property_problem_prefix(n@, props@, i as int + 1);
            }
            return Err(property_message(n, &p.0, "' must specify a description"));
        }
        if get_member(&p.1, "type").is_none() {
            proof {
                lemma_property_problem_prefix(n@, props@, i as int + 1);
            }
            return Err(property_message(n, &p.0, "' must specify a type"));
        }
        i += 1;
    }
    assert(props@.take(props.len() as int) =~= props@);
    Ok(())
}

proof fn lemma_property_problem_prefix(tool: Seq<char>, props: Seq<(String, JsonValue)>, j: int)
    requires
        0 <= j <= props.len(),
        property_problem(tool, props.take(j)) is Some,
    ensures
        property_problem(tool, props) == property_problem(tool, props.take(j)),
    decreases props.len() - j,
{
    if j < props.len() {
        assert(props.take(j + 1).drop_last() =~= props.take(j));
        lemma_property_problem_prefix(tool, props, j + 1);
    } else {
        assert(props.take(j) =~= props);
    }
}

fn snake_exec(n: &[char]) -> (b: bool)
    ensures
        b == snake_name(n@),
{
    let mut i: usize = 0;
    while i < n.len()
        invariant
            i <= n.len(),
            forall|k: int| 0 <= k < i ==> ('a' <= #[trigger] n@[k] && n@[k] <= 'z') || n@[k] == '_',
        decreases n.len() - i,
    {
        let c = n[i];
        if !(('a' <= c && c <= 'z') || c == '_') {
            return false;
        }
        i += 1;
    }
    true
}

/// Checks one tool definition.
pub fn check_tool_definition(t: &ToolDefinition) -> (r: Result<(), String>)
    ensures
        match r {
            Ok(_) => tool_problem(*t) is None,
            Err(m) => tool_problem(*t) == Some(m@),
        },
{
    let n = str_chars(t.name.as_str());
    if trim_vec(&n).len() == 0 {
        return Err(String::from_str("Tool name cannot be empty"));
    }
    if !snake_exec(&n) {
        return Err(tool_message("Tool '", &n, "' must be lowercase snake_case"));
    }
    if utf8_len_exec(&str_chars(t.description.as_str())) < 10 {
        return Err(tool_message("Tool '", &n, "' description is too short or missing"));
    }
    let is_object = match member_str(&t.input_schema, "type") {
        Some(ty) => crate::markdown::is_word(&str_chars(ty.as_str()), "object"),
        None => false,
    };
    if !is_object {
        return Err(tool_message("Tool '", &n, "' input_schema must be of type 'object'"));
    }
    match get_member(&t.input_schema, "properties") {
        Some(JsonValue::Object(props)) => check_properties(&n, props),
        _ => Ok(()),
    }
}

/// Checks a plugin's tool definitions: there must be at least one, and each
/// must be well formed; the message of the first failed requirement.
pub fn check_tool_definitions(tools: &[ToolDefinition]) -> (r: Result<(), String>)
    ensures
        match r {
            Ok(_) => tools@.len() > 0 && tools_problem(tools@) is None,
            Err(m) => (tools@.len() == 0 && m@ == "Plugin must export at least one tool"@) || (
            tools@.len() > 0 && tools_problem(tools@) == Some(m@)),
        },
{
    if tools.len() == 0 {
        return Err(String::from_str("Plugin must export at least one tool"));
    }
    let mut i: usize = 0;
    while i < tools.len()
        invariant
            0 < tools.len(),
            i <= tools.len(),
            tools_problem(tools@.take(i as int)) is None,
        decreases tools.len() - i,
    {
        assert(tools@.take(i + 1).drop_last() =~= tools@.take(i as int));
        match check_tool_definition(&tools[i]) {
            Ok(_) => {},
            Err(m) => {
                proof {
                    lemma_tools_problem_prefix(tools@, i as int + 1);
                }
                return Err(m);
            },
        }
        i += 1;
    }
    assert(tools@.take(tools.len() as int) =~= tools@);
    Ok(())
}

proof fn lemma_tools_problem_prefix(ts: Seq<ToolDefinition>, j: int)
    requires
        0 <= j <= ts.len(),
        tools_problem(ts.take(j)) is Some,
    ensures
        tools_problem(ts) == tools_problem(ts.take(j)),
    decreases ts.len() - j,
{
    if j < ts.len() {
        assert(ts.take(j + 1).drop_last() =~= ts.take(j));
        lemma_tools_problem_prefix(ts, j + 1);
    } else {
        assert(ts.take(j) =~= ts);
    }
}

// ---------------------------------------------------------------------
// Probing arguments
// ---------------------------------------------------------------------

/// The declared type of a property (`string` where it declares none).
pub open spec fn declared_type(spec: JsonValue) -> Seq<char> {
    match lookup_str(spec, "type"@) {
        Some(t) => t,
        None => "string"@,
    }
}

/// A valid value for a property: the first of its `enum` values (an empty
/// string for an empty list), else a value of its declared type.
pub open spec fn mock_valid_spec(name: Seq<char>, spec: JsonValue) -> Json {
    match lookup(spec, "enum"@) {
        Some(JsonValue::Array(e)) => if e@.len() > 0 {
            json_view(e@[0])
        } else {
            Json::Str(Seq::empty())
        },
        _ => {
            let t = declared_type(spec);
            if t == "string"@ {
                Json::Str("mock_"@ + name)
            } else if t == "number"@ || t == "integer"@ {
                Json::Number(int_text(1), 255)
            } else if t == "boolean"@ {
                Json::Bool(true)
            } else if t == "array"@ {
                Json::Array(Seq::empty())
            } else if t == "object"@ {
                Json::Object(Seq::empty())
            } else {
                Json::Null
            }
        },
    }
}

/// A value of the wrong type for a property.
pub open spec fn mock_invalid_spec(spec: JsonValue) -> Json {
    let t = declared_type(spec);
    if t == "string"@ {
        Json::Number(int_text(123456), 255)
    } else if t == "number"@ || t == "integer"@ {
        Json::Str("invalid_number_string"@)
    } else if t == "boolean"@ {
        Json::Str("invalid_bool"@)
    } else if t == "array"@ {
        Json::Str("invalid_array"@)
    } else if t == "object"@ {
        Json::Str("invalid_object"@)
    } else {
        Json::Bool(true)
    }
}

fn declared_type_exec(spec: &JsonValue) -> (t: Vec<char>)
    ensures
        t@ == declared_type(*spec),
{
    match member_str(spec, "type") {
        Some(t) => str_chars(t.as_str()),
        None => str_chars("string"),
    }
}

/// A valid value for a property.
pub fn mock_valid_value(name: &str, spec: &JsonValue) -> (r: JsonValue)
    ensures
        r@ == mock_valid_spec(name@, *spec),
{
    if let Some(JsonValue::Array(e)) = get_member(spec, "enum") {
        if e.len() > 0 {
            return clone_json(&e[0]);
        } else {
            return JsonValue::Str(String::new());
        }
    }
    let t = declared_type_exec(spec);
    if crate::markdown::is_word(&t, "string") {
        let mut v: Vec<char> = Vec::new();
        append_str(&mut v, "mock_");
        append_str(&mut v, name);
        JsonValue::Str(chars_to_string(&v))
    } else if crate::markdown::is_word(&t, "number") || crate::markdown::is_word(&t, "integer") {
        int_number(1)
    } else if crate::markdown::is_word(&t, "boolean") {
        JsonValue::Bool(true)
    } else if crate::markdown::is_word(&t, "array") {
        let a = JsonValue::Array(Vec::new());
        assert(a@ =~= Json::Array(Seq::empty()));
        a
    } else if crate::markdown::is_word(&t, "object") {
        let o = JsonValue::Object(Vec::new());
        assert(o@ =~= Json::Object(Seq::empty()));
        o
    } else {
        JsonValue::Null
    }
}

/// A value of the wrong type for a property.
pub fn mock_invalid_value(spec: &JsonValue) -> (r: JsonValue)
    ensures
        r@ == mock_invalid_spec(*spec),
{
    let t = declared_type_exec(spec);
    if crate::markdown::is_word(&t, "string") {
        int_number(123456)
    } else if crate::markdown::is_word(&t, "number") || crate::markdown::is_word(&t, "integer") {
        json_string("invalid_number_string")
    } else if crate::markdown::is_word(&t, "boolean") {
        json_string("invalid_bool")
    } else if crate::markdown::is_word(&t, "array") {
        json_string("invalid_array")
    } else if crate::markdown::is_word(&t, "object") {
        json_string("invalid_object")
    } else {
        JsonValue::Bool(true)
    }
}

/// The arguments that probe a wrongly typed value: for each property of a
/// tool's schema, in order, the arguments holding only that property with a
/// value of the wrong type.
pub open spec fn invalid_cases_spec(props: Seq<(String, JsonValue)>) -> Seq<(Seq<char>, Json)>
    decreases props.len(),
{
    if props.len() == 0 {
        Seq::empty()
    } else {
        invalid_cases_spec(props.drop_last()).push(
            (
                props.last().0@,
                Json::Object(seq![(props.last().0@, mock_invalid_spec(props.last().1))]),
            ),
        )
    }
}

/// The properties of a tool's argument schema (none where it declares no
/// object of them).
pub open spec fn schema_properties(t: ToolDefinition) -> Seq<(String, JsonValue)> {
    match lookup(t.input_schema, "properties"@) {
        Some(JsonValue::Object(p)) => p@,
        _ => Seq::empty(),
    }
}

/// The property names and argument sets that probe wrongly typed values.
pub fn invalid_type_cases(t: &ToolDefinition) -> (r: Vec<(String, JsonValue)>)
    ensures
        r@.len() == invalid_cases_spec(schema_properties(*t)).len(),
        forall|k: int| 0 <= k < r@.len() ==> (#[trigger] r@[k]).0@ == invalid_cases_spec(schema_properties(*t))[k].0
            && r@[k].1@ == invalid_cases_spec(schema_properties(*t))[k].1,
{
    let mut out: Vec<(String, JsonValue)> = Vec::new();
    let props: &Vec<(String, JsonValue)> = match get_member(&t.input_schema, "properties") {
        Some(JsonValue::Object(p)) => p,
        _ => {
            return out;
        },
    };
    let mut i: usize = 0;
    while i < props.len()
        invariant
            i <= props.len(),
            schema_properties(*t) == props@,
            out@.len() == invalid_cases_spec(props@.take(i as int)).len(),
            forall|k: int| 0 <= k < out@.len() ==> (#[trigger] out@[k]).0@ == invalid_cases_spec(props@.take(i as int))[k].0
                && out@[k].1@ == invalid_cases_spec(props@.take(i as int))[k].1,
        decreases props.len() - i,
    {
        assert(props@.take(i + 1).drop_last() =~= props@.take(i as int));
        let name = &props[i].0;
        let mut payload: Vec<(String, JsonValue)> = Vec::new();
        let bad = mock_invalid_value(&props[i].1);
        proof {
            lemma_entries_view_push(payload@, (*name, bad));
        }
        payload.push((name.clone(), bad));
        assert(entries_view(payload@) =~= seq![(name@, mock_invalid_spec(props@[i as int].1))]);
        out.push((name.clone(), JsonValue::Object(payload)));
        i += 1;
    }
    assert(props@.take(props.len() as int) =~= props@);
    out
}


} // verus!

verus! {

/// Whether a value has a JSON schema type: `string`, `number` or
/// `integer`, `boolean`, `array`, `object`; any value has another type.
pub open spec fn has_schema_type(v: Json, t: Seq<char>) -> bool {
    if t == "string"@ {
        v is Str
    } else if t == "number"@ || t == "integer"@ {
        v is Number
    } else if t == "boolean"@ {
        v is Bool
    } else if t == "array"@ {
        v is Array
    } else if t == "object"@ {
        v is Object
    } else {
        true
    }
}

/// Whether `t` is one of the six JSON schema types that the probes know.
pub open spec fn known_schema_type(t: Seq<char>) -> bool {
    t == "string"@ || t == "number"@ || t == "integer"@ || t == "boolean"@ || t == "array"@
        || t == "object"@
}

/// The probes are sound: for a property of one of the six schema types,
/// the valid probe (where the property lists no `enum`) has the declared
/// type and the invalid probe does not.
pub proof fn law_probes_match_declared_type(name: Seq<char>, spec: JsonValue)
    requires
        known_schema_type(declared_type(spec)),
    ensures
        !(lookup(spec, "enum"@) matches Some(JsonValue::Array(_))) ==> has_schema_type(
            mock_valid_spec(name, spec),
            declared_type(spec),
        ),
        !has_schema_type(mock_invalid_spec(spec), declared_type(spec)),
{
    reveal_strlit("string");
    reveal_strlit("number");
    reveal_strlit("integer");
    reveal_strlit("boolean");
    reveal_strlit("array");
    reveal_strlit("object");
}

} // verus!
