//! The email template service client (mhb-mconnect): tool routing, the
//! service's base URL and endpoints, argument checks, and the reading of
//! the native helper's reply when the plugin runs inside the host.
use vstd::prelude::*;
use crate::text::{str_chars, chars_to_string, append_str, trim_seq, trim_vec};
use crate::markdown::is_word;
use crate::json::{JsonValue, Json, lookup, lookup_str, get_member, clone_json};
use crate::figma_relay::{either, opt_view};

verus! {

/// The service's tools.
#[derive(Debug, Clone, Copy, PartialEq, Eq)]
pub enum MhbTool {
    ListTemplates,
    GetTemplate,
    RenderPreview,
}

pub open spec fn mhb_tool_spec(name: Seq<char>) -> Option<MhbTool> {
    if name == "mhb_list_templates"@ {
        Some(MhbTool::ListTemplates)
    } else if name == "mhb_get_template"@ {
        Some(MhbTool::GetTemplate)
    } else if name == "mhb_render_template_preview"@ {
        Some(MhbTool::RenderPreview)
    } else {
        None
    }
}

/// Which tool a name calls; `Unknown tool: <name>` for any other.
pub fn route_mhb_tool(name: &str) -> (r: Result<MhbTool, String>)
    ensures
        match mhb_tool_spec(name@) {
            Some(t) => r == Ok::<MhbTool, String>(t),
            None => r matches Err(e) && e@ == "Unknown tool: "@ + name@,
        },
{
    let n = str_chars(name);
    if is_word(&n, "mhb_list_templates") {
        Ok(MhbTool::ListTemplates)
    } else if is_word(&n, "mhb_get_template") {
        Ok(MhbTool::GetTemplate)
    } else if is_word(&n, "mhb_render_template_preview") {
        Ok(MhbTool::RenderPreview)
    } else {
        let mut m: Vec<char> = Vec::new();
        append_str(&mut m, "Unknown tool: ");
        append_str(&mut m, name);
        Err(chars_to_string(&m))
    }
}

/// The service's base URL: the `baseUrl` (else `base_url`) argument where
/// it is a string, else `MHB_BASE_URL`, else `BASE_URL`, else the public
/// service.
pub open spec fn base_url_spec(args: JsonValue, env_mhb: Option<Seq<char>>, env_base: Option<Seq<char>>) -> Seq<char> {
    match either(args, "baseUrl"@, "base_url"@) {
        Some(JsonValue::Str(s)) => s@,
        _ => match env_mhb {
            Some(e) => e,
            None => match env_base {
                Some(e) => e,
                None => "https://api.modesthumanbrands.com"@,
            },
        },
    }
}

/// Picks the service's base URL from the arguments and the two
/// environment values the caller read.
pub fn mhb_base_url(args: &JsonValue, env_mhb: Option<&str>, env_base: Option<&str>) -> (r: String)
    ensures
        r@ == base_url_spec(*args, opt_view(env_mhb), opt_view(env_base)),
{
    let a = match get_member(args, "baseUrl") {
        Some(x) => Some(x),
        None => get_member(args, "base_url"),
    };
    match a {
        Some(JsonValue::Str(s)) => s.clone(),
        _ => match env_mhb {
            Some(e) => chars_to_string(&str_chars(e)),
            None => match env_base {
                Some(e) => chars_to_string(&str_chars(e)),
                None => chars_to_string(&str_chars("https://api.modesthumanbrands.com")),
            },
        },
    }
}

/// What the template id argument (`templateId`, else `template_id`) gives:
/// an error where it is missing, or, when a non-blank id is required, blank.
pub open spec fn template_id_spec(args: JsonValue, non_blank: bool) -> Result<Seq<char>, Seq<char>> {
    match either(args, "templateId"@, "template_id"@) {
        Some(JsonValue::Str(s)) => if non_blank && trim_seq(s@).len() == 0 {
            Err("Parameter 'templateId' cannot be empty"@)
        } else {
            Ok(s@)
        },
        _ => Err("Missing 'templateId' parameter"@),
    }
}

/// Reads the template id argument.
pub fn template_id_arg(args: &JsonValue, non_blank: bool) -> (r: Result<String, String>)
    ensures
        match r {
            Ok(s) => template_id_spec(*args, non_blank) == Ok::<Seq<char>, Seq<char>>(s@),
            Err(e) => template_id_spec(*args, non_blank) == Err::<Seq<char>, Seq<char>>(e@),
        },
{
    let a = match get_member(args, "templateId") {
        Some(x) => Some(x),
        None => get_member(args, "template_id"),
    };
    match a {
        Some(JsonValue::Str(s)) => {
            if non_blank && trim_vec(&str_chars(s.as_str())).len() == 0 {
                Err(String::from_str("Parameter 'templateId' cannot be empty"))
            } else {
                Ok(s.clone())
            }
        },
        _ => Err(String::from_str("Missing 'templateId' parameter")),
    }
}

/// The endpoint a tool calls.
pub open spec fn endpoint_spec(base: Seq<char>, tool: MhbTool, template_id: Seq<char>) -> Seq<char> {
    match tool {
        MhbTool::ListTemplates => base + "/api/interaction/email/template"@,
        MhbTool::GetTemplate => base + "/api/interaction/email/template/"@ + template_id,
        MhbTool::RenderPreview => base + "/api/interaction/email/template/preview"@,
    }
}

/// The URL of a tool's endpoint.
pub fn mhb_endpoint(base: &str, tool: MhbTool, template_id: &str) -> (r: String)
    ensures
        r@ == endpoint_spec(base@, tool, template_id@),
{
    let mut u: Vec<char> = Vec::new();
    append_str(&mut u, base);
    match tool {
        MhbTool::ListTemplates => append_str(&mut u, "/api/interaction/email/template"),
        MhbTool::GetTemplate => {
            append_str(&mut u, "/api/interaction/email/template/");
            append_str(&mut u, template_id);
        },
        MhbTool::RenderPreview => append_str(&mut u, "/api/interaction/email/template/preview"),
    }
    chars_to_string(&u)
}

/// The variables of a preview: the `variables` argument, else `{}`.
pub fn preview_variables(args: &JsonValue) -> (r: JsonValue)
    ensures
        r@ == (match lookup(*args, "variables"@) {
            Some(v) => v@,
            None => Json::Object(Seq::empty()),
        }),
{
    match get_member(args, "variables") {
        Some(v) => clone_json(v),
        None => {
            let e = JsonValue::Object(Vec::new());
            assert(e@ =~= Json::Object(Seq::empty()));
            e
        },
    }
}

/// Reads the native helper's exit: a failure that printed nothing is an
/// error carrying its error output, or a generic message when that is
/// empty too; anything else goes on to parsing the output.
pub fn helper_failure(success: bool, stdout: &str, stderr: &str) -> (r: Option<String>)
    ensures
        match r {
            Some(e) => !success && trim_seq(stdout@).len() == 0 && e@ == (if stderr@.len() > 0 {
                stderr@
            } else {
                "rune-mhb-mconnect-native exited with failure"@
            }),
            None => success || trim_seq(stdout@).len() > 0,
        },
{
    if !success && trim_vec(&str_chars(stdout)).len() == 0 {
        let e = str_chars(stderr);
        if e.len() > 0 {
            Some(chars_to_string(&e))
        } else {
            Some(String::from_str("rune-mhb-mconnect-native exited with failure"))
        }
    } else {
        None
    }
}

/// The error that the helper's parsed output reports, if any: its `error`
/// member where that is a string.
pub fn reply_error(parsed: &JsonValue) -> (r: Option<String>)
    ensures
        match r {
            Some(e) => lookup_str(*parsed, "error"@) == Some(e@),
            None => lookup_str(*parsed, "error"@) is None,
        },
{
    crate::json::member_str(parsed, "error")
}

} // verus!
