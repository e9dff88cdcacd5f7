//! The Figma plugin's own logic: request ids, colour text, argument
//! validation against a tool's required parameters, and its canned
//! resources and prompts. The WebSocket relay and the floating-point
//! colour channels are left to the caller.
use vstd::prelude::*;
use crate::text::{append_str, chars_to_string, str_chars, starts_with};
use crate::markdown::is_word;

verus! {

/// A property of an annotation (its `type` in the Figma API).
#[derive(Debug, Clone)]
pub struct AnnotationProperty {
    pub kind: String,
}

/// An annotation to attach to a node.
#[derive(Debug, Clone)]
pub struct AnnotationItem {
    pub node_id: String,
    pub label_markdown: String,
    pub category_id: Option<String>,
    pub annotation_id: Option<String>,
    pub properties: Option<Vec<AnnotationProperty>>,
}

/// New text for a text node.
#[derive(Debug, Clone)]
pub struct TextReplacementItem {
    pub node_id: String,
    pub text: String,
}

/// A connector line to draw between two nodes.
#[derive(Debug, Clone)]
pub struct ConnectionItem {
    pub start_node_id: String,
    pub end_node_id: String,
    pub text: Option<String>,
}

/// The lower-case hexadecimal digit of a value below 16.
pub open spec fn hex_digit_char(d: nat) -> char {
    if d < 10 {
        ((d + 48) as u8) as char
    } else {
        ((d + 87) as u8) as char
    }
}

/// A number in lower-case hexadecimal, without leading zeros (`{:x}`).
pub open spec fn hex_text(n: nat) -> Seq<char>
    decreases n,
{
    if n < 16 {
        seq![hex_digit_char(n)]
    } else {
        hex_text(n / 16).push(hex_digit_char(n % 16))
    }
}

fn hex_digit_exec(d: u128) -> (c: char)
    requires
        d < 16,
    ensures
        c == hex_digit_char(d as nat),
{
    let b: u8 = if d < 10 { (d + 48) as u8 } else { (d + 87) as u8 };
    b as char
}

fn hex_vec(n: u128) -> (out: Vec<char>)
    ensures
        out@ == hex_text(n as nat),
    decreases n,
{
    if n < 16 {
        let mut v: Vec<char> = Vec::new();
        v.push(hex_digit_exec(n));
        v
    } else {
        let mut v = hex_vec(n / 16);
        v.push(hex_digit_exec(n % 16));
        v
    }
}

/// A relay request id made from the clock: `req_` and the nanoseconds since
/// the epoch in hexadecimal (the clock is read by the caller).
pub fn uuid_or_random(nanos: u128) -> (r: String)
    ensures
        r@ == "req_"@ + hex_text(nanos as nat),
{
    let mut v = str_chars("req_");
    let h = hex_vec(nanos);
    crate::text::append_chars(&mut v, &h);
    chars_to_string(&v)
}

/// A byte as two lower-case hexadecimal digits (`{:02x}`).
pub open spec fn byte_hex(b: u8) -> Seq<char> {
    seq![hex_digit_char((b / 16) as nat), hex_digit_char((b % 16) as nat)]
}

/// `#rrggbb` for an opaque colour, else `#rrggbbaa`.
pub open spec fn hex_color_spec(r: u8, g: u8, b: u8, a: u8) -> Seq<char> {
    let rgb = seq!['#'] + byte_hex(r) + byte_hex(g) + byte_hex(b);
    if a == 255 {
        rgb
    } else {
        rgb + byte_hex(a)
    }
}

fn push_byte_hex(v: &mut Vec<char>, b: u8)
    ensures
        final(v)@ == old(v)@ + byte_hex(b),
{
    v.push(hex_digit_exec((b / 16) as u128));
    v.push(hex_digit_exec((b % 16) as u128));
    assert(final(v)@ =~= old(v)@ + byte_hex(b)) by {
    }
}

/// The hexadecimal text of a colour from its four 8-bit channels.
pub fn hex_color(r: u8, g: u8, b: u8, a: u8) -> (s: String)
    ensures
        s@ == hex_color_spec(r, g, b, a),
{
    let mut v: Vec<char> = Vec::new();
    v.push('#');
    push_byte_hex(&mut v, r);
    push_byte_hex(&mut v, g);
    push_byte_hex(&mut v, b);
    if a != 255 {
        push_byte_hex(&mut v, a);
    }
    assert(v@ =~= hex_color_spec(r, g, b, a));
    chars_to_string(&v)
}

/// Whether a colour given as text is already a hexadecimal colour (it
/// starts with `#`) and is kept as it is.
pub fn is_hex_color_text(s: &str) -> (b: bool)
    ensures
        b == starts_with(s@, "#"@),
{
    crate::text::starts_with_exec(&str_chars(s), &str_chars("#"))
}

pub open spec fn unknown_figma_tool_message(name: Seq<char>) -> Seq<char> {
    "Unknown tool: '"@ + name + "'. Use list_tools to inspect supported Figma commands."@
}

pub open spec fn missing_figma_param_message(tool: Seq<char>, field: Seq<char>) -> Seq<char> {
    "Tool '"@ + tool + "' requires parameter '"@ + field + "'. Ensure it is provided."@
}

pub open spec fn image_source_message() -> Seq<char> {
    "Tool 'set_image_fill' requires exactly one of 'imagePath', 'imageUrl', or 'imageBase64'."@
}

pub open spec fn seq_has(v: Seq<Seq<char>>, k: Seq<char>) -> bool {
    exists|i: int| 0 <= i < v.len() && v[i] == k
}

/// The first required field that is missing or null, if any.
pub open spec fn first_missing(required: Seq<Seq<char>>, present: Seq<Seq<char>>) -> Option<Seq<char>>
    decreases required.len(),
{
    if required.len() == 0 {
        None
    } else if !seq_has(present, required[0]) {
        Some(required[0])
    } else {
        first_missing(required.drop_first(), present)
    }
}

/// How many of the three image sources are given.
pub open spec fn image_source_count(keys: Seq<Seq<char>>) -> nat {
    (if seq_has(keys, "imagePath"@) { 1nat } else { 0nat }) + (if seq_has(keys, "imageUrl"@) {
        1nat
    } else {
        0nat
    }) + (if seq_has(keys, "imageBase64"@) { 1nat } else { 0nat })
}

/// What validating a call's arguments gives.
pub open spec fn figma_validation(
    tool: Seq<char>,
    required: Seq<Seq<char>>,
    non_null_keys: Seq<Seq<char>>,
    keys: Seq<Seq<char>>,
) -> Option<Seq<char>> {
    match first_missing(required, non_null_keys) {
        Some(f) => Some(missing_figma_param_message(tool, f)),
        None => if tool == "set_image_fill"@ && image_source_count(keys) != 1 {
            Some(image_source_message())
        } else {
            None
        },
    }
}

fn has_key(keys: &[String], k: &[char]) -> (b: bool)
    ensures
        b == seq_has(crate::sidecar::strings_view(keys@), k@),
{
    let ghost kv = crate::sidecar::strings_view(keys@);
    let mut i: usize = 0;
    while i < keys.len()
        invariant
            i <= keys.len(),
            kv == crate::sidecar::strings_view(keys@),
            forall|j: int| 0 <= j < i ==> kv[j] != k@,
        decreases keys.len() - i,
    {
        if crate::markdown::same_chars(&str_chars(keys[i].as_str()), k) {
            assert(kv[i as int] == k@);
            return true;
        }
        i += 1;
    }
    false
}

/// Checks a call's arguments: every required parameter must be present and
/// not null (`non_null_keys`); `set_image_fill` takes exactly one of its
/// three image sources (`keys`, null ones included).
pub fn validate_tool_args(
    tool_name: &str,
    required: &[String],
    non_null_keys: &[String],
    keys: &[String],
) -> (r: Result<(), String>)
    ensures
        match figma_validation(
            tool_name@,
            crate::sidecar::strings_view(required@),
            crate::sidecar::strings_view(non_null_keys@),
            crate::sidecar::strings_view(keys@),
        ) {
            Some(m) => r matches Err(e) && e@ == m,
            None => r is Ok,
        },
{
    let ghost req = crate::sidecar::strings_view(required@);
    let ghost nn = crate::sidecar::strings_view(non_null_keys@);
    let mut i: usize = 0;
    assert(req.skip(0) =~= req);
    while i < required.len()
        invariant
            i <= required.len(),
            req == crate::sidecar::strings_view(required@),
            nn == crate::sidecar::strings_view(non_null_keys@),
            first_missing(req, nn) == first_missing(req.skip(i as int), nn),
        decreases required.len() - i,
    {
        let f = str_chars(required[i].as_str());
        assert(req.skip(i as int)[0] == f@);
        assert(req.skip(i as int).drop_first() =~= req.skip(i + 1));
        if !has_key(non_null_keys, &f) {
            let mut m: Vec<char> = Vec::new();
            append_str(&mut m, "Tool '");
            append_str(&mut m, tool_name);
            append_str(&mut m, "' requires parameter '");
            crate::text::append_chars(&mut m, &f);
            append_str(&mut m, "'. Ensure it is provided.");
            return Err(chars_to_string(&m));
        }
        i += 1;
    }
    assert(req.skip(i as int).len() == 0);
    if is_word(&str_chars(tool_name), "set_image_fill") {
        let a = has_key(keys, &str_chars("imagePath"));
        let b = has_key(keys, &str_chars("imageUrl"));
        let c = has_key(keys, &str_chars("imageBase64"));
        let count: u8 = (if a { 1u8 } else { 0u8 }) + (if b { 1u8 } else { 0u8 }) + (if c { 1u8 } else { 0u8 });
        if count != 1 {
            return Err(
                String::from_str(
                    "Tool 'set_image_fill' requires exactly one of 'imagePath', 'imageUrl', or 'imageBase64'.",
                ),
            );
        }
    }
    Ok(())
}

/// The error for a tool name that no definition has.
pub fn unknown_figma_tool(name: &str) -> (e: String)
    ensures
        e@ == unknown_figma_tool_message(name@),
{
    let mut m: Vec<char> = Vec::new();
    append_str(&mut m, "Unknown tool: '");
    append_str(&mut m, name);
    append_str(&mut m, "'. Use list_tools to inspect supported Figma commands.");
    chars_to_string(&m)
}

} // verus!

verus! {

/// The Figma prompts: a description and the text of the assistant message.
pub open spec fn figma_prompt_spec(name: Seq<char>) -> Option<(Seq<char>, Seq<char>)> {
    if name == "design_strategy"@ {
        Some(("Best practices for working with Figma designs"@, "1. Start with Document Structure: Inspect with get_document_info().\n2. Naming Conventions: Use semantic layer names.\n3. Layout Hierarchy: Build parent containers first, then child frames.\n4. Input Fields: Group label and input frames.\n5. Autolayout: Prefer autolayout frames over manual coordinates."@))
    } else if name == "read_design_strategy"@ {
        Some(("Best practices for reading Figma designs"@, "1. Inspect selection: call read_my_design().\n2. Filter Primitives: Vector paths are stripped for clean layout analysis.\n3. Recurse Frames: Walk hierarchy from parent to child."@))
    } else if name == "text_replacement_strategy"@ {
        Some(("Systematic approach for replacing text in Figma designs"@, "1. Scan: scan_text_nodes(nodeId).\n2. Chunk: Group replacements into batches of 5-10 elements.\n3. Mutate: set_multiple_text_contents(nodeId, text).\n4. Verify: export_node_as_image(nodeId, scale: 0.5) to confirm text bounds."@))
    } else if name == "annotation_conversion_strategy"@ {
        Some(("Strategy for converting manual annotations to native Figma annotations"@, "1. Get Selection: get_selection().\n2. Scan Markers & Descriptions: scan_text_nodes().\n3. Scan Targets: scan_nodes_by_types(nodeId, ['COMPONENT', 'INSTANCE', 'FRAME']).\n4. Batch Apply: set_multiple_annotations()."@))
    } else if name == "swap_overrides_instances"@ {
        Some(("Guide to swap instance overrides between instances"@, "1. Extract: get_instance_overrides(nodeId: source).\n2. Target: identify destination instances via scan_nodes_by_types.\n3. Apply: set_instance_overrides(sourceInstanceId, targetNodeIds)."@))
    } else if name == "reaction_to_connector_strategy"@ {
        Some(("Strategy for converting Figma prototype reactions to connector lines"@, "1. Query reactions: get_reactions(nodeIds).\n2. Ensure Default Connector: set_default_connector().\n3. Transform: Map NAVIGATE/OPEN_OVERLAY reactions into connection objects.\n4. Create: create_connections(connections)."@))
    } else {
        None
    }
}

pub open spec fn unknown_figma_prompt_message(name: Seq<char>) -> Seq<char> {
    "Unknown prompt: '"@ + name + "'. Check prompt_definitions for valid templates."@
}

/// One of the Figma prompts by name.
pub fn figma_prompt(name: &str) -> (r: Result<crate::fetch::PromptReply, String>)
    ensures
        match figma_prompt_spec(name@) {
            Some(p) => r matches Ok(x) && x.description@ == p.0 && x.text@ == p.1,
            None => r matches Err(e) && e@ == unknown_figma_prompt_message(name@),
        },
{
    let n = str_chars(name);
    if is_word(&n, "design_strategy") {
        Ok(crate::fetch::PromptReply {
            description: String::from_str("Best practices for working with Figma designs"),
            text: String::from_str("1. Start with Document Structure: Inspect with get_document_info().\n2. Naming Conventions: Use semantic layer names.\n3. Layout Hierarchy: Build parent containers first, then child frames.\n4. Input Fields: Group label and input frames.\n5. Autolayout: Prefer autolayout frames over manual coordinates."),
        })
    } else if is_word(&n, "read_design_strategy") {
        Ok(crate::fetch::PromptReply {
            description: String::from_str("Best practices for reading Figma designs"),
            text: String::from_str("1. Inspect selection: call read_my_design().\n2. Filter Primitives: Vector paths are stripped for clean layout analysis.\n3. Recurse Frames: Walk hierarchy from parent to child."),
        })
    } else if is_word(&n, "text_replacement_strategy") {
        Ok(crate::fetch::PromptReply {
            description: String::from_str("Systematic approach for replacing text in Figma designs"),
            text: String::from_str("1. Scan: scan_text_nodes(nodeId).\n2. Chunk: Group replacements into batches of 5-10 elements.\n3. Mutate: set_multiple_text_contents(nodeId, text).\n4. Verify: export_node_as_image(nodeId, scale: 0.5) to confirm text bounds."),
        })
    } else if is_word(&n, "annotation_conversion_strategy") {
        Ok(crate::fetch::PromptReply {
            description: String::from_str("Strategy for converting manual annotations to native Figma annotations"),
            text: String::from_str("1. Get Selection: get_selection().\n2. Scan Markers & Descriptions: scan_text_nodes().\n3. Scan Targets: scan_nodes_by_types(nodeId, ['COMPONENT', 'INSTANCE', 'FRAME']).\n4. Batch Apply: set_multiple_annotations()."),
        })
    } else if is_word(&n, "swap_overrides_instances") {
        Ok(crate::fetch::PromptReply {
            description: String::from_str("Guide to swap instance overrides between instances"),
            text: String::from_str("1. Extract: get_instance_overrides(nodeId: source).\n2. Target: identify destination instances via scan_nodes_by_types.\n3. Apply: set_instance_overrides(sourceInstanceId, targetNodeIds)."),
        })
    } else if is_word(&n, "reaction_to_connector_strategy") {
        Ok(crate::fetch::PromptReply {
            description: String::from_str("Strategy for converting Figma prototype reactions to connector lines"),
            text: String::from_str("1. Query reactions: get_reactions(nodeIds).\n2. Ensure Default Connector: set_default_connector().\n3. Transform: Map NAVIGATE/OPEN_OVERLAY reactions into connection objects.\n4. Create: create_connections(connections)."),
        })
    } else {
        let mut m: Vec<char> = Vec::new();
        append_str(&mut m, "Unknown prompt: '");
        crate::text::append_chars(&mut m, &n);
        append_str(&mut m, "'. Check prompt_definitions for valid templates.");
        Err(chars_to_string(&m))
    }
}

/// The Figma resources.
#[derive(Debug, Clone, Copy, PartialEq, Eq)]
pub enum FigmaResource {
    Document,
    Selection,
    Styles,
}

pub open spec fn unknown_figma_resource_message(uri: Seq<char>) -> Seq<char> {
    "Unknown resource URI: '"@ + uri
        + "'. Valid Figma URIs: rune://figma/document, rune://figma/selection, rune://figma/styles"@
}

/// Which Figma resource a URI names.
pub fn figma_resource(uri: &str) -> (r: Result<FigmaResource, String>)
    ensures
        uri@ == "rune://figma/document"@ ==> r == Ok::<FigmaResource, String>(FigmaResource::Document),
        uri@ != "rune://figma/document"@ && uri@ == "rune://figma/selection"@ ==> r == Ok::<FigmaResource, String>(FigmaResource::Selection),
        uri@ != "rune://figma/document"@ && uri@ != "rune://figma/selection"@ && uri@ == "rune://figma/styles"@ ==> r == Ok::<FigmaResource, String>(FigmaResource::Styles),
        uri@ != "rune://figma/document"@ && uri@ != "rune://figma/selection"@ && uri@ != "rune://figma/styles"@ ==> (r matches Err(e) && e@ == unknown_figma_resource_message(uri@)),
{
    let u = str_chars(uri);
    if is_word(&u, "rune://figma/document") {
        Ok(FigmaResource::Document)
    } else if is_word(&u, "rune://figma/selection") {
        Ok(FigmaResource::Selection)
    } else if is_word(&u, "rune://figma/styles") {
        Ok(FigmaResource::Styles)
    } else {
        let mut m: Vec<char> = Vec::new();
        append_str(&mut m, "Unknown resource URI: '");
        crate::text::append_chars(&mut m, &u);
        append_str(&mut m, "'. Valid Figma URIs: rune://figma/document, rune://figma/selection, rune://figma/styles");
        Err(chars_to_string(&m))
    }
}

} // verus!
