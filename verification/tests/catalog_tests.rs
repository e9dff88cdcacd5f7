use rune_kit::catalog;
use rune_kit::fetch::{check_fetch_tool, check_fetch_url};
use rune_kit::json::{JsonNumber, JsonValue};
use rune_kit::pdk::{check_tool_definitions, ToolDefinition};
use serde_json::Value;

fn to_json(v: &Value) -> JsonValue {
    match v {
        Value::Null => JsonValue::Null,
        Value::Bool(b) => JsonValue::Bool(*b),
        Value::Number(n) => JsonValue::Number(JsonNumber { text: n.to_string(), channel: 0 }),
        Value::String(s) => JsonValue::Str(s.clone()),
        Value::Array(a) => JsonValue::Array(a.iter().map(to_json).collect()),
        Value::Object(m) => JsonValue::Object(m.iter().map(|(k, x)| (k.clone(), to_json(x))).collect()),
    }
}

fn section(parts: &[&str], name: &str) -> Vec<Value> {
    let mut items = Vec::new();
    for part in parts {
        let doc: Value = serde_json::from_str(part).expect("catalogue part is valid JSON");
        if let Some(Value::Array(found)) = doc.get(name) {
            items.extend(found.iter().cloned());
        }
    }
    items
}

fn tools(parts: &[&str]) -> Vec<ToolDefinition> {
    section(parts, "tools")
        .iter()
        .map(|t| ToolDefinition {
            name: t["name"].as_str().unwrap().to_string(),
            description: t["description"].as_str().unwrap().to_string(),
            input_schema: to_json(&t["inputSchema"]),
        })
        .collect()
}

fn assert_catalog_valid(parts: &[&str], expected_tools: usize) {
    let defs = tools(parts);
    assert_eq!(defs.len(), expected_tools);
    assert_eq!(check_tool_definitions(&defs), Ok(()));
    let mut names: Vec<&str> = defs.iter().map(|t| t.name.as_str()).collect();
    names.sort();
    names.dedup();
    assert_eq!(names.len(), defs.len(), "tool names are distinct");
}

#[test]
fn mhb_catalog_is_valid() {
    assert_catalog_valid(&[catalog::MHB], 3);
}

#[test]
fn audio_catalog_is_valid() {
    assert_catalog_valid(&[catalog::AUDIO], section(&[catalog::AUDIO], "tools").len());
}

#[test]
fn browser_catalog_is_valid() {
    let parts = [catalog::BROWSER_1, catalog::BROWSER_2, catalog::BROWSER_3];
    assert_catalog_valid(&parts, section(&parts, "tools").len());
}

#[test]
fn email_catalog_is_valid() {
    let parts = [catalog::EMAIL_1, catalog::EMAIL_2, catalog::EMAIL_3];
    assert_catalog_valid(&parts, 11);
}

#[test]
fn fetch_catalog_is_valid() {
    assert_catalog_valid(&[catalog::FETCH], 1);
    assert_eq!(section(&[catalog::FETCH], "resources").len(), 1);
    assert_eq!(section(&[catalog::FETCH], "prompts").len(), 2);
}

#[test]
fn figma_catalog_is_valid() {
    let parts = [
        catalog::FIGMA_1,
        catalog::FIGMA_2,
        catalog::FIGMA_3,
        catalog::FIGMA_4,
        catalog::FIGMA_5,
        catalog::FIGMA_6,
        catalog::FIGMA_7,
        catalog::FIGMA_8,
        catalog::FIGMA_9,
    ];
    assert_catalog_valid(&parts, section(&parts, "tools").len());
    assert_eq!(section(&parts, "resources").len(), 3);
    assert_eq!(section(&parts, "prompts").len(), 6);
}

#[test]
fn filesystem_catalogs_are_valid() {
    let parts = [catalog::FILESYSTEM_1, catalog::FILESYSTEM_2, catalog::FILESYSTEM_3];
    assert_catalog_valid(&parts, section(&parts, "tools").len());
    let fs = [catalog::FS_1, catalog::FS_2];
    assert_eq!(
        check_tool_definitions(&tools(&fs)),
        Err("Tool 'edit_file' property 'edits' must specify a description".to_string())
    );
}

#[test]
fn game_engine_catalog_is_valid() {
    let parts = [
        catalog::GAME_ENGINE_1,
        catalog::GAME_ENGINE_2,
        catalog::GAME_ENGINE_3,
        catalog::GAME_ENGINE_4,
        catalog::GAME_ENGINE_5,
        catalog::GAME_ENGINE_6,
        catalog::GAME_ENGINE_7,
        catalog::GAME_ENGINE_8,
    ];
    assert_catalog_valid(&parts, section(&parts, "tools").len());
}

#[test]
fn git_image_media_catalogs_are_valid() {
    let git = [catalog::GIT_1, catalog::GIT_2];
    assert_catalog_valid(&git, section(&git, "tools").len());
    assert_catalog_valid(&[catalog::IMAGE], section(&[catalog::IMAGE], "tools").len());
    let media = [catalog::MEDIA_1, catalog::MEDIA_2, catalog::MEDIA_3, catalog::MEDIA_4];
    assert_catalog_valid(&media, section(&media, "tools").len());
}

#[test]
fn fetch_catalog_matches_its_router() {
    for t in section(&[catalog::FETCH], "tools") {
        let name = t["name"].as_str().unwrap();
        assert_eq!(check_fetch_tool(name), Ok(()), "{} is routed", name);
        let required = t["inputSchema"]["required"].as_array().cloned().unwrap_or_default();
        for field in required {
            assert_eq!(field.as_str(), Some("url"));
            assert!(check_fetch_url(None).is_err(), "omitting url fails");
        }
    }
    assert!(check_fetch_tool("non_existent").unwrap_err().starts_with("Unknown tool"));
}
