use rune_kit::figma_node::{filter_figma_node, rgba_to_hex};
use rune_kit::image::{collect_urls_from_value, parse_gallerydl_output};
use rune_kit::json::{JsonNumber, JsonValue};

fn num(x: f64) -> JsonValue {
    JsonValue::Number(JsonNumber {
        text: format!("{}", x),
        channel: (x * 255.0).round().clamp(0.0, 255.0) as u8,
    })
}

fn st(s: &str) -> JsonValue {
    JsonValue::Str(s.to_string())
}

fn obj(members: Vec<(&str, JsonValue)>) -> JsonValue {
    JsonValue::Object(members.into_iter().map(|(k, v)| (k.to_string(), v)).collect())
}

fn get<'a>(v: &'a JsonValue, k: &str) -> Option<&'a JsonValue> {
    match v {
        JsonValue::Object(m) => m.iter().find(|(key, _)| key == k).map(|(_, x)| x),
        _ => None,
    }
}

fn items(v: &JsonValue) -> &Vec<JsonValue> {
    match v {
        JsonValue::Array(a) => a,
        _ => panic!("not an array"),
    }
}

#[test]
fn test_rgba_to_hex() {
    let white = obj(vec![("r", num(1.0)), ("g", num(1.0)), ("b", num(1.0)), ("a", num(1.0))]);
    assert_eq!(rgba_to_hex(&white), "#ffffff");

    let translucent_red = obj(vec![("r", num(1.0)), ("g", num(0.0)), ("b", num(0.0)), ("a", num(0.5))]);
    assert_eq!(rgba_to_hex(&translucent_red), "#ff000080");

    let hex_passthrough = st("#123456");
    assert_eq!(rgba_to_hex(&hex_passthrough), "#123456");
}

#[test]
fn rgba_defaults_for_missing_channels() {
    assert_eq!(rgba_to_hex(&obj(vec![])), "#000000");
    assert_eq!(rgba_to_hex(&st("red")), "#000000");
    assert_eq!(rgba_to_hex(&obj(vec![("r", num(2.0)), ("a", num(0.0))])), "#ff000000");
    assert_eq!(rgba_to_hex(&obj(vec![("g", st("1.0"))])), "#000000");
}

#[test]
fn test_filter_figma_node_pruning() {
    let node = obj(vec![
        ("id", st("1:2")),
        ("name", st("Card Container")),
        ("type", st("FRAME")),
        (
            "fills",
            JsonValue::Array(vec![obj(vec![
                ("type", st("SOLID")),
                ("color", obj(vec![("r", num(0.0)), ("g", num(0.5)), ("b", num(1.0)), ("a", num(1.0))])),
                ("boundVariables", obj(vec![("color", st("var:123"))])),
                ("imageRef", st("img-999")),
            ])]),
        ),
        (
            "children",
            JsonValue::Array(vec![
                obj(vec![("id", st("1:3")), ("name", st("Vector Icon")), ("type", st("VECTOR"))]),
                obj(vec![
                    ("id", st("1:4")),
                    ("name", st("Card Title")),
                    ("type", st("TEXT")),
                    ("characters", st("Hello World")),
                ]),
            ]),
        ),
    ]);

    let filtered = filter_figma_node(&node).expect("Should retain FRAME");
    assert_eq!(get(&filtered, "id"), Some(&st("1:2")));

    let fills = items(get(&filtered, "fills").unwrap());
    assert_eq!(get(&fills[0], "color"), Some(&st("#0080ff")));
    assert!(get(&fills[0], "boundVariables").is_none());
    assert!(get(&fills[0], "imageRef").is_none());

    let children = items(get(&filtered, "children").unwrap());
    assert_eq!(children.len(), 1);
    assert_eq!(get(&children[0], "id"), Some(&st("1:4")));
    assert_eq!(get(&children[0], "characters"), Some(&st("Hello World")));
}

#[test]
fn pruning_strokes_styles_and_non_objects() {
    assert!(filter_figma_node(&st("x")).is_none());
    assert!(filter_figma_node(&obj(vec![("type", st("VECTOR"))])).is_none());
    let node = obj(vec![
        ("type", st("TEXT")),
        ("visible", JsonValue::Bool(true)),
        ("strokes", JsonValue::Array(vec![obj(vec![("color", st("#abcdef")), ("boundVariables", JsonValue::Null)])])),
        ("style", obj(vec![("fontSize", num(12.0)), ("fontFamily", st("Inter")), ("paragraphSpacing", num(3.0))])),
        (
            "fills",
            JsonValue::Array(vec![obj(vec![(
                "gradientStops",
                JsonValue::Array(vec![obj(vec![
                    ("color", obj(vec![("r", num(1.0))])),
                    ("position", num(0.0)),
                    ("boundVariables", JsonValue::Null),
                ])]),
            )])]),
        ),
    ]);
    let f = filter_figma_node(&node).unwrap();
    assert!(get(&f, "visible").is_none());
    assert!(get(&f, "children").is_none());
    let strokes = items(get(&f, "strokes").unwrap());
    assert_eq!(strokes[0], obj(vec![("color", st("#abcdef"))]));
    let style = get(&f, "style").unwrap();
    assert_eq!(style, &obj(vec![("fontFamily", st("Inter")), ("fontSize", num(12.0))]));
    let fills = items(get(&f, "fills").unwrap());
    let stops = items(get(&fills[0], "gradientStops").unwrap());
    assert_eq!(stops[0], obj(vec![("color", st("#ff0000")), ("position", num(0.0))]));
}

#[test]
fn gallery_urls_are_collected_once_in_order() {
    let message = JsonValue::Array(vec![num(3.0), st("https://img.example/a.jpg"), obj(vec![])]);
    let record = obj(vec![("file_url", st("ftp://no")), ("image", st("http://img.example/b.png")), ("src", st("https://img.example/c.png"))]);
    let nested = JsonValue::Array(vec![message, JsonValue::Array(vec![record]), num(1.0)]);
    let mut urls = Vec::new();
    collect_urls_from_value(&nested, &mut urls);
    assert_eq!(urls, vec!["https://img.example/a.jpg".to_string(), "http://img.example/b.png".to_string()]);

    let stream = vec![
        JsonValue::Array(vec![num(2.0), st("https://img.example/a.jpg")]),
        obj(vec![("url", st("https://img.example/a.jpg"))]),
        obj(vec![("preview_url", st("https://img.example/d.jpg"))]),
        JsonValue::Array(vec![num(2.0), st("not a url")]),
    ];
    assert_eq!(
        parse_gallerydl_output(&stream),
        vec!["https://img.example/a.jpg".to_string(), "https://img.example/d.jpg".to_string()]
    );
}

fn has_vector(v: &JsonValue) -> bool {
    if get(v, "type") == Some(&st("VECTOR")) {
        return true;
    }
    match get(v, "children") {
        Some(JsonValue::Array(cs)) => cs.iter().any(has_vector),
        _ => false,
    }
}

#[test]
fn pruned_tree_keeps_no_vector_at_any_depth() {
    let leaf = |id: &str, ty: &str| obj(vec![("id", st(id)), ("type", st(ty))]);
    let group = obj(vec![
        ("id", st("2")),
        ("type", st("GROUP")),
        ("children", JsonValue::Array(vec![leaf("3", "VECTOR"), leaf("4", "TEXT"), leaf("5", "VECTOR")])),
    ]);
    let root = obj(vec![
        ("id", st("1")),
        ("type", st("FRAME")),
        ("children", JsonValue::Array(vec![leaf("6", "VECTOR"), group])),
    ]);
    assert!(has_vector(&root));
    let pruned = filter_figma_node(&root).unwrap();
    assert!(!has_vector(&pruned));
    let kids = items(get(&pruned, "children").unwrap());
    assert_eq!(kids.len(), 1);
    let grandkids = items(get(&kids[0], "children").unwrap());
    assert_eq!(grandkids.len(), 1);
    assert_eq!(get(&grandkids[0], "id"), Some(&st("4")));
}
