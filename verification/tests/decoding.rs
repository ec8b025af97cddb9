use i3_show_tree::fraction::Fraction;
use i3_show_tree::geometry::TreeGeometry;
use i3_show_tree::json::{Float, Json, Member, Number};
use i3_show_tree::kinds::{BorderType, FloatMode, Layout, TreeType};
use i3_show_tree::node::{Node, Swallow};

/// Turns a parsed document into the library's JSON value.
fn convert(value: &serde_json::Value) -> Json {
    match value {
        serde_json::Value::Null => Json::Null,
        serde_json::Value::Bool(b) => Json::Bool(*b),
        serde_json::Value::Number(n) => {
            if let Some(u) = n.as_u64() {
                Json::Number(Number::PosInt(u))
            } else if let Some(i) = n.as_i64() {
                Json::Number(Number::NegInt(i))
            } else {
                let f: f64 = n.as_f64().unwrap();
                Json::Number(Number::Float(Float {
                    shown: format!("{}", f),
                    percent: format!("{:0.3}", f * 100_f64),
                }))
            }
        }
        serde_json::Value::String(s) => Json::Text(s.clone()),
        serde_json::Value::Array(items) => Json::Array(items.iter().map(convert).collect()),
        serde_json::Value::Object(members) => Json::Object(
            members
                .iter()
                .map(|(key, value)| Member { key: key.clone(), value: convert(value) })
                .collect(),
        ),
    }
}

fn json(text: &str) -> Json {
    convert(&serde_json::from_str::<serde_json::Value>(text).unwrap())
}

fn decode(text: &str) -> Result<Node, String> {
    Node::try_from(&json(text))
}

const MINIMAL: &str = r#"{"border":"normal","floating":"auto_off","marks":[],"percent":null,"type":"root","geometry":{"height":0,"width":0,"x":0,"y":0}}"#;

#[test]
fn minimal_document_decodes() {
    let node = decode(MINIMAL).unwrap();
    assert_eq!(node.border, BorderType::Normal);
    assert_eq!(node.floating, FloatMode::AutoOff);
    assert_eq!(node.layout, None);
    assert!(node.marks.is_empty());
    assert_eq!(node.percent, Fraction::Whole(0));
    assert_eq!(node.tree_type, TreeType::Root);
    assert_eq!(node.current_border_width, None);
    assert!(node.nodes.is_empty());
    assert_eq!(node.geometry, Some(TreeGeometry { height: 0, width: 0, x: 0, y: 0 }));
    assert_eq!(node.name, None);
    assert!(node.swallows.is_empty());
    assert!(!node.focused);
}

#[test]
fn full_document_decodes() {
    let node = decode(
        r#"{"border":"pixel","floating":"user_on","marks":["a","b"],"percent":0.5,
            "type":"con","layout":"splith","name":"editor","current_border_width":-1,
            "focused":true,"geometry":{"height":10,"width":20,"x":3,"y":4},
            "swallows":[{"class":"^Emacs$","id":7}],
            "nodes":[{"border":"none","floating":"auto_on","marks":[],"percent":1,
                      "type":"floating_con","layout":"tabbed"}]}"#,
    )
    .unwrap();
    assert_eq!(node.border, BorderType::Pixel);
    assert_eq!(node.floating, FloatMode::UserOn);
    assert_eq!(node.layout, Some(Layout::SplitH));
    assert_eq!(node.marks, vec!["a".to_string(), "b".to_string()]);
    assert_eq!(
        node.percent,
        Fraction::Float(Float { shown: "0.5".to_string(), percent: "50.000".to_string() })
    );
    assert_eq!(node.tree_type, TreeType::Con);
    assert_eq!(node.current_border_width, Some(-1));
    assert_eq!(node.geometry, Some(TreeGeometry { height: 10, width: 20, x: 3, y: 4 }));
    assert_eq!(node.name, Some("editor".to_string()));
    assert_eq!(
        node.swallows,
        vec![
            Swallow { key: "class".to_string(), value: "^Emacs$".to_string() },
            Swallow { key: "id".to_string(), value: "7".to_string() },
        ]
    );
    assert!(node.focused);
    assert_eq!(node.nodes.len(), 1);
    let child = &node.nodes[0];
    assert_eq!(child.border, BorderType::NoBorder);
    assert_eq!(child.floating, FloatMode::AutoOn);
    assert_eq!(child.layout, Some(Layout::Tabbed));
    assert_eq!(child.percent, Fraction::Whole(1));
    assert_eq!(child.tree_type, TreeType::FloatingCon);
    assert_eq!(child.geometry, None);
    assert!(!child.focused);
}

#[test]
fn value_that_is_no_object_is_refused() {
    assert_eq!(decode("[]"), Err("Incompatible JSON value type".to_string()));
    assert_eq!(decode("3"), Err("Incompatible JSON value type".to_string()));
    assert_eq!(decode("null"), Err("Incompatible JSON value type".to_string()));
}

fn without(key: &str) -> Json {
    match json(MINIMAL) {
        Json::Object(members) => {
            Json::Object(members.into_iter().filter(|member| member.key != key).collect())
        }
        other => other,
    }
}

fn with(key: &str, value: &str) -> Json {
    match without(key) {
        Json::Object(mut members) => {
            members.push(Member { key: key.to_string(), value: json(value) });
            Json::Object(members)
        }
        other => other,
    }
}

fn refusal(key: &str, value: &str) -> String {
    Node::try_from(&with(key, value)).unwrap_err()
}

#[test]
fn missing_border_is_named() {
    assert_eq!(Node::try_from(&without("border")), Err("Missing \"border\" field".to_string()));
}

#[test]
fn missing_floating_is_named() {
    assert_eq!(Node::try_from(&without("floating")), Err("Missing \"floating\" field".to_string()));
}

#[test]
fn missing_marks_is_named() {
    assert_eq!(Node::try_from(&without("marks")), Err("Missing \"marks\" field".to_string()));
}

#[test]
fn missing_percent_is_named() {
    assert_eq!(Node::try_from(&without("percent")), Err("Missing \"percent\" field".to_string()));
}

#[test]
fn missing_type_is_named() {
    assert_eq!(Node::try_from(&without("type")), Err("Missing \"type\" field".to_string()));
}

#[test]
fn first_missing_member_decides() {
    assert_eq!(decode("{}"), Err("Missing \"border\" field".to_string()));
    assert_eq!(decode(r#"{"border":"pixel"}"#), Err("Missing \"floating\" field".to_string()));
    assert_eq!(
        decode(r#"{"border":7,"marks":[]}"#),
        Err("Incompatible JSON value type".to_string())
    );
}

#[test]
fn unknown_border_is_quoted() {
    assert_eq!(refusal("border", r#""dotted""#), "Unknown border type \"dotted\"");
    assert_eq!(refusal("border", r#""""#), "Unknown border type \"\"");
    assert_eq!(refusal("border", r#""Normal""#), "Unknown border type \"Normal\"");
}

#[test]
fn unknown_floating_is_quoted() {
    assert_eq!(refusal("floating", r#""sometimes""#), "Unknown floating type \"sometimes\"");
}

#[test]
fn unknown_type_is_quoted() {
    assert_eq!(refusal("type", r#""window""#), "Unknown tree type \"window\"");
}

#[test]
fn unknown_layout_is_quoted() {
    assert_eq!(refusal("layout", r#""spiral""#), "Unknown layout \"spiral\"");
}

#[test]
fn enumerated_member_that_is_no_text_is_refused() {
    assert_eq!(refusal("border", "1"), "Incompatible JSON value type");
    assert_eq!(refusal("floating", "null"), "Incompatible JSON value type");
    assert_eq!(refusal("type", "[]"), "Invalid JSON Value type (expected string)");
    assert_eq!(refusal("layout", "null"), "Invalid JSON Value type (expected string)");
}

#[test]
fn every_name_is_read() {
    let borders = [("normal", BorderType::Normal), ("pixel", BorderType::Pixel), ("none", BorderType::NoBorder)];
    for (name, border) in borders {
        assert_eq!(BorderType::try_from(&Json::Text(name.to_string())), Ok(border));
        assert_eq!(border.to_string(), name);
    }
    let modes = [
        ("auto_on", FloatMode::AutoOn, "Auto On"),
        ("user_on", FloatMode::UserOn, "User On"),
        ("auto_off", FloatMode::AutoOff, "Auto Off"),
        ("user_off", FloatMode::UserOff, "User Off"),
    ];
    for (name, mode, shown) in modes {
        assert_eq!(FloatMode::try_from(&Json::Text(name.to_string())), Ok(mode));
        assert_eq!(mode.to_string(), shown);
    }
    let layouts = [
        ("tabbed", Layout::Tabbed),
        ("splitv", Layout::SplitV),
        ("splith", Layout::SplitH),
        ("stacked", Layout::Stacked),
        ("output", Layout::Output),
        ("dockarea", Layout::DockArea),
    ];
    for (name, layout) in layouts {
        assert_eq!(Layout::try_from(&Json::Text(name.to_string())), Ok(layout));
        assert_eq!(layout.to_string(), name);
    }
    let kinds = [
        ("root", TreeType::Root),
        ("output", TreeType::Output),
        ("workspace", TreeType::Workspace),
        ("dockarea", TreeType::DockArea),
        ("con", TreeType::Con),
        ("floating_con", TreeType::FloatingCon),
    ];
    for (name, kind) in kinds {
        assert_eq!(TreeType::try_from(&Json::Text(name.to_string())), Ok(kind));
        assert_eq!(TreeType::from_name(name), Ok(kind));
        assert_eq!(kind.to_string(), name);
    }
    assert_eq!(TreeType::from_name("Root"), Err("Unknown tree type \"Root\"".to_string()));
}

#[test]
fn border_unit_is_pixels_unless_there_is_no_border() {
    assert_eq!(BorderType::Normal.unit(), "px");
    assert_eq!(BorderType::Pixel.unit(), "px");
    assert_eq!(BorderType::NoBorder.unit(), "");
}

#[test]
fn percent_null_is_zero() {
    let node = Node::try_from(&with("percent", "null")).unwrap();
    assert_eq!(node.percent, Fraction::Whole(0));
    assert_eq!(node.percent.percent_text(), "0.000");
}

#[test]
fn percent_integer_is_kept() {
    let node = Node::try_from(&with("percent", "1")).unwrap();
    assert_eq!(node.percent, Fraction::Whole(1));
    assert_eq!(node.percent.percent_text(), "100.000");
    let node = Node::try_from(&with("percent", "18446744073709551615")).unwrap();
    assert_eq!(node.percent, Fraction::Whole(u64::MAX));
}

#[test]
fn percent_float_brings_its_texts() {
    let node = Node::try_from(&with("percent", "0.25")).unwrap();
    assert_eq!(
        node.percent,
        Fraction::Float(Float { shown: "0.25".to_string(), percent: "25.000".to_string() })
    );
    assert_eq!(node.percent.percent_text(), "25.000");
}

#[test]
fn percent_integer_below_zero_is_kept() {
    let node = Node::try_from(&with("percent", "-1")).unwrap();
    assert_eq!(node.percent, Fraction::Signed(-1));
    assert_eq!(node.percent.percent_text(), "-100.000");
    let node = Node::try_from(&with("percent", "-9223372036854775808")).unwrap();
    assert_eq!(node.percent, Fraction::Signed(i64::MIN));
    let node = Node::try_from(&with("percent", "7")).unwrap();
    assert_eq!(node.percent, Fraction::Whole(7));
    assert_eq!(node.percent.percent_text(), "700.000");
}

#[test]
fn percent_of_another_kind_is_refused() {
    assert_eq!(refusal("percent", r#""half""#), "Invalid JSON Value type (expected number)");
    assert_eq!(refusal("percent", "true"), "Invalid JSON Value type (expected number)");
}

#[test]
fn marks_must_be_an_array_of_texts() {
    assert_eq!(refusal("marks", r#"["a",1]"#), "Marks contain non-strings");
    assert_eq!(refusal("marks", r#"[null]"#), "Marks contain non-strings");
    assert_eq!(refusal("marks", r#""a""#), "Invalid JSON value type for marks");
    assert_eq!(refusal("marks", "null"), "Invalid JSON value type for marks");
    let node = Node::try_from(&with("marks", r#"["x","","x"]"#)).unwrap();
    assert_eq!(node.marks, vec!["x".to_string(), "".to_string(), "x".to_string()]);
}

#[test]
fn name_is_read_with_tolerance() {
    assert_eq!(Node::try_from(&with("name", r#""term""#)).unwrap().name, Some("term".to_string()));
    assert_eq!(Node::try_from(&with("name", "null")).unwrap().name, Some("(null)".to_string()));
    assert_eq!(Node::try_from(&with("name", "12")).unwrap().name, Some("(null)".to_string()));
    assert_eq!(Node::try_from(&json(MINIMAL)).unwrap().name, None);
}

#[test]
fn focused_is_read_with_tolerance() {
    assert!(Node::try_from(&with("focused", "true")).unwrap().focused);
    assert!(!Node::try_from(&with("focused", "false")).unwrap().focused);
    assert!(!Node::try_from(&with("focused", r#""yes""#)).unwrap().focused);
    assert!(!Node::try_from(&with("focused", "1")).unwrap().focused);
    assert!(!Node::try_from(&json(MINIMAL)).unwrap().focused);
}

#[test]
fn geometry_needs_its_four_integers() {
    assert_eq!(refusal("geometry", r#"{"width":1,"x":2,"y":3}"#), "Missing field \"height\"");
    assert_eq!(refusal("geometry", r#"{"height":1,"x":2,"y":3}"#), "Missing field \"width\"");
    assert_eq!(refusal("geometry", r#"{"height":1,"width":2,"y":3}"#), "Missing field \"x\"");
    assert_eq!(refusal("geometry", r#"{"height":1,"width":2,"x":3}"#), "Missing field \"y\"");
    assert_eq!(refusal("geometry", "[1,2,3,4]"), "Missing field \"height\"");
    assert_eq!(
        refusal("geometry", r#"{"height":-1,"width":2,"x":3,"y":4}"#),
        "Invalid JSON number: Expected a u64"
    );
    assert_eq!(
        refusal("geometry", r#"{"height":1,"width":2.5,"x":3,"y":4}"#),
        "Invalid JSON number: Expected a u64"
    );
    assert_eq!(
        refusal("geometry", r#"{"height":1,"width":2,"x":"3","y":4}"#),
        "Invalid JSON Value type (expected number)"
    );
    let node = Node::try_from(&with("geometry", r#"{"y":4,"x":3,"width":2,"height":1,"z":9}"#));
    assert_eq!(node.unwrap().geometry, Some(TreeGeometry { height: 1, width: 2, x: 3, y: 4 }));
}

#[test]
fn border_width_is_a_signed_integer() {
    let node = Node::try_from(&with("current_border_width", "-1")).unwrap();
    assert_eq!(node.current_border_width, Some(-1));
    let node = Node::try_from(&with("current_border_width", "9223372036854775807")).unwrap();
    assert_eq!(node.current_border_width, Some(i64::MAX));
    assert_eq!(
        refusal("current_border_width", "9223372036854775808"),
        "Invalid JSON number: Expected a i64"
    );
    assert_eq!(refusal("current_border_width", "1.5"), "Invalid JSON number: Expected a i64");
    assert_eq!(
        refusal("current_border_width", "null"),
        "Invalid JSON Value type (expected number)"
    );
}

#[test]
fn swallow_values_become_texts() {
    let node = Node::try_from(&with(
        "swallows",
        r#"[{"class":"^URxvt$","id":41943042,"offset":-3,"scale":1.5}]"#,
    ))
    .unwrap();
    assert_eq!(
        node.swallows,
        vec![
            Swallow { key: "class".to_string(), value: "^URxvt$".to_string() },
            Swallow { key: "id".to_string(), value: "41943042".to_string() },
            Swallow { key: "offset".to_string(), value: "-3".to_string() },
            Swallow { key: "scale".to_string(), value: "1.5".to_string() },
        ]
    );
}

#[test]
fn swallow_value_of_another_kind_is_refused() {
    assert_eq!(
        refusal("swallows", r#"[{"class":true}]"#),
        "Key \"class\" has non-string or non-number value"
    );
    assert_eq!(
        refusal("swallows", r#"[{"a":"x"},{"title":null}]"#),
        "Key \"title\" has non-string or non-number value"
    );
    assert_eq!(
        refusal("swallows", r#"[{"list":[]}]"#),
        "Key \"list\" has non-string or non-number value"
    );
    assert_eq!(
        refusal("swallows", r#"[{"map":{}}]"#),
        "Key \"map\" has non-string or non-number value"
    );
}

#[test]
fn swallow_integer_of_any_size_becomes_its_text() {
    let node = Node::try_from(&with(
        "swallows",
        r#"[{"big":18446744073709551615,"edge":9223372036854775808,"low":-9223372036854775808,"zero":0}]"#,
    ))
    .unwrap();
    assert_eq!(
        node.swallows,
        vec![
            Swallow { key: "big".to_string(), value: "18446744073709551615".to_string() },
            Swallow { key: "edge".to_string(), value: "9223372036854775808".to_string() },
            Swallow { key: "low".to_string(), value: "-9223372036854775808".to_string() },
            Swallow { key: "zero".to_string(), value: "0".to_string() },
        ]
    );
}

#[test]
fn swallows_must_be_an_array_of_objects() {
    assert_eq!(refusal("swallows", r#"{"class":"x"}"#), "swallows is non-array");
    assert_eq!(refusal("swallows", "null"), "swallows is non-array");
    assert_eq!(refusal("swallows", r#"[{"class":"x"},3]"#), "non-object in swallows");
    assert_eq!(refusal("swallows", r#"[3,{"class":true}]"#), "non-object in swallows");
    assert_eq!(
        refusal("swallows", r#"[{"class":true},3]"#),
        "Key \"class\" has non-string or non-number value"
    );
    assert!(Node::try_from(&with("swallows", "[]")).unwrap().swallows.is_empty());
    assert!(Node::try_from(&with("swallows", "[{}]")).unwrap().swallows.is_empty());
}

#[test]
fn later_swallow_replaces_earlier_of_same_key() {
    let node = Node::try_from(&with(
        "swallows",
        r#"[{"class":"a","title":"b"},{"instance":"c"},{"class":"d"}]"#,
    ))
    .unwrap();
    assert_eq!(
        node.swallows,
        vec![
            Swallow { key: "class".to_string(), value: "d".to_string() },
            Swallow { key: "title".to_string(), value: "b".to_string() },
            Swallow { key: "instance".to_string(), value: "c".to_string() },
        ]
    );
}

#[test]
fn children_must_be_an_array_of_objects() {
    assert_eq!(refusal("nodes", "{}"), "Invalid JSON Value type (expected array)");
    assert_eq!(refusal("nodes", "null"), "Invalid JSON Value type (expected array)");
    assert_eq!(refusal("nodes", "[3]"), "Nodes contains non-objects");
    assert_eq!(refusal("nodes", r#"[{},"x"]"#), "Nodes contains non-objects");
    assert_eq!(refusal("nodes", "[{}]"), "Missing \"border\" field");
}

#[test]
fn first_fault_in_a_child_ends_the_reading() {
    let good = MINIMAL;
    let text = format!(
        r#"[{good},{{"border":"normal","floating":"auto_off","marks":[],"percent":null,"type":"bad"}},{{}}]"#
    );
    assert_eq!(refusal("nodes", &text), "Unknown tree type \"bad\"");
    let nested = format!(r#"[{{"border":"normal","floating":"auto_off","marks":[],"percent":null,"type":"con","nodes":[{good},{{"border":"wavy"}}]}}]"#);
    assert_eq!(refusal("nodes", &nested), "Unknown border type \"wavy\"");
}

#[test]
fn children_keep_the_order_of_the_document() {
    let child = |name: &str| {
        format!(
            r#"{{"border":"none","floating":"user_off","marks":[],"percent":0.5,"type":"con","layout":"stacked","name":"{name}"}}"#
        )
    };
    let text = format!("[{},{},{}]", child("first"), child("second"), child("third"));
    let node = Node::try_from(&with("nodes", &text)).unwrap();
    let names: Vec<Option<String>> = node.nodes.iter().map(|n| n.name.clone()).collect();
    assert_eq!(
        names,
        vec![Some("first".to_string()), Some("second".to_string()), Some("third".to_string())]
    );
}

#[test]
fn members_are_read_in_their_order() {
    let text = r#"{"border":"normal","floating":"auto_off","marks":[],"percent":null,"type":"root",
        "layout":"zigzag","geometry":[],"nodes":3,"swallows":3,"current_border_width":"x"}"#;
    assert_eq!(decode(text), Err("Unknown layout \"zigzag\"".to_string()));
    let text = r#"{"border":"normal","floating":"auto_off","marks":[],"percent":null,"type":"root",
        "geometry":[],"nodes":3,"swallows":3,"current_border_width":"x"}"#;
    assert_eq!(decode(text), Err("Missing field \"height\"".to_string()));
    let text = r#"{"border":"normal","floating":"auto_off","marks":[],"percent":null,"type":"root",
        "nodes":3,"swallows":3,"current_border_width":"x"}"#;
    assert_eq!(decode(text), Err("Invalid JSON Value type (expected array)".to_string()));
    let text = r#"{"border":"normal","floating":"auto_off","marks":[],"percent":null,"type":"root",
        "swallows":3,"current_border_width":"x"}"#;
    assert_eq!(decode(text), Err("swallows is non-array".to_string()));
    let text = r#"{"border":"normal","floating":"auto_off","marks":[],"percent":null,"type":"root",
        "current_border_width":"x"}"#;
    assert_eq!(decode(text), Err("Invalid JSON Value type (expected number)".to_string()));
}

#[test]
fn reading_twice_gives_the_same_tree() {
    let text = r#"{"border":"pixel","floating":"user_on","marks":["a"],"percent":0.5,
        "type":"con","layout":"splith","name":"x","swallows":[{"class":"y"}],
        "nodes":[{"border":"none","floating":"auto_on","marks":[],"percent":1,"type":"con","layout":"tabbed"}]}"#;
    assert_eq!(decode(text), decode(text));
    assert!(decode(text).is_ok());
}

fn member(key: &str, value: Json) -> Member {
    Member { key: key.to_string(), value }
}

fn text(value: &str) -> Json {
    Json::Text(value.to_string())
}

#[test]
fn canonical_form_reads_back() {
    let child = Node {
        border: BorderType::NoBorder,
        floating: FloatMode::AutoOn,
        layout: None,
        marks: vec![],
        percent: Fraction::Whole(1),
        tree_type: TreeType::Con,
        current_border_width: Some(3),
        nodes: vec![],
        geometry: Some(TreeGeometry { height: 600, width: 800, x: 10, y: 20 }),
        name: None,
        swallows: vec![],
        focused: true,
    };
    let node = Node {
        border: BorderType::Pixel,
        floating: FloatMode::UserOff,
        layout: Some(Layout::Stacked),
        marks: vec!["left".to_string(), "main".to_string()],
        percent: Fraction::Float(Float { shown: "0.75".to_string(), percent: "75.000".to_string() }),
        tree_type: TreeType::Workspace,
        current_border_width: Some(-1),
        nodes: vec![child],
        geometry: None,
        name: Some("(null)".to_string()),
        swallows: vec![
            Swallow { key: "title".to_string(), value: "x".to_string() },
            Swallow { key: "class".to_string(), value: "y".to_string() },
        ],
        focused: false,
    };
    let float = Float { shown: "0.75".to_string(), percent: "75.000".to_string() };
    let written_child = Json::Object(vec![
        member("border", text("none")),
        member("floating", text("auto_on")),
        member("marks", Json::Array(vec![])),
        member("percent", Json::Number(Number::PosInt(1))),
        member("type", text("con")),
        member(
            "geometry",
            Json::Object(vec![
                member("height", Json::Number(Number::PosInt(600))),
                member("width", Json::Number(Number::PosInt(800))),
                member("x", Json::Number(Number::PosInt(10))),
                member("y", Json::Number(Number::PosInt(20))),
            ]),
        ),
        member("nodes", Json::Array(vec![])),
        member("swallows", Json::Array(vec![Json::Object(vec![])])),
        member("current_border_width", Json::Number(Number::PosInt(3))),
        member("focused", Json::Bool(true)),
    ]);
    let written = Json::Object(vec![
        member("border", text("pixel")),
        member("floating", text("user_off")),
        member("marks", Json::Array(vec![text("left"), text("main")])),
        member("percent", Json::Number(Number::Float(float))),
        member("type", text("workspace")),
        member("layout", text("stacked")),
        member("name", text("(null)")),
        member("nodes", Json::Array(vec![written_child])),
        member(
            "swallows",
            Json::Array(vec![Json::Object(vec![member("title", text("x")), member("class", text("y"))])]),
        ),
        member("current_border_width", Json::Number(Number::NegInt(-1))),
        member("focused", Json::Bool(false)),
    ]);
    assert_eq!(Node::try_from(&written), Ok(node));
}
