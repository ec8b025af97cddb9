use i3_show_tree::diagram::{can_draw_document, close_diagram, draw_document, open_diagram};
use i3_show_tree::json::{Float, Json, Member, Number};
use i3_show_tree::kinds::TreeType;
use i3_show_tree::node::Node;
use i3_show_tree::render::{cut_name, Settings};

fn convert(value: &serde_json::Value) -> Json {
    match value {
        serde_json::Value::Null => Json::Null,
        serde_json::Value::Bool(b) => Json::Bool(*b),
        serde_json::Value::Number(n) => {
            if let Some(u) = n.as_u64() {
                Json::Number(Number::PosInt(u))
            } else if let Some(i) = n.as_i64() {
                Json::Number(Number::NegInt(i))
            } else {
                let f: f64 = n.as_f64().unwrap();
                Json::Number(Number::Float(Float {
                    shown: format!("{}", f),
                    percent: format!("{:0.3}", f * 100_f64),
                }))
            }
        }
        serde_json::Value::String(s) => Json::Text(s.clone()),
        serde_json::Value::Array(items) => Json::Array(items.iter().map(convert).collect()),
        serde_json::Value::Object(members) => Json::Object(
            members
                .iter()
                .map(|(key, value)| Member { key: key.clone(), value: convert(value) })
                .collect(),
        ),
    }
}

fn tree(text: &str) -> Node {
    let value: serde_json::Value = serde_json::from_str(text).unwrap();
    Node::try_from(&convert(&value)).unwrap()
}

fn settings(expand_from: TreeType) -> Settings {
    Settings { silent: false, no_swallows: false, expand_from, print_parents: false }
}

/// An element as the diagram holds it.
fn element(id: &str, label: &str) -> String {
    format!("\tnode_{id} [shape=record label=\"{label}\"]\n")
}

fn edge(id: &str, child: &str) -> String {
    format!("\tnode_{id}:NODES -> node_{child}:NAME\n")
}

/// The label of a container named `name` of the kind `kind`, with the layout
/// `layout`, that has nothing else to show.
fn plain(focus: &str, name: &str, kind: &str, layout: &str) -> String {
    format!(
        "{{<NAME>{focus}{name}|{{ {{ {{ Tree Type:\\n{kind} | Floating:\\nAuto Off }} | Border Type:\\nnone | <NODES>Layout:\\n{layout} }}| {{ {{ Percent:\\n0.000% | Border Width:\\nN/A }} | {{  No marks }} }} }} }}"
    )
}

fn container(kind: &str, layout: &str, name: &str, focused: bool, nodes: &[String]) -> String {
    format!(
        r#"{{"border":"none","floating":"auto_off","marks":[],"percent":null,"type":"{kind}","layout":"{layout}","name":"{name}","focused":{focused},"nodes":[{}]}}"#,
        nodes.join(",")
    )
}

const MINIMAL: &str = r#"{"border":"normal","floating":"auto_off","marks":[],"percent":null,"type":"root","geometry":{"height":0,"width":0,"x":0,"y":0}}"#;

const RICH: &str = r#"{"border":"pixel","floating":"user_on","marks":["a","b"],"percent":0.5,
    "type":"con","layout":"splith","name":"editor","current_border_width":2,"focused":true,
    "swallows":[{"class":"^Emacs$"}]}"#;

#[test]
fn minimal_document_draws_one_element() {
    let node = tree(MINIMAL);
    let drawn = node.pretty_print("0", &settings(TreeType::Root), false);
    assert_eq!(
        drawn,
        "\tnode_0 [shape=record label=\"{<NAME>(no name)|{ { { Tree Type:\\nroot | Floating:\\nAuto Off } | Border Type:\\nnormal | Geometry | { { Width: 0 | Height: 0 } | { X: 0 | Y: 0 } } }| { { Percent:\\n0.000% | Border Width:\\nN/A } | {  No marks } } } }\"]\n"
    );
    assert_eq!(drawn.matches("[shape=record").count(), 1);
    assert!(drawn.contains("Percent:\\n0.000%"));
    assert!(drawn.contains("No marks"));
    assert!(!drawn.contains("Swallows"));
    assert!(!drawn.contains("->"));
}

#[test]
fn minimal_document_draws_one_silent_element() {
    let node = tree(MINIMAL);
    let silent = Settings { silent: true, ..settings(TreeType::Root) };
    assert_eq!(
        node.pretty_print("0", &silent, false),
        "\tnode_0 [shape=record label=\"{<NAME>(no name)|{ { { Tree Type:\\nroot | Floating:\\nAuto Off } | Geometry | { { Width: 0 | Height: 0 } | { X: 0 | Y: 0 } } }| { { Percent:\\n0.000%  }  } } }\"]\n"
    );
}

#[test]
fn container_above_the_kind_to_expand_from_is_hidden() {
    let node = tree(MINIMAL);
    assert_eq!(node.pretty_print("0", &settings(TreeType::Workspace), false), "");
    let parents = Settings { print_parents: true, ..settings(TreeType::Workspace) };
    assert_eq!(node.pretty_print("0", &parents, false).matches("[shape=record").count(), 1);
    assert_eq!(node.pretty_print("0", &settings(TreeType::Workspace), true).matches("[shape=record").count(), 1);
}

#[test]
fn rich_container_draws_marks_and_swallows() {
    let node = tree(RICH);
    assert_eq!(
        node.pretty_print("3", &settings(TreeType::Con), false),
        "\tnode_3 [shape=record label=\"{<NAME>\u{1F534} editor|{ { { Tree Type:\\ncon | Floating:\\nUser On } | Border Type:\\npixel | <NODES>Layout:\\nsplith }| { { Percent:\\n50.000% | Border Width:\\n2 } | { <SWALLOWS>Swallows |  Marks:\\n- \\\"a\\\"\\l- \\\"b\\\"\\l } } } }\"]\n\tnode_3_swallows [shape=record label=\"{ <HEAD>Swallows | - class: \\\"^Emacs$\\\"\\l }\"]\n\tnode_3:SWALLOWS -> node_3_swallows:HEAD"
    );
}

#[test]
fn rich_container_draws_silent() {
    let node = tree(RICH);
    let silent = Settings { silent: true, ..settings(TreeType::Con) };
    assert_eq!(
        node.pretty_print("3", &silent, false),
        "\tnode_3 [shape=record label=\"{<NAME>\u{1F534} editor|{ { { Tree Type:\\ncon | Floating:\\nUser On } | <NODES>Layout:\\nsplith }| { { Percent:\\n50.000%  | Border:\\n2px } | { <SWALLOWS>Swallows | Marks:\\n- \\\"a\\\"\\l- \\\"b\\\"\\l } } } }\"]\n\tnode_3_swallows [shape=record label=\"{ <HEAD>Swallows | - class: \\\"^Emacs$\\\"\\l }\"]\n\tnode_3:SWALLOWS -> node_3_swallows:HEAD"
    );
}

fn silent_label(text: &str) -> String {
    let node = tree(text);
    let silent = Settings { silent: true, ..settings(TreeType::Con) };
    let drawn = node.pretty_print("0", &silent, false);
    let start = drawn.find("Percent:").unwrap();
    let end = drawn.find("\"]\n").unwrap();
    drawn[start..end].to_string()
}

fn bordered(border: &str, width: &str) -> String {
    format!(
        r#"{{"border":"{border}","floating":"auto_off","marks":[],"percent":null,"type":"con","layout":"tabbed","current_border_width":{width}}}"#
    )
}

#[test]
fn silent_element_says_of_the_border_what_there_is_to_say() {
    assert_eq!(silent_label(&bordered("pixel", "2")), "Percent:\\n0.000%  | Border:\\n2px }  } } }");
    assert_eq!(silent_label(&bordered("normal", "0")), "Percent:\\n0.000%  | Border:\\nTitle }  } } }");
    assert_eq!(silent_label(&bordered("normal", "-1")), "Percent:\\n0.000%  | Border:\\nTitle }  } } }");
    assert_eq!(
        silent_label(&bordered("normal", "3")),
        "Percent:\\n0.000%  | Border:\\nTitle\\n3px }  } } }"
    );
    assert_eq!(silent_label(&bordered("none", "12")), "Percent:\\n0.000%  | Border:\\n12 }  } } }");
    assert_eq!(silent_label(&bordered("pixel", "0")), "Percent:\\n0.000%  }  } } }");
    assert_eq!(silent_label(&bordered("pixel", "-1")), "Percent:\\n0.000%  }  } } }");
    assert_eq!(silent_label(&bordered("none", "-5")), "Percent:\\n0.000%  }  } } }");
}

fn marked(marks: &str, swallows: &str) -> String {
    format!(
        r#"{{"border":"none","floating":"auto_off","marks":{marks},"percent":null,"type":"con","layout":"tabbed","swallows":{swallows}}}"#
    )
}

#[test]
fn silent_element_leaves_out_what_is_empty() {
    assert_eq!(silent_label(&marked("[]", "[]")), "Percent:\\n0.000%  }  } } }");
    assert_eq!(
        silent_label(&marked(r#"["m"]"#, "[]")),
        "Percent:\\n0.000%  } | { Marks:\\n- \\\"m\\\"\\l } } } }"
    );
    assert_eq!(
        silent_label(&marked("[]", r#"[{"class":"x"}]"#)),
        "Percent:\\n0.000%  } | {{ <SWALLOWS>Swallows }} } } }"
    );
    assert_eq!(
        silent_label(&marked(r#"["m","n"]"#, r#"[{"class":"x"}]"#)),
        "Percent:\\n0.000%  } | { <SWALLOWS>Swallows | Marks:\\n- \\\"m\\\"\\l- \\\"n\\\"\\l } } } }"
    );
}

#[test]
fn full_element_shows_the_border_width_as_it_is() {
    let label = |text: &str| {
        let drawn = tree(text).pretty_print("0", &settings(TreeType::Con), false);
        let start = drawn.find("Border Width:").unwrap();
        drawn[start..drawn.find(" } | {").unwrap()].to_string()
    };
    assert_eq!(label(&bordered("pixel", "-1")), "Border Width:\\n-1");
    assert_eq!(label(&bordered("pixel", "0")), "Border Width:\\n0");
    assert_eq!(label(&bordered("normal", "25")), "Border Width:\\n25");
    assert_eq!(label(&marked("[]", "[]")), "Border Width:\\nN/A");
}

#[test]
fn swallow_criteria_are_listed_in_their_order() {
    let node = tree(&marked("[]", r#"[{"class":"a","title":"b"},{"instance":"c"},{"class":"d\"e"}]"#));
    let drawn = node.pretty_print("7", &settings(TreeType::Con), false);
    assert!(drawn.ends_with(
        "\tnode_7_swallows [shape=record label=\"{ <HEAD>Swallows | - class: \\\"d\"e\\\"\\l- title: \\\"b\\\"\\l- instance: \\\"c\\\"\\l }\"]\n\tnode_7:SWALLOWS -> node_7_swallows:HEAD"
    ));
}

#[test]
fn left_out_swallows_are_not_drawn() {
    let with = tree(RICH);
    let without = tree(
        r#"{"border":"pixel","floating":"user_on","marks":["a","b"],"percent":0.5,
        "type":"con","layout":"splith","name":"editor","current_border_width":2,"focused":true}"#,
    );
    for silent in [false, true] {
        let hidden = Settings { silent, no_swallows: true, ..settings(TreeType::Con) };
        let drawn = with.pretty_print("0", &hidden, false);
        assert!(!drawn.contains("SWALLOWS"));
        assert!(!drawn.contains("Swallows"));
        assert!(!drawn.contains("_swallows"));
        assert_eq!(drawn.matches("[shape=record").count(), 1);
        assert_eq!(drawn, without.pretty_print("0", &hidden, false));
        let shown = Settings { silent, no_swallows: false, ..settings(TreeType::Con) };
        let drawn = with.pretty_print("0", &shown, false);
        assert_eq!(drawn.matches("[shape=record").count(), 2);
        assert!(drawn.contains("node_0:SWALLOWS -> node_0_swallows:HEAD"));
        assert_eq!(without.pretty_print("0", &shown, false).matches("[shape=record").count(), 1);
    }
}

#[test]
fn only_the_way_to_the_focus_is_drawn() {
    let text = container(
        "root",
        "splith",
        "top",
        false,
        &[
            container("con", "splith", "left", false, &[container("con", "tabbed", "stray", false, &[])]),
            container(
                "con",
                "splitv",
                "right",
                false,
                &[
                    container("con", "tabbed", "idle", false, &[]),
                    container("con", "tabbed", "active", true, &[]),
                    container("con", "tabbed", "other", false, &[]),
                ],
            ),
        ],
    );
    let node = tree(&text);
    assert!(node.has_focus());
    assert!(!node.nodes[0].has_focus());
    assert!(node.nodes[1].has_focus());
    assert!(node.nodes[1].nodes[1].has_focus());
    let parents = Settings { print_parents: true, ..settings(TreeType::DockArea) };
    let drawn = node.pretty_print("0", &parents, false);
    let expected = element("0", &plain("\u{1F534} ", "top", "root", "splith"))
        + &element("0_1", &plain("\u{1F534} ", "right", "con", "splitv"))
        + &element("0_1_1", &plain("\u{1F534} ", "active", "con", "tabbed"))
        + &edge("0_1", "0_1_1")
        + &edge("0", "0_1");
    assert_eq!(drawn, expected);
    for name in ["left", "stray", "idle", "other"] {
        assert!(!drawn.contains(name));
    }
    assert_eq!(node.pretty_print("0", &settings(TreeType::DockArea), false), "");
}

#[test]
fn everything_below_the_kind_to_expand_from_is_drawn() {
    let text = container(
        "root",
        "splith",
        "top",
        false,
        &[
            container(
                "workspace",
                "splith",
                "one",
                false,
                &[
                    container("con", "splitv", "p", false, &[container("con", "tabbed", "p1", false, &[])]),
                    container("con", "tabbed", "q", true, &[]),
                    container("con", "tabbed", "r", false, &[]),
                ],
            ),
            container("workspace", "splith", "two", false, &[container("con", "tabbed", "s", false, &[])]),
        ],
    );
    let node = tree(&text);
    let drawn = node.pretty_print("0", &settings(TreeType::Workspace), false);
    let expected = element("0_0", &plain("\u{1F534} ", "one", "workspace", "splith"))
        + &element("0_0_0", &plain("", "p", "con", "splitv"))
        + &element("0_0_0_0", &plain("", "p1", "con", "tabbed"))
        + &edge("0_0_0", "0_0_0_0")
        + &edge("0_0", "0_0_0")
        + &element("0_0_1", &plain("\u{1F534} ", "q", "con", "tabbed"))
        + &edge("0_0", "0_0_1")
        + &element("0_0_2", &plain("", "r", "con", "tabbed"))
        + &edge("0_0", "0_0_2");
    assert_eq!(drawn, expected);
    assert!(!drawn.contains("two"));
    assert!(!drawn.contains("top"));
    let second = &node.nodes[1];
    let drawn = second.pretty_print("9", &settings(TreeType::Workspace), false);
    let expected = element("9", &plain("", "two", "workspace", "splith"))
        + &element("9_0", &plain("", "s", "con", "tabbed"))
        + &edge("9", "9_0");
    assert_eq!(drawn, expected);
}

#[test]
fn hidden_container_gives_no_edge_to_what_is_drawn_below_it() {
    let text = container(
        "root",
        "splith",
        "top",
        false,
        &[
            container("output", "output", "screen", false, &[]),
            container(
                "output",
                "output",
                "main",
                false,
                &[container("workspace", "splith", "one", true, &[container("con", "tabbed", "leaf", false, &[])])],
            ),
        ],
    );
    let node = tree(&text);
    let drawn = node.pretty_print("0", &settings(TreeType::Workspace), false);
    let expected = element("0_1_0", &plain("\u{1F534} ", "one", "workspace", "splith"))
        + &element("0_1_0_0", &plain("", "leaf", "con", "tabbed"))
        + &edge("0_1_0", "0_1_0_0");
    assert_eq!(drawn, expected);
}

#[test]
fn long_name_is_cut_and_escaped() {
    let name = "ab\\cd\"ef|gh^ij<kl>mn/op".to_string() + &"x".repeat(27) + "|" + &"y".repeat(9);
    assert_eq!(name.chars().count(), 60);
    let expected = "ab\\\\cd\\\"ef\\|gh\\^ij&lt;kl&gt;mn/op".to_string() + &"x".repeat(27) + "...";
    assert_eq!(cut_name(&name), expected);
    let plain: String = ('a'..='z').cycle().take(60).collect();
    let first: String = plain.chars().take(50).collect();
    assert_eq!(cut_name(&plain), first + "...");
}

#[test]
fn short_name_is_kept_as_it_is() {
    let name = "\\\"|^<>".to_string() + &"z".repeat(44);
    assert_eq!(name.chars().count(), 50);
    assert_eq!(cut_name(&name), name);
    assert_eq!(cut_name(""), "");
    assert_eq!(cut_name("a|b"), "a|b");
    let longer = name.clone() + "!";
    assert_eq!(cut_name(&longer), "\\\\\\\"\\|\\^&lt;&gt;".to_string() + &"z".repeat(44) + "...");
}

#[test]
fn name_is_measured_in_characters() {
    let name = "\u{e9}".repeat(50);
    assert_eq!(name.len(), 100);
    assert_eq!(cut_name(&name), name);
    let longer = "\u{e9}".repeat(51);
    assert_eq!(cut_name(&longer), "\u{e9}".repeat(50) + "...");
}

#[test]
fn name_is_shown_in_the_element() {
    let long = "<".repeat(60);
    let node = tree(&container("con", "tabbed", &long, false, &[]));
    let drawn = node.pretty_print("0", &settings(TreeType::Con), false);
    assert!(drawn.contains(&format!("{{<NAME>{}...|", "&lt;".repeat(50))));
    let short = "<".repeat(50);
    let node = tree(&container("con", "tabbed", &short, false, &[]));
    let drawn = node.pretty_print("0", &settings(TreeType::Con), false);
    assert!(drawn.contains(&format!("{{<NAME>{short}|")));
    let node = tree(&marked("[]", "[]"));
    assert!(node.pretty_print("0", &settings(TreeType::Con), false).contains("{<NAME>(no name)|"));
}

#[test]
fn drawable_is_a_tree_with_a_place_for_each_container() {
    let bare = r#"{"border":"none","floating":"auto_off","marks":[],"percent":null,"type":"con"}"#;
    assert!(!tree(bare).is_drawable());
    assert!(tree(MINIMAL).is_drawable());
    assert!(tree(RICH).is_drawable());
    assert!(!tree(&container("con", "tabbed", "x", false, &[bare.to_string()])).is_drawable());
    assert!(tree(&container("con", "tabbed", "x", false, &[MINIMAL.to_string()])).is_drawable());
}

#[test]
fn diagram_is_framed() {
    let loud = settings(TreeType::Workspace);
    let silent = Settings { silent: true, ..loud };
    assert_eq!(
        open_diagram(&loud),
        "digraph tuilade {\n\tnode_title[shape=rectangle label = \"Tuilade i3 viewer\"]\n"
    );
    assert_eq!(open_diagram(&silent), "digraph tuilade {\n");
    assert_eq!(close_diagram(), "}\n");
}

#[test]
fn document_is_drawn_under_its_number() {
    let node = tree(&container("workspace", "splith", "one", false, &[container("con", "tabbed", "a", false, &[])]));
    let drawn = draw_document(&node, 12, &settings(TreeType::Workspace));
    let expected = element("12", &plain("", "one", "workspace", "splith"))
        + &element("12_0", &plain("", "a", "con", "tabbed"))
        + &edge("12", "12_0")
        + "\n";
    assert_eq!(drawn, expected);
    assert_eq!(draw_document(&node, 0, &settings(TreeType::Con)), "\n");
}

#[test]
fn children_beyond_the_tenth_get_longer_numbers() {
    let children: Vec<String> =
        (0..12).map(|i| container("con", "tabbed", &format!("c{i}"), false, &[])).collect();
    let node = tree(&container("workspace", "splith", "w", false, &children));
    let drawn = node.pretty_print("0", &settings(TreeType::Workspace), false);
    assert!(drawn.contains(&edge("0", "0_9")));
    assert!(drawn.contains(&edge("0", "0_10")));
    assert!(drawn.ends_with(&edge("0", "0_11")));
    assert!(drawn.contains(&element("0_11", &plain("", "c11", "con", "tabbed"))));
}

#[test]
fn only_what_is_shown_needs_a_place() {
    let bare = |kind: &str, focused: bool, nodes: &[String]| {
        format!(
            r#"{{"border":"none","floating":"auto_off","marks":[],"percent":null,"type":"{kind}","focused":{focused},"nodes":[{}]}}"#,
            nodes.join(",")
        )
    };
    let leaf = container("con", "tabbed", "leaf", true, &[]);
    let top = tree(&bare("root", false, &[container("workspace", "splith", "w", false, &[leaf])]));
    let from_workspace = settings(TreeType::Workspace);
    assert!(!top.is_drawable());
    assert!(top.can_draw(&from_workspace, false));
    assert!(can_draw_document(&top, &from_workspace));
    assert!(!top.can_draw(&from_workspace, true));
    assert!(!top.can_draw(&settings(TreeType::Root), false));
    assert!(!can_draw_document(&top, &settings(TreeType::Root)));
    assert!(!top.can_draw(&Settings { print_parents: true, ..from_workspace }, false));
    let aside = bare("con", false, &[]);
    let top = tree(&container("root", "splith", "top", false, &[aside.clone()]));
    assert!(top.can_draw(&settings(TreeType::DockArea), false));
    assert!(top.can_draw(&Settings { print_parents: true, ..settings(TreeType::DockArea) }, false));
    assert!(!top.can_draw(&settings(TreeType::Root), false));
    let on_the_way = bare("con", true, &[]);
    let top = tree(&container("root", "splith", "top", false, &[on_the_way]));
    assert!(top.can_draw(&settings(TreeType::DockArea), false));
    assert!(!top.can_draw(&Settings { print_parents: true, ..settings(TreeType::DockArea) }, false));
    assert!(tree(MINIMAL).can_draw(&settings(TreeType::Root), false));
}

#[test]
fn percent_below_zero_is_drawn_with_its_sign() {
    let text = r#"{"border":"none","floating":"auto_off","marks":[],"percent":-2,"type":"con","layout":"tabbed"}"#;
    let drawn = tree(text).pretty_print("0", &settings(TreeType::Con), false);
    assert!(drawn.contains("{ { Percent:\\n-200.000% | Border Width:\\nN/A }"));
    let text = r#"{"border":"none","floating":"auto_off","marks":[],"percent":-0.5,"type":"con","layout":"tabbed"}"#;
    let drawn = tree(text).pretty_print("0", &settings(TreeType::Con), false);
    assert!(drawn.contains("{ { Percent:\\n-50.000% | Border Width:\\nN/A }"));
}
