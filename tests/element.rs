use bevy_ui_inspector::element::{ComponentArgs, Components, Element, ElementChildren, SpawnOp};

type El = Element<&'static str, &'static str, u8>;

fn describe(ops: Vec<SpawnOp<&'static str, &'static str, u8>>) -> Vec<String> {
    ops.into_iter()
        .map(|op| match op {
            SpawnOp::Node(n) => format!("node {}", n),
            SpawnOp::Text(t, s) => format!("text {} {}", t, s),
            SpawnOp::Component(k, c) => format!("comp {} {}", k, c),
            SpawnOp::End => "end".to_string(),
        })
        .collect()
}

#[test]
fn components_replace_by_key_and_keep_order() {
    let c: Components<&str> = Components::new().add(1, "a").add(2, "b").add(1, "c");
    assert_eq!(c.into_entries(), vec![(1, "c"), (2, "b")]);
}

#[test]
fn empty_element_spawns_one_node() {
    let e: El = Element::new("root");
    assert_eq!(describe(e.into_spawn_ops()), vec!["node root", "end"]);
}

#[test]
fn spawn_ops_follow_the_tree() {
    let child: El = Element::new("child").add_component(7, "bg");
    let label: El = Element::text_with_style("label", "hello".to_string(), 3);
    let root: El = Element::new("root")
        .add_component(1, "name")
        .add_component(2, "interaction")
        .add_child_elements(vec![child, label]);
    assert_eq!(
        describe(root.into_spawn_ops()),
        vec![
            "node root",
            "comp 1 name",
            "comp 2 interaction",
            "node child",
            "comp 7 bg",
            "end",
            "node label",
            "text hello 3",
            "end",
            "end",
            "end",
        ]
    );
}

#[test]
fn text_with_components_gets_its_own_entity() {
    let e: El = Element::new("box").with_text_and_components(
        "value".to_string(),
        9,
        Components::new().add(4, "selected"),
    );
    assert_eq!(
        describe(e.into_spawn_ops()),
        vec!["node box", "text value 9", "comp 4 selected", "end", "end"]
    );
}

#[test]
fn with_text_replaces_what_stood_under_the_root() {
    let e: El = Element::new("a")
        .add_child_elements(vec![Element::new("b")])
        .with_text("t".to_string(), 0);
    assert_eq!(describe(e.into_spawn_ops()), vec!["node a", "text t 0", "end", "end"]);
}

#[test]
fn empty_children_spawn_nothing() {
    let mut e: El = Element::new("a");
    e.children.push(ElementChildren::Empty);
    assert_eq!(describe(e.into_spawn_ops()), vec!["node a", "end"]);
}

#[test]
fn component_args_wrap_elements() {
    let args: ComponentArgs<&str, &str, u8> =
        ComponentArgs::from_elements(vec![Element::new("x"), Element::new("y")]);
    assert_eq!(args.children.len(), 2);
    assert!(matches!(&args.children[1], ElementChildren::Element(e) if e.node == "y"));
}
