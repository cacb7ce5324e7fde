//! The `DOM` domain.
use remo::dispatcher::{CdpReply, CdpRequest, EventSink};
use remo::domain_dom::{
    attributes, computed_style, DomDomain, DOCUMENT_NODE_ID, FIRST_VIEW_NODE_ID, MAIN_ORIGIN,
    MAX_EAGER_NODES,
};
use remo::json::Json;
use remo::json_text::parse_json;
use remo::view_tree::{Frame, Length, Opacity, ViewNode};

fn json(text: &str) -> Json {
    parse_json(text).expect("test JSON")
}

fn leaf(name: &str) -> ViewNode {
    ViewNode {
        class_name: name.to_string(),
        frame: Frame::of_whole(0, 0, 100, 50),
        is_hidden: false,
        alpha: Opacity::opaque(),
        tag: 0,
        accessibility_id: None,
        modifiers: Vec::new(),
        style_rows: Vec::new(),
        children: Vec::new(),
    }
}

fn parent_with(children: Vec<ViewNode>) -> ViewNode {
    ViewNode {
        class_name: "UIView".to_string(),
        frame: Frame::of_whole(0, 0, 200, 200),
        is_hidden: false,
        alpha: Opacity::opaque(),
        tag: 0,
        accessibility_id: Some("root".to_string()),
        modifiers: Vec::new(),
        style_rows: Vec::new(),
        children,
    }
}

fn respond(domain: &mut DomDomain, method: &str, params: Json) -> CdpReply {
    let request = CdpRequest { id: 1, method: method.to_string(), params };
    domain.respond(&request, None, &mut EventSink::new())
}

fn ok(reply: CdpReply) -> Json {
    match reply {
        CdpReply::Result(value) => value,
        CdpReply::Error { message, .. } => panic!("expected a result, got an error: {message}"),
    }
}

fn error(reply: CdpReply) -> String {
    match reply {
        CdpReply::Error { message, .. } => message,
        CdpReply::Result(value) => panic!("expected an error, got: {value:?}"),
    }
}

fn node_id(id: u64) -> Json {
    Json::empty().with("nodeId", Json::unsigned(id))
}

fn array_len(value: &Json, key: &str) -> Option<usize> {
    value.get(key).and_then(|found| found.as_array()).map(|items| items.len())
}

#[test]
fn matched_styles_is_exactly_five_empty_arrays() {
    let value = ok(respond(&mut DomDomain::new(), "CSS.getMatchedStylesForNode", Json::empty()));
    match &value {
        Json::Object(entries) => assert_eq!(entries.len(), 5),
        other => panic!("object reply, got: {other:?}"),
    }
    for key in [
        "matchedCSSRules",
        "pseudoElements",
        "inherited",
        "inheritedPseudoElements",
        "cssKeyframesRules",
    ] {
        assert_eq!(array_len(&value, key), Some(0), "{key}");
    }
}

#[test]
fn app_manifest_has_url_and_empty_errors() {
    let value = ok(respond(&mut DomDomain::new(), "Page.getAppManifest", Json::empty()));
    assert_eq!(value.str_field("url"), Some(MAIN_ORIGIN));
    assert_eq!(array_len(&value, "errors"), Some(0));
}

#[test]
fn navigation_history_has_one_entry_at_index_zero() {
    let value = ok(respond(&mut DomDomain::new(), "Page.getNavigationHistory", Json::empty()));
    assert_eq!(value.u64_field("currentIndex"), Some(0));
    assert_eq!(array_len(&value, "entries"), Some(1));
}

#[test]
fn register_lookup_and_reset_round_trip() {
    let mut domain = DomDomain::new();
    let id_a = domain.register(&leaf("UILabel"));
    let id_b = domain.register(&leaf("UIButton"));
    assert_ne!(id_a, id_b);
    assert_eq!(domain.lookup(id_a).map(|n| n.class_name), Some("UILabel".to_string()));
    assert_eq!(domain.lookup(id_b).map(|n| n.class_name), Some("UIButton".to_string()));
    assert!(domain.lookup(999).is_none());

    domain.reset();
    assert!(domain.lookup(id_a).is_none());
    assert!(domain.lookup(id_b).is_none());
    let id_after_reset = domain.register(&leaf("UIImageView"));
    assert_eq!(id_after_reset, FIRST_VIEW_NODE_ID);
}

#[test]
fn node_json_registers_the_whole_walked_subtree() {
    let mut domain = DomDomain::new();
    let tree = parent_with(vec![leaf("UILabel"), leaf("UIButton")]);
    let mut budget = MAX_EAGER_NODES;
    let node = domain.node_json(&tree, DOCUMENT_NODE_ID, -1, &mut budget);
    assert_eq!(node.str_field("nodeName"), Some("UIView"));
    assert_eq!(node.u64_field("childNodeCount"), Some(2));
    assert_eq!(array_len(&node, "children"), Some(2));
    assert_eq!(budget, MAX_EAGER_NODES - 2);
    assert_eq!(domain.known(), 3);
}

#[test]
fn modifiers_surface_as_their_own_cdp_attribute_not_in_the_tag_name() {
    let mut view = leaf("SwiftUI.VStack<TupleView<(Text, Text)>>");
    view.modifiers =
        vec!["_PaddingLayout".to_string(), "_BackgroundModifier<Color>".to_string()];
    let mut domain = DomDomain::new();
    let mut budget = MAX_EAGER_NODES;
    let node = domain.node_json(&view, DOCUMENT_NODE_ID, 0, &mut budget);
    assert_eq!(node.str_field("nodeName"), Some("SwiftUI.VStack<TupleView<(Text, Text)>>"));
    let attrs = node.get("attributes").and_then(|a| a.as_array()).expect("attributes array");
    let idx = attrs
        .iter()
        .position(|v| v.as_str() == Some("modifiers"))
        .expect("modifiers attribute present");
    assert_eq!(attrs[idx + 1], Json::text("_PaddingLayout, _BackgroundModifier<Color>"));
}

#[test]
fn modifiers_attribute_is_absent_for_plain_uikit_nodes() {
    let mut domain = DomDomain::new();
    let mut budget = MAX_EAGER_NODES;
    let node = domain.node_json(&leaf("UILabel"), DOCUMENT_NODE_ID, 0, &mut budget);
    let attrs = node.get("attributes").and_then(|a| a.as_array()).expect("attributes array");
    assert!(!attrs.iter().any(|v| v.as_str() == Some("modifiers")));
}

fn style_of(domain: &DomDomain, id: u64) -> Vec<(String, String)> {
    let value = ok(domain.get_computed_style_for_node(&node_id(id)));
    value
        .get("computedStyle")
        .and_then(|style| style.as_array())
        .expect("array")
        .iter()
        .map(|d| {
            (d.str_field("name").unwrap().to_string(), d.str_field("value").unwrap().to_string())
        })
        .collect()
}

#[test]
fn style_rows_surface_as_prefixed_pseudo_css_declarations() {
    let mut view = leaf("Text");
    view.style_rows = vec![
        ("font".to_string(), "title3".to_string()),
        ("…".to_string(), "3 more (truncated)".to_string()),
    ];
    let mut domain = DomDomain::new();
    let id = domain.register(&view);
    let style = style_of(&domain, id);
    assert!(style.contains(&("--swiftui-font".to_string(), "title3".to_string())));
    assert!(style.contains(&("--swiftui-…".to_string(), "3 more (truncated)".to_string())));
    assert!(style.iter().any(|(name, _)| name == "left"));
}

#[test]
fn no_style_rows_means_no_extra_pseudo_css_declarations() {
    let mut domain = DomDomain::new();
    let id = domain.register(&leaf("UILabel"));
    assert!(!style_of(&domain, id).iter().any(|(name, _)| name.starts_with("--swiftui-")));
}

#[test]
fn depth_zero_stops_recursion_but_reports_child_count() {
    let mut domain = DomDomain::new();
    let tree = parent_with(vec![leaf("UILabel")]);
    let mut budget = MAX_EAGER_NODES;
    let node = domain.node_json(&tree, DOCUMENT_NODE_ID, 0, &mut budget);
    assert_eq!(node.u64_field("childNodeCount"), Some(1));
    assert!(node.get("children").is_none());
    assert_eq!(domain.known(), 1);
}

#[test]
fn resolve_node_shape_has_object_id_and_node_subtype() {
    let mut domain = DomDomain::new();
    let id = domain.register(&leaf("UILabel"));
    let value = ok(domain.resolve_node(&node_id(id)));
    let object = value.get("object").expect("object");
    assert_eq!(object.str_field("subtype"), Some("node"));
    assert_eq!(object.str_field("className"), Some("UILabel"));
    assert!(object.get("objectId").is_some() || object.get("preview").is_some());
}

#[test]
fn resolve_node_errors_on_unknown_id() {
    let reply = DomDomain::new().resolve_node(&node_id(12345));
    assert!(matches!(reply, CdpReply::Error { .. }));
}

fn document(domain: &mut DomDomain, params: Json, snapshot: Option<ViewNode>) -> CdpReply {
    domain.respond(
        &CdpRequest { id: 1, method: "DOM.getDocument".to_string(), params },
        snapshot,
        &mut EventSink::new(),
    )
}

#[test]
fn a_document_holds_the_snapshot() {
    let mut domain = DomDomain::new();
    let tree = parent_with(vec![leaf("UILabel")]);
    let value = ok(document(&mut domain, json(r#"{"depth": -1}"#), Some(tree)));
    let root = value.get("root").expect("root");
    assert_eq!(root.u64_field("nodeId"), Some(DOCUMENT_NODE_ID));
    let children = root.get("children").and_then(|c| c.as_array()).expect("children");
    assert_eq!(children.len(), 1);
    assert_eq!(children[0].str_field("nodeName"), Some("UIView"));
    assert_eq!(children[0].u64_field("nodeId"), Some(FIRST_VIEW_NODE_ID));
    assert_eq!(domain.known(), 2);
}

fn class_under(domain: &mut DomDomain, params: Json) -> Option<String> {
    let value = ok(respond(domain, "DOM.resolveNode", params));
    value.get("object").and_then(|object| object.str_field("className")).map(str::to_string)
}

#[test]
fn every_node_of_a_document_bears_the_id_of_its_view() {
    let mut domain = DomDomain::new();
    let tree = parent_with(vec![leaf("A"), parent_with(vec![leaf("B"), leaf("C")]), leaf("D")]);
    let value = ok(document(&mut domain, json(r#"{"depth": -1}"#), Some(tree)));
    let mut open = vec![value.get("root").unwrap().get("children").unwrap().as_array().unwrap()];
    let mut seen: Vec<(u64, String)> = Vec::new();
    while let Some(nodes) = open.pop() {
        for node in nodes {
            let id = node.u64_field("nodeId").unwrap();
            let name = node.str_field("nodeName").unwrap().to_string();
            let backend = Json::empty().with("backendNodeId", Json::unsigned(id));
            assert_eq!(class_under(&mut domain, node_id(id)), Some(name.clone()));
            assert_eq!(class_under(&mut domain, backend), Some(name.clone()));
            seen.push((id, name));
            if let Some(children) = node.get("children") {
                open.push(children.as_array().unwrap());
            }
        }
    }
    seen.sort();
    let names: Vec<&str> = seen.iter().map(|(_, name)| name.as_str()).collect();
    assert_eq!(names, ["UIView", "A", "UIView", "B", "C", "D"]);
}

fn ids_in_turn(node: &Json, parent: Option<u64>, ids: &mut Vec<u64>) {
    let id = node.u64_field("nodeId").unwrap();
    assert_eq!(node.u64_field("parentId"), parent);
    ids.push(id);
    if let Some(children) = node.get("children") {
        for child in children.as_array().unwrap() {
            ids_in_turn(child, Some(id), ids);
        }
    }
}

#[test]
fn a_document_counts_its_views_in_turn() {
    let mut domain = DomDomain::new();
    let mut replies = Vec::new();
    for _ in 0..2 {
        let tree = parent_with(vec![parent_with(vec![leaf("A"), leaf("B")]), leaf("C")]);
        let value = ok(document(&mut domain, Json::empty(), Some(tree)));
        let mut ids = Vec::new();
        ids_in_turn(value.get("root").unwrap(), None, &mut ids);
        assert_eq!(ids, [1, 2, 3, 4, 5, 6]);
        assert_eq!(domain.known(), 5);
        assert!(domain.lookup(1).is_none() && domain.lookup(7).is_none());
        replies.push(value);
    }
    assert_eq!(replies[0], replies[1]);
}

#[test]
fn announced_children_get_ids_that_were_not_known() {
    let mut domain = DomDomain::new();
    let tree = parent_with(vec![leaf("A"), leaf("B")]);
    ok(document(&mut domain, Json::empty(), Some(tree)));
    assert_eq!(domain.known(), 3);
    let request = CdpRequest {
        id: 1,
        method: "DOM.requestChildNodes".to_string(),
        params: node_id(FIRST_VIEW_NODE_ID),
    };
    for known in [3u64, 5] {
        let mut events = EventSink::new();
        ok(domain.respond(&request, None, &mut events));
        let nodes = events.frames[0].get("params").unwrap().get("nodes").unwrap();
        let ids: Vec<u64> =
            nodes.as_array().unwrap().iter().map(|n| n.u64_field("nodeId").unwrap()).collect();
        assert_eq!(ids, [known + 2, known + 3]);
    }
    assert_eq!(domain.known(), 7);
}

#[test]
fn a_document_tells_when_its_budget_is_spent() {
    let mut domain = DomDomain::new();
    let wide = |count: usize| parent_with((0..count).map(|_| leaf("A")).collect());
    ok(document(&mut domain, Json::empty(), Some(wide(MAX_EAGER_NODES as usize - 1))));
    assert!(!domain.document_was_cut());
    ok(document(&mut domain, Json::empty(), Some(wide(MAX_EAGER_NODES as usize))));
    assert!(domain.document_was_cut());
    domain.reset();
    assert!(!domain.document_was_cut());
}

#[test]
fn a_new_document_forgets_the_nodes_of_the_last() {
    let mut domain = DomDomain::new();
    ok(document(&mut domain, Json::empty(), Some(parent_with(vec![leaf("A"), leaf("B")]))));
    ok(document(&mut domain, Json::empty(), Some(leaf("C"))));
    assert_eq!(domain.known(), 1);
    assert_eq!(domain.lookup(FIRST_VIEW_NODE_ID).map(|n| n.class_name), Some("C".to_string()));
}

#[test]
fn only_a_document_needs_a_snapshot() {
    assert!(DomDomain::needs_snapshot("DOM.getDocument"));
    assert!(!DomDomain::needs_snapshot("DOM.resolveNode"));
}

#[test]
fn child_nodes_are_announced_by_an_event() {
    let mut domain = DomDomain::new();
    let id = domain.register(&parent_with(vec![leaf("UILabel"), leaf("UIButton")]));
    let mut events = EventSink::new();
    let reply = domain.request_child_nodes(&node_id(id), &mut events);
    assert_eq!(ok(reply), Json::empty());
    assert_eq!(events.frames.len(), 1);
    assert_eq!(events.frames[0].str_field("method"), Some("DOM.setChildNodes"));
    let params = events.frames[0].get("params").expect("params");
    assert_eq!(params.u64_field("parentId"), Some(id));
    assert_eq!(array_len(params, "nodes"), Some(2));
    assert_eq!(ok(domain.request_child_nodes(&node_id(999), &mut events)), Json::empty());
    assert_eq!(ok(domain.request_child_nodes(&Json::empty(), &mut events)), Json::empty());
    assert_eq!(events.frames.len(), 1);
}

#[test]
fn a_box_model_is_the_frame_of_a_view() {
    let mut domain = DomDomain::new();
    let mut view = leaf("UILabel");
    view.frame = Frame::of_whole(10, 20, 100, 50);
    let id = domain.register(&view);
    let value = ok(domain.get_box_model(&node_id(id)));
    let model = value.get("model").expect("model");
    let quad = json("[10.0, 20.0, 110.0, 20.0, 110.0, 70.0, 10.0, 70.0]");
    for key in ["content", "padding", "border", "margin"] {
        assert_eq!(model.get(key), Some(&quad), "{key}");
    }
    assert_eq!(model.get("width"), Some(&json("100.0")));
    assert_eq!(model.get("height"), Some(&json("50.0")));
    error(domain.get_box_model(&node_id(999)));
}

#[test]
fn pushed_nodes_keep_the_ids_that_are_known() {
    let mut domain = DomDomain::new();
    let id = domain.register(&leaf("UILabel"));
    let asked = Json::array(vec![Json::unsigned(99), Json::unsigned(id), Json::text("2")]);
    let value =
        ok(domain.push_nodes_by_backend_ids(&Json::empty().with("backendNodeIds", asked)));
    assert_eq!(value, Json::empty().with("nodeIds", Json::array(vec![Json::unsigned(id)])));
}

#[test]
fn styles_follow_the_frame_and_the_opacity() {
    let mut view = leaf("UILabel");
    view.frame = Frame::of_whole(1, 2, 3, 4);
    let rows = computed_style(&view);
    assert!(rows.contains(&("left".to_string(), "1px".to_string())), "{rows:?}");
    assert!(rows.contains(&("width".to_string(), "3px".to_string())), "{rows:?}");
    view.accessibility_id = Some("ok".to_string());
    let list = attributes(&view);
    let at = list.iter().position(|text| text == "ok").expect("identifier");
    assert!(at > 0);
}

#[test]
fn an_unhandled_dom_method_is_an_error() {
    assert_eq!(
        error(respond(&mut DomDomain::new(), "DOM.unknown", Json::empty())),
        "unhandled method: DOM.unknown"
    );
}

#[test]
fn a_whole_length_is_written_without_a_fraction() {
    let length = Length::of_whole(-7);
    assert_eq!(length.whole, -7);
    assert_eq!(length.rounded, "-7");
}
