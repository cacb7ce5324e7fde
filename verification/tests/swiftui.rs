//! SwiftUI views: their types, their attributes and the filter over them.
use remo::json::Json;
use remo::json_text::{parse_json, to_text};
use remo::swiftui_debug::{
    apply_view_filter_with, attribute_text, classify, count_decoded_node, decode_json_node,
    decode_json_nodes, decode_payload, dump_hosting_view, flatten_node_properties, hosting_gate,
    is_hosting_view_class, is_verified_os_version, log_filter_summary, payload_file_name, reset_filter_counters,
    stringify_attribute_value, warn_unsupported_os_once, FilterCounters, FilterDecision,
    HostingGate, FLATTEN_ROW_TEXT_CHAR_LIMIT, MAX_CLASS_NAME_CHARS,
};
use remo::swiftui_types::{
    cap_display_length, is_modified_content, matching_close_angle_bracket, parse_outer_generic,
    split_top_level_commas, unwrap_modified_content,
};
use remo::view_tree::{Frame, Opacity, ViewNode};
use remo::view_walk::{key_window, walk_view, LiveView};

fn json(text: &str) -> Json {
    parse_json(text).expect("test JSON")
}

fn no_counts() -> FilterCounters {
    FilterCounters { decoded: 0, kept: 0, hoisted: 0, elided_subviews: 0 }
}

fn decode(text: &str) -> Option<Vec<ViewNode>> {
    decode_json_nodes(&json(text), false, &mut no_counts())
}

fn flatten(text: &str, depth_limit: usize, row_cap: usize) -> Vec<(String, String)> {
    flatten_node_properties(json(text).as_array().unwrap(), depth_limit, row_cap)
}

fn node(class_name: &str, modifiers: Vec<&str>, children: Vec<ViewNode>) -> ViewNode {
    ViewNode {
        class_name: class_name.to_string(),
        frame: Frame::of_whole(0, 0, 0, 0),
        is_hidden: false,
        alpha: Opacity::opaque(),
        tag: 0,
        accessibility_id: None,
        modifiers: modifiers.into_iter().map(str::to_string).collect(),
        style_rows: Vec::new(),
        children,
    }
}

fn leaf_node(class_name: &str) -> ViewNode {
    node(class_name, vec![], vec![])
}

fn apply_view_filter(children: Vec<ViewNode>) -> Vec<ViewNode> {
    apply_view_filter_with(children, false, &mut no_counts())
}

fn row(title: &str, value: &str) -> (String, String) {
    (title.to_string(), value.to_string())
}

#[test]
fn verified_os_version_allowlist_is_exact_not_a_range() {
    assert!(is_verified_os_version(26));
    assert!(!is_verified_os_version(25));
    assert!(!is_verified_os_version(27));
    assert!(!is_verified_os_version(18));
    assert!(!is_verified_os_version(0));
}

#[test]
fn hosting_view_markers_match_known_class_names() {
    assert!(is_hosting_view_class(
        "_TtCC7SwiftUI20TabHostingControllerP33_E387C3C47C0D2A0931533D8490A5A8B711HostingView"
    ));
    assert!(is_hosting_view_class(
        "_TtGC7SwiftUI14_UIHostingViewGVS_15ModifiedContentVS_7AnyViewVS_12RootModifier__"
    ));
    assert!(!is_hosting_view_class("UILabel"));
}

#[test]
fn decodes_a_minimal_json_node() {
    let nodes = decode(
        r#"[{
            "properties": [
                { "id": 0, "attribute": { "flags": 1, "type": "SwiftUI.VStack<SwiftUI.TupleView<(SwiftUI.Text, SwiftUI.Text)>>", "readableType": "VStack<TupleView<(Text, Text)>>" } },
                { "id": 1, "attribute": { "flags": 2, "type": "SwiftUI._PaddingLayout", "readableType": "_PaddingLayout" } }
            ],
            "children": [
                {
                    "properties": [
                        { "id": 0, "attribute": { "flags": 1, "type": "SwiftUI.Text", "readableType": "Text" } }
                    ],
                    "children": []
                }
            ]
        }]"#,
    )
    .expect("should decode");
    assert_eq!(nodes.len(), 1);
    assert_eq!(nodes[0].class_name, "VStack<TupleView<(Text, Text)>>");
    assert_eq!(nodes[0].modifiers, vec!["_PaddingLayout".to_string()]);
    assert_eq!(nodes[0].children.len(), 1);
    assert_eq!(nodes[0].children[0].class_name, "Text");
    assert!(nodes[0].children[0].modifiers.is_empty());
}

#[test]
fn null_modifier_falls_back_to_placeholder_instead_of_dropping() {
    let nodes = decode(
        r#"[{
            "properties": [
                { "id": 0, "attribute": { "flags": 1, "type": "SwiftUI.Text", "readableType": "Text" } },
                { "id": 1, "attribute": { "flags": 2 } }
            ],
            "children": []
        }]"#,
    )
    .expect("should decode");
    assert_eq!(nodes[0].class_name, "Text");
    assert_eq!(nodes[0].modifiers, vec!["<unknown modifier>".to_string()]);
}

#[test]
fn node_with_only_a_modifier_falls_back_to_a_synthetic_label_not_dropped() {
    let nodes = decode(
        r#"[{
            "properties": [
                { "id": 0, "attribute": { "flags": 2, "type": "SwiftUI._PaddingLayout", "readableType": "_PaddingLayout" } }
            ],
            "children": []
        }]"#,
    )
    .expect("should decode, not drop");
    assert!(nodes[0].class_name.contains("_PaddingLayout"));
    assert!(nodes[0].modifiers.is_empty());
}

#[test]
fn node_with_no_type_and_no_modifier_is_dropped_not_shown_blank() {
    assert!(decode(r#"[{ "properties": [], "children": [] }]"#).is_none());
}

#[test]
fn garbage_bytes_decode_to_none_not_a_panic() {
    assert!(decode_payload(b"not json and not a plist", false, &mut no_counts()).is_none());
}

#[test]
fn empty_bytes_decode_to_none() {
    assert!(decode_payload(b"", false, &mut no_counts()).is_none());
}

#[test]
fn decodes_a_real_captured_fragment_with_subattributes() {
    let nodes = decode(
        r#"[{
            "properties": [
                {
                    "id": 1,
                    "attribute": {
                        "readableType": "ModifiedContent<_ConditionalContent<_ViewList_View, TabItemGroup.HostView>, NavigationSearchAdjustmentModifier>",
                        "type": "SwiftUI.ModifiedContent<SwiftUI._ConditionalContent<SwiftUI._ViewList_View, SwiftUI.TabItemGroup.HostView>, SwiftUI.NavigationSearchAdjustmentModifier>",
                        "flags": 0
                    }
                },
                {
                    "id": 0,
                    "attribute": {
                        "readableType": "ModifiedContent<_ConditionalContent<_ViewList_View, TabItemGroup.HostView>, NavigationSearchAdjustmentModifier>",
                        "flags": 1,
                        "type": "SwiftUI.ModifiedContent<SwiftUI._ConditionalContent<SwiftUI._ViewList_View, SwiftUI.TabItemGroup.HostView>, SwiftUI.NavigationSearchAdjustmentModifier>"
                    }
                }
            ],
            "children": [
                {
                    "properties": [
                        {
                            "attribute": {
                                "type": "SwiftUI.NavigationSearchAdjustmentModifier",
                                "readableType": "NavigationSearchAdjustmentModifier",
                                "flags": 2
                            },
                            "id": 0
                        },
                        {
                            "attribute": {
                                "flags": 0,
                                "type": "SwiftUI.NavigationSearchAdjustmentModifier",
                                "readableType": "NavigationSearchAdjustmentModifier",
                                "subattributes": [
                                    {
                                        "name": "searchAdjustment",
                                        "readableType": "SearchAdjustment",
                                        "value": "disabled",
                                        "type": "SwiftUI.SearchAdjustment",
                                        "flags": 0
                                    }
                                ]
                            },
                            "id": 1
                        }
                    ],
                    "children": []
                }
            ]
        }]"#,
    )
    .expect("should decode");
    assert_eq!(nodes.len(), 1);
    assert_eq!(
        nodes[0].class_name,
        "_ConditionalContent<_ViewList_View, TabItemGroup.HostView>"
    );
    assert_eq!(nodes[0].modifiers, vec!["NavigationSearchAdjustmentModifier".to_string()]);
    assert_eq!(nodes[0].children.len(), 1);
    assert!(nodes[0].children[0].class_name.contains("NavigationSearchAdjustmentModifier"));
}

#[test]
fn unwraps_a_single_level_of_modified_content() {
    let (base, modifiers) = unwrap_modified_content(
        "ModifiedContent<VStack<TupleView<(Text, Text)>>, _PaddingLayout>",
    );
    assert_eq!(base, "VStack<TupleView<(Text, Text)>>");
    assert_eq!(modifiers, vec!["_PaddingLayout".to_string()]);
}

#[test]
fn unwraps_multiple_nested_levels_recursively() {
    let (base, modifiers) = unwrap_modified_content(
        "ModifiedContent<ModifiedContent<Text, _EnvironmentKeyWritingModifier<ContentTransition>>, _AnimationModifier<Int>>",
    );
    assert_eq!(base, "Text");
    assert_eq!(
        modifiers,
        vec![
            "_AnimationModifier<Int>".to_string(),
            "_EnvironmentKeyWritingModifier<ContentTransition>".to_string(),
        ]
    );
}

#[test]
fn non_modified_content_type_is_left_completely_alone() {
    let (base, modifiers) = unwrap_modified_content("VStack<TupleView<(Text, Text)>>");
    assert_eq!(base, "VStack<TupleView<(Text, Text)>>");
    assert!(modifiers.is_empty());
}

#[test]
fn tolerates_a_module_qualified_modified_content_name() {
    let (base, modifiers) =
        unwrap_modified_content("SwiftUI.ModifiedContent<SwiftUI.Text, SwiftUI._PaddingLayout>");
    assert_eq!(base, "SwiftUI.Text");
    assert_eq!(modifiers, vec!["SwiftUI._PaddingLayout".to_string()]);
}

#[test]
fn a_malformed_or_unrecognized_shape_is_never_force_unwrapped() {
    let (base, modifiers) = unwrap_modified_content("ModifiedContent<A, B, C>");
    assert_eq!(base, "ModifiedContent<A, B, C>");
    assert!(modifiers.is_empty());
}

#[test]
fn cap_display_length_only_truncates_when_over_the_limit() {
    assert_eq!(cap_display_length("short", 200), "short");
    let exactly_at_limit = "a".repeat(200);
    assert_eq!(cap_display_length(&exactly_at_limit, 200), exactly_at_limit);
    let over_limit = "a".repeat(250);
    let capped = cap_display_length(&over_limit, 200);
    assert_eq!(capped.chars().count(), 201);
    assert!(capped.ends_with('…'));
}

/// The type of a real node, as it was captured.
const REAL_WORST_CASE_READABLE_TYPE: &str = "ModifiedContent<ModifiedContent<NavigationStackStyledCore<ModifiedContent<ModifiedContent<ModifiedContent<ModifiedContent<ModifiedContent<VStack<TupleView<(ConnectionBadge, Spacer, Text, ModifiedContent<ModifiedContent<Text, _EnvironmentKeyWritingModifier<ContentTransition>>, _AnimationModifier<Int>>, ModifiedContent<ModifiedContent<Text, _EnvironmentKeyWritingModifier<Optional<Text.Case>>>, _EnvironmentKeyWritingModifier<CGFloat>>, HStack<TupleView<(CounterButton, CounterButton, CounterButton)>>, Spacer, Optional<ModifiedContent<ModifiedContent<ModifiedContent<ModifiedContent<ModifiedContent<HStack<TupleView<(Image, Text)>>, _EnvironmentKeyWritingModifier<Optional<Font>>>, _ForegroundStyleModifier<HierarchicalShapeStyle>>, _PaddingLayout>, _PaddingLayout>, _InsettableBackgroundShapeModifier<Material, Capsule>>>)>>, _PaddingLayout>, TransactionalPreferenceTransformModifier<NavigationTitleKey>>, _PreferenceTransformModifier<ToolbarKey>>, _TaskModifier>, NavigationStackRootDecoratingModifier>>, PositionedNavigationDestinationProcessor<NavigationStackReader<NavigationStackStyledCore<ModifiedContent<ModifiedContent<ModifiedContent<ModifiedContent<ModifiedContent<VStack<TupleView<(ConnectionBadge, Spacer, Text, ModifiedContent<ModifiedContent<Text, _EnvironmentKeyWritingModifier<ContentTransition>>, _AnimationModifier<Int>>, ModifiedContent<ModifiedContent<Text, _EnvironmentKeyWritingModifier<Optional<Text.Case>>>, _EnvironmentKeyWritingModifier<CGFloat>>, HStack<TupleView<(CounterButton, CounterButton, CounterButton)>>, Spacer, Optional<ModifiedContent<ModifiedContent<ModifiedContent<ModifiedContent<ModifiedContent<HStack<TupleView<(Image, Text)>>, _EnvironmentKeyWritingModifier<Optional<Font>>>, _ForegroundStyleModifier<HierarchicalShapeStyle>>, _PaddingLayout>, _PaddingLayout>, _InsettableBackgroundShapeModifier<Material, Capsule>>>)>>, _PaddingLayout>, TransactionalPreferenceTransformModifier<NavigationTitleKey>>, _PreferenceTransformModifier<ToolbarKey>>, _TaskModifier>, NavigationStackRootDecoratingModifier>>, ModifiedContent<ModifiedContent<ModifiedContent<ModifiedContent<VStack<TupleView<(ConnectionBadge, Spacer, Text, ModifiedContent<ModifiedContent<Text, _EnvironmentKeyWritingModifier<ContentTransition>>, _AnimationModifier<Int>>, ModifiedContent<ModifiedContent<Text, _EnvironmentKeyWritingModifier<Optional<Text.Case>>>, _EnvironmentKeyWritingModifier<CGFloat>>, HStack<TupleView<(CounterButton, CounterButton, CounterButton)>>, Spacer, Optional<ModifiedContent<ModifiedContent<ModifiedContent<ModifiedContent<ModifiedContent<HStack<TupleView<(Image, Text)>>, _EnvironmentKeyWritingModifier<Optional<Font>>>, _ForegroundStyleModifier<HierarchicalShapeStyle>>, _PaddingLayout>, _PaddingLayout>, _InsettableBackgroundShapeModifier<Material, Capsule>>>)>>, _PaddingLayout>, TransactionalPreferenceTransformModifier<NavigationTitleKey>>, _PreferenceTransformModifier<ToolbarKey>>, _TaskModifier>>.AppliedBody>>, _PreferenceTransformModifier<InspectorStorageV5.PreferenceKey>>";

#[test]
fn real_3018_char_worst_case_node_unwraps_and_caps_to_a_short_tag_name() {
    assert_eq!(REAL_WORST_CASE_READABLE_TYPE.chars().count(), 3018);
    let (base, modifiers) = unwrap_modified_content(REAL_WORST_CASE_READABLE_TYPE);
    assert_eq!(modifiers.len(), 2);
    assert!(base.starts_with("NavigationStackStyledCore<"));
    assert!(base.chars().count() > MAX_CLASS_NAME_CHARS);

    let capped = cap_display_length(&base, MAX_CLASS_NAME_CHARS);
    assert_eq!(capped.chars().count(), MAX_CLASS_NAME_CHARS + 1);
    assert!(capped.ends_with('…'));

    let attribute = Json::empty()
        .with("flags", Json::unsigned(1))
        .with("readableType", Json::text(REAL_WORST_CASE_READABLE_TYPE));
    let property = Json::empty().with("id", Json::unsigned(0)).with("attribute", attribute);
    let payload = Json::array(vec![Json::empty()
        .with("properties", Json::array(vec![property]))
        .with("children", Json::array(vec![]))]);
    let nodes = decode_json_nodes(&payload, false, &mut no_counts()).expect("should decode");
    assert!(nodes[0].class_name.chars().count() <= MAX_CLASS_NAME_CHARS + 1);
    assert!(nodes[0].class_name.starts_with("NavigationStackStyledCore<"));
    assert!(nodes[0].class_name.ends_with('…'));
    assert_eq!(nodes[0].modifiers.len(), 2);
}

#[test]
fn flattens_a_scalar_subattribute_into_a_row() {
    let rows = flatten(
        r#"[
            {
                "attribute": {
                    "type": "SwiftUI.NavigationSearchAdjustmentModifier",
                    "readableType": "NavigationSearchAdjustmentModifier",
                    "flags": 0,
                    "subattributes": [
                        {
                            "name": "searchAdjustment",
                            "readableType": "SearchAdjustment",
                            "value": "disabled",
                            "type": "SwiftUI.SearchAdjustment",
                            "flags": 0
                        }
                    ]
                }
            }
        ]"#,
        8,
        50,
    );
    assert_eq!(rows, vec![row("searchAdjustment", "disabled")]);
}

#[test]
fn leaf_attribute_with_no_value_falls_back_to_its_own_type_as_the_value() {
    let rows = flatten(
        r#"[
            {
                "attribute": {
                    "type": "SwiftUI._PaddingLayout",
                    "readableType": "_PaddingLayout",
                    "flags": 2
                }
            }
        ]"#,
        8,
        50,
    );
    assert_eq!(rows, vec![row("_PaddingLayout", "_PaddingLayout")]);
}

#[test]
fn flattened_row_title_and_value_are_capped_like_class_name_is() {
    let huge_type = format!("VStack<{}>", "Text, ".repeat(60));
    assert!(huge_type.chars().count() > FLATTEN_ROW_TEXT_CHAR_LIMIT);
    let attribute = Json::empty()
        .with("type", Json::text(&huge_type))
        .with("readableType", Json::text(&huge_type))
        .with("flags", Json::unsigned(1));
    let properties = vec![Json::empty().with("attribute", attribute)];
    let rows = flatten_node_properties(&properties, 8, 50);
    assert_eq!(rows.len(), 1);
    assert!(rows[0].0.chars().count() <= FLATTEN_ROW_TEXT_CHAR_LIMIT + 1);
    assert!(rows[0].1.chars().count() <= FLATTEN_ROW_TEXT_CHAR_LIMIT + 1);
    assert!(rows[0].0.ends_with('…'));
    assert!(rows[0].1.ends_with('…'));
}

#[test]
fn row_cap_truncates_and_reports_a_note() {
    let properties: Vec<Json> = (0..5)
        .map(|i| {
            Json::empty().with(
                "attribute",
                Json::empty()
                    .with("type", Json::text(&format!("SwiftUI.Thing{i}")))
                    .with("readableType", Json::text(&format!("Thing{i}")))
                    .with("flags", Json::unsigned(2)),
            )
        })
        .collect();
    let rows = flatten_node_properties(&properties, 8, 2);
    assert_eq!(rows.len(), 3);
    assert_eq!(rows[0], row("Thing0", "Thing0"));
    assert_eq!(rows[1], row("Thing1", "Thing1"));
    assert_eq!(rows[2].0, "…");
    assert!(rows[2].1.contains("more (truncated)"));
    assert_eq!(rows[2].1, "3 more (truncated)");
}

fn nested(depth: usize) -> Json {
    if depth == 0 {
        json(
            r#"{
                "name": "leaf",
                "type": "SwiftUI.Leaf",
                "readableType": "Leaf",
                "flags": 0,
                "value": "bottom"
            }"#,
        )
    } else {
        Json::empty()
            .with("name", Json::text(&format!("level{depth}")))
            .with("type", Json::text("SwiftUI.Level"))
            .with("readableType", Json::text("Level"))
            .with("flags", Json::unsigned(0))
            .with("subattributes", Json::array(vec![nested(depth - 1)]))
    }
}

#[test]
fn depth_limit_truncates_deeply_nested_subattributes_and_reports_a_note() {
    let properties = vec![Json::empty().with("attribute", nested(5))];
    let rows = flatten_node_properties(&properties, 2, 50);
    assert!(rows.iter().any(|(title, _)| title == "…"));
}

#[test]
fn no_truncation_note_when_nothing_was_cut_off() {
    let rows = flatten(
        r#"[{ "attribute": { "type": "SwiftUI.Text", "readableType": "Text", "flags": 1 } }]"#,
        8,
        50,
    );
    assert!(!rows.iter().any(|(title, _)| title == "…"));
}

#[test]
fn transparent_wrapper_with_one_child_and_no_modifiers_is_elide_hoist() {
    let wrapper = node(
        "_VariadicView.Tree<_VStackLayout, _VariadicView_Children>",
        vec![],
        vec![leaf_node("Text")],
    );
    assert_eq!(classify(&wrapper), FilterDecision::ElideHoist);
}

#[test]
fn transparent_wrapper_with_two_children_is_kept_not_hoisted() {
    let wrapper = node(
        "_VariadicView.Tree<_VStackLayout, _VariadicView_Children>",
        vec![],
        vec![leaf_node("Text"), leaf_node("Image")],
    );
    assert_eq!(classify(&wrapper), FilterDecision::Keep);
}

#[test]
fn transparent_wrapper_carrying_its_own_modifier_is_kept_not_hoisted() {
    let wrapper = node("AnyView", vec!["_PaddingLayout"], vec![leaf_node("Text")]);
    assert_eq!(classify(&wrapper), FilterDecision::Keep);
}

#[test]
fn real_layout_container_is_never_a_hoist_candidate_even_with_one_child() {
    for name in ["VStack<Text>", "HStack<Text>", "ZStack<Text>", "List<Text>", "ScrollView<Text>"]
    {
        let container = node(name, vec![], vec![leaf_node("Text")]);
        assert_eq!(classify(&container), FilterDecision::Keep, "{name} must never be hoisted");
    }
}

#[test]
fn known_leaf_primitive_with_children_elides_its_subviews() {
    for name in ["Color", "Spacer", "Divider", "EmptyView"] {
        let primitive = node(name, vec![], vec![leaf_node("_InternalPlumbing")]);
        assert_eq!(
            classify(&primitive),
            FilterDecision::ElideSubviews,
            "{name} should elide its internal-plumbing children"
        );
    }
}

#[test]
fn leaf_primitive_name_match_is_exact_not_substring() {
    let picker = node("ColorPicker<Label>", vec![], vec![leaf_node("_Internal")]);
    assert_eq!(classify(&picker), FilterDecision::Keep);
}

#[test]
fn leaf_primitive_with_no_children_has_nothing_to_elide() {
    assert_eq!(classify(&leaf_node("Color")), FilterDecision::Keep);
}

#[test]
fn apply_view_filter_splices_hoisted_children_into_the_parent_list() {
    let grandchild = leaf_node("Image");
    let wrapper_child = node("Text", vec![], vec![grandchild]);
    let wrapper = node(
        "_VariadicView.Tree<_VStackLayout, _VariadicView_Children>",
        vec![],
        vec![wrapper_child],
    );
    let sibling = leaf_node("Button");
    let filtered = apply_view_filter(vec![wrapper, sibling]);
    let names: Vec<&str> = filtered.iter().map(|n| n.class_name.as_str()).collect();
    assert_eq!(names, vec!["Text", "Button"]);
    assert_eq!(filtered[0].children.len(), 1);
    assert_eq!(filtered[0].children[0].class_name, "Image");
}

#[test]
fn apply_view_filter_clears_children_for_elide_subviews_but_keeps_the_node() {
    let primitive = node("Spacer", vec![], vec![leaf_node("_InternalPlumbing")]);
    let filtered = apply_view_filter(vec![primitive]);
    assert_eq!(filtered.len(), 1);
    assert_eq!(filtered[0].class_name, "Spacer");
    assert!(filtered[0].children.is_empty());
}

#[test]
fn apply_view_filter_disabled_is_a_full_bypass() {
    let wrapper = node(
        "_VariadicView.Tree<_VStackLayout, _VariadicView_Children>",
        vec![],
        vec![leaf_node("Text")],
    );
    let filtered = apply_view_filter_with(vec![wrapper], true, &mut no_counts());
    assert_eq!(filtered.len(), 1);
    assert!(filtered[0].class_name.starts_with("_VariadicView.Tree"));
}

#[test]
fn real_captured_fragment_is_unaffected_by_the_node_filter() {
    let nodes = decode(
        r#"[{
            "properties": [
                { "id": 0, "attribute": { "flags": 1, "readableType": "_ConditionalContent<_ViewList_View, TabItemGroup.HostView>" } }
            ],
            "children": [
                {
                    "properties": [
                        { "attribute": { "type": "SwiftUI.NavigationSearchAdjustmentModifier", "readableType": "NavigationSearchAdjustmentModifier", "flags": 2 } }
                    ],
                    "children": []
                }
            ]
        }]"#,
    )
    .expect("should decode");
    assert_eq!(nodes.len(), 1);
    assert_eq!(nodes[0].children.len(), 1);
}

#[test]
fn counters_tell_what_the_filter_did() {
    let mut counters = no_counts();
    let hoisted = node("AnyView", vec![], vec![leaf_node("Text")]);
    let elided = node("Spacer", vec![], vec![leaf_node("_Internal")]);
    let kept = leaf_node("Button");
    apply_view_filter_with(vec![hoisted, elided, kept], false, &mut counters);
    assert_eq!(counters.hoisted, 1);
    assert_eq!(counters.elided_subviews, 1);
    assert_eq!(counters.kept, 1);
    count_decoded_node(&mut counters);
    assert_eq!(counters.decoded, 1);
    assert_eq!(log_filter_summary(&counters).map(|c| c.decoded), Some(1));
    reset_filter_counters(&mut counters);
    assert!(log_filter_summary(&counters).is_none());
}

#[test]
fn decoding_counts_every_node() {
    let mut counters = no_counts();
    let value = json(
        r#"[{"properties": [{"attribute": {"flags": 1, "readableType": "VStack<Text>"}}],
             "children": [{"properties": [{"attribute": {"flags": 1, "readableType": "Text"}}],
                           "children": []}]}]"#,
    );
    let nodes = decode_json_nodes(&value, false, &mut counters).unwrap();
    assert_eq!(nodes.len(), 1);
    assert_eq!(counters.decoded, 2);
}

#[test]
fn a_payload_is_read_however_deep_it_nests() {
    let mut text = r#"{"properties": [{"attribute": {"flags": 1, "readableType": "Text"}}], "children": []}"#.to_string();
    for _ in 0..300 {
        text = format!(
            r#"{{"properties": [{{"attribute": {{"flags": 1, "readableType": "VStack<Text>"}}}}], "children": [{text}]}}"#
        );
    }
    let payload = format!("[{text}]");
    assert!(parse_json(&payload).is_none());
    let mut nodes = decode_payload(payload.as_bytes(), true, &mut no_counts()).unwrap();
    let mut levels = 0;
    while let Some(inner) = nodes.pop() {
        levels += 1;
        nodes = inner.children;
    }
    assert_eq!(levels, 301);
}

#[test]
fn without_a_payload_there_are_no_views() {
    assert!(dump_hosting_view(&None, false, &mut no_counts()).is_empty());
    let payload = br#"[{"properties": [{"attribute": {"flags": 1, "readableType": "Text"}}]}]"#;
    let views = dump_hosting_view(&Some(payload.to_vec()), false, &mut no_counts());
    assert_eq!(views.len(), 1);
    assert_eq!(views[0].class_name, "Text");
}

#[test]
fn only_hosting_views_of_a_verified_system_are_captured() {
    assert!(matches!(hosting_gate(true, "_UIHostingView", 26), HostingGate::Capture));
    assert!(matches!(hosting_gate(true, "_UIHostingView", 25), HostingGate::Unsupported));
    assert!(matches!(hosting_gate(true, "UILabel", 26), HostingGate::Pass));
    assert!(matches!(hosting_gate(false, "_UIHostingView", 26), HostingGate::Pass));
}

#[test]
fn an_unsupported_system_is_warned_of_once() {
    let mut warned = false;
    let warning = warn_unsupported_os_once(&mut warned, 25, 1, 2).expect("first warning");
    assert!(warning.contains("25.1.2"), "warning: {warning}");
    assert!(warned);
    assert!(warn_unsupported_os_once(&mut warned, 25, 1, 2).is_none());
}

#[test]
fn a_payload_file_name_holds_no_odd_characters() {
    let name = payload_file_name("_TtGC7SwiftUI14_UIHostingView<A/B>");
    assert!(name.chars().all(|c| c.is_alphanumeric() || c == '_' || c == '.' || c == '-'), "{name}");
}

#[test]
fn attributes_are_shown_as_text() {
    assert_eq!(stringify_attribute_value(&json("\"plain\"")), "plain");
    assert_eq!(stringify_attribute_value(&json("[1,2]")), "[1,2]");
    assert_eq!(
        attribute_text(&json(r#"{"readableType": "Text", "type": "SwiftUI.Text"}"#)),
        Some("Text".to_string())
    );
    assert_eq!(attribute_text(&json(r#"{"flags": 2}"#)), None);
}

#[test]
fn generic_types_are_taken_apart_at_their_own_level() {
    assert_eq!(matching_close_angle_bracket("A<B<C>, D>", 1), Some(9));
    assert_eq!(matching_close_angle_bracket("A<B", 1), None);
    assert_eq!(matching_close_angle_bracket("A<B)", 1), None);
    assert_eq!(matching_close_angle_bracket("A<(B>)", 1), None);
    assert_eq!(matching_close_angle_bracket("A<(B, [C])>", 1), Some(10));
    assert_eq!(matching_close_angle_bracket("<\u{e9}>", 0), Some(3));
    assert_eq!(matching_close_angle_bracket("\u{e9}<A>", 2), Some(4));
    assert_eq!(parse_outer_generic("A<B)"), None);
    assert_eq!(
        unwrap_modified_content("ModifiedContent<A, B)"),
        ("ModifiedContent<A, B)".to_string(), Vec::new())
    );
    assert_eq!(split_top_level_commas("A<B, C>, (D, E), F"), vec!["A<B, C>", "(D, E)", "F"]);
    assert_eq!(
        parse_outer_generic("A<B, C<D>>"),
        Some(("A".to_string(), vec!["B".to_string(), "C<D>".to_string()]))
    );
    assert_eq!(parse_outer_generic("A"), None);
    assert!(is_modified_content("SwiftUI.ModifiedContent"));
    assert!(!is_modified_content("UnmodifiedContent"));
}

#[test]
fn a_smaller_row_cap_cuts_the_tail() {
    let properties = json(
        r#"[{"attribute": {"type": "A", "value": 1}},
            {"attribute": {"type": "B", "subattributes": [
                {"name": "x", "value": 2}, {"name": "y", "value": 3}]}}]"#,
    );
    let properties = properties.as_array().unwrap();
    let all = flatten_node_properties(properties, usize::MAX, 50);
    assert_eq!(all.len(), 3);
    let cut = flatten_node_properties(properties, usize::MAX, 2);
    assert_eq!(cut[..2], all[..2]);
    assert_eq!(cut[2], ("…".to_string(), "1 more (truncated)".to_string()));
}

#[test]
fn no_plumbing_is_left_below_a_view() {
    let payload = json(
        r#"{"properties": [{"attribute": {"flags": 1, "readableType": "VStack<Text>"}}],
            "children": [{"properties": [{"attribute": {"flags": 1, "readableType": "AnyView"}}],
              "children": [{"properties": [{"attribute": {"flags": 1, "readableType": "AnyView"}}],
                "children": [{"properties": [
                    {"attribute": {"flags": 1, "readableType": "Text"}}]}]}]}]}"#,
    );
    let view = decode_json_node(&payload, false, &mut no_counts()).unwrap();
    assert_eq!(view.children.len(), 1);
    assert_eq!(view.children[0].class_name, "Text");
}

#[test]
fn printing_a_payload_and_reading_it_gives_it_back() {
    let value = json(r#"{"b": [1, -2, null], "a": {"x": "\u00e9"}}"#);
    assert_eq!(parse_json(&to_text(&value)), Some(value));
}

fn live(class_name: Option<&str>, subviews: Vec<LiveView>, payload: Option<&str>) -> LiveView {
    LiveView {
        class_name: class_name.map(str::to_string),
        frame: Frame::of_whole(0, 0, 10, 10),
        is_hidden: false,
        alpha: Opacity::opaque(),
        tag: 3,
        accessibility_id: Some("id".to_string()),
        subviews,
        payload: payload.map(|text| text.as_bytes().to_vec()),
    }
}

#[test]
fn a_snapshot_holds_the_hosted_views_after_the_subviews() {
    let payload = r#"[{"properties": [{"attribute": {"flags": 1, "readableType": "Text"}}]}]"#;
    let hosting = live(Some("_UIHostingView"), vec![live(Some("UILabel"), vec![], None)], Some(payload));
    let node = walk_view(&hosting, false, &mut no_counts());
    let names: Vec<&str> = node.children.iter().map(|n| n.class_name.as_str()).collect();
    assert_eq!(names, vec!["UILabel", "Text"]);
    assert_eq!(node.tag, 3);
    assert_eq!(node.accessibility_id, Some("id".to_string()));
}

#[test]
fn a_plain_view_gains_no_children() {
    let payload = r#"[{"properties": [{"attribute": {"flags": 1, "readableType": "Text"}}]}]"#;
    let plain = live(Some("UIView"), vec![], Some(payload));
    assert!(walk_view(&plain, false, &mut no_counts()).children.is_empty());
    let unread = live(Some("_UIHostingView"), vec![], Some("garbage"));
    assert!(walk_view(&unread, false, &mut no_counts()).children.is_empty());
    let unnamed = live(None, vec![], None);
    assert_eq!(walk_view(&unnamed, false, &mut no_counts()).class_name, "<unknown>");
}

#[test]
fn the_first_key_window_is_the_one() {
    assert_eq!(key_window(&vec![false, true, true]), Some(1));
    assert_eq!(key_window(&vec![false]), None);
}
