use flow_farm::bounds::Bounds;
use flow_farm::client::AdbClient;
use flow_farm::element::UIElement;
use flow_farm::inspect::{count_elements, flatten, ElementStats};
use flow_farm::search::{collect, first_hit, Query};

fn leaf(text: Option<&str>, desc: Option<&str>, id: Option<&str>) -> UIElement {
    UIElement {
        tag: "node".to_string(),
        class: None,
        text: text.map(|s| s.to_string()),
        content_desc: desc.map(|s| s.to_string()),
        resource_id: id.map(|s| s.to_string()),
        package: None,
        bounds: None,
        clickable: false,
        enabled: true,
        focused: false,
        selected: false,
        children: Vec::new(),
    }
}

fn with(mut e: UIElement, children: Vec<UIElement>) -> UIElement {
    e.children = children;
    e
}

fn ids(found: &[&UIElement]) -> Vec<String> {
    found.iter().map(|e| e.resource_id.clone().unwrap_or_default()).collect()
}

fn owned_ids(found: &[UIElement]) -> Vec<String> {
    found.iter().map(|e| e.resource_id.clone().unwrap_or_default()).collect()
}

fn client() -> AdbClient {
    AdbClient::new(None)
}

/// root ── A (match, depth 1)
///      └─ S ── T ── B (match, depth 3)
///      └─ C (match in description only)
fn sample() -> UIElement {
    with(
        leaf(Some("root"), None, Some("root")),
        vec![
            leaf(Some("保存 A"), None, Some("A")),
            with(
                leaf(Some("sibling"), Some(""), Some("S")),
                vec![with(leaf(None, None, Some("T")), vec![leaf(Some("x 保存"), Some("保存"), Some("B"))])],
            ),
            leaf(Some("Save"), Some("点击保存"), Some("C")),
        ],
    )
}

#[test]
fn text_search_reports_matches_in_document_order() {
    let root = sample();
    let found = client().find_elements_by_text(&root, "保存");
    assert_eq!(ids(&found), vec!["A", "B", "C"]);
}

#[test]
fn a_match_at_depth_one_comes_before_a_match_at_depth_three() {
    let root = with(
        leaf(None, None, Some("root")),
        vec![
            leaf(Some("target"), None, Some("A")),
            with(leaf(None, None, Some("S")), vec![with(leaf(None, None, Some("T")), vec![leaf(Some("target"), None, Some("B"))])]),
        ],
    );
    let found = client().find_elements_by_text(&root, "target");
    assert_eq!(ids(&found), vec!["A", "B"]);
}

#[test]
fn a_parent_comes_before_its_children() {
    let root = with(leaf(Some("hit"), None, Some("P")), vec![leaf(Some("hit"), None, Some("K1")), leaf(Some("hit"), None, Some("K2"))]);
    assert_eq!(ids(&client().find_elements_by_text(&root, "hit")), vec!["P", "K1", "K2"]);
}

#[test]
fn an_element_that_matches_twice_is_reported_once() {
    let root = leaf(Some("保存"), Some("保存"), Some("only"));
    assert_eq!(ids(&client().find_elements_by_text(&root, "保存")), vec!["only"]);
}

#[test]
fn text_search_keeps_upper_and_lower_case_apart() {
    let root = sample();
    assert_eq!(ids(&client().find_elements_by_text(&root, "save")), Vec::<String>::new());
    assert_eq!(ids(&client().find_elements_by_text(&root, "Save")), vec!["C"]);
}

#[test]
fn the_empty_text_matches_every_element_that_has_text_or_description() {
    let root = sample();
    assert_eq!(ids(&client().find_elements_by_text(&root, "")), vec!["root", "A", "S", "B", "C"]);
}

#[test]
fn search_by_text_appends_to_what_is_there() {
    let root = sample();
    let other = leaf(None, None, Some("before"));
    let mut found = vec![&other];
    client().search_by_text(&root, "保存", &mut found);
    assert_eq!(ids(&found), vec!["before", "A", "B", "C"]);
}

#[test]
fn resource_id_must_match_exactly() {
    let root = with(
        leaf(None, None, Some("com.app:id/root")),
        vec![
            leaf(Some("large"), None, Some("com.app:id/save_btn_large")),
            leaf(Some("exact"), None, Some("com.app:id/save_btn")),
            leaf(Some("again"), None, Some("com.app:id/save_btn")),
        ],
    );
    let found = client().find_element_by_resource_id(&root, "com.app:id/save_btn").unwrap();
    assert_eq!(found.text.as_deref(), Some("exact"));
    let only_large = with(leaf(None, None, None), vec![leaf(Some("large"), None, Some("com.app:id/save_btn_large"))]);
    assert!(client().find_element_by_resource_id(&only_large, "com.app:id/save_btn").is_none());
    assert!(client().find_element_by_resource_id(&only_large, "com.app:id/save_btn_larg").is_none());
    assert!(client().find_element_by_resource_id(&only_large, "save_btn_large").is_none());
    assert!(client().find_element_by_resource_id(&only_large, "").is_none());
    assert!(client().find_element_by_resource_id(&only_large, "com.app:id/save_btn_large").is_some());
}

#[test]
fn resource_id_search_takes_the_first_in_document_order() {
    let root = with(
        leaf(None, None, Some("r")),
        vec![
            with(leaf(Some("s"), None, Some("s")), vec![leaf(Some("deep"), None, Some("x"))]),
            leaf(Some("shallow"), None, Some("x")),
        ],
    );
    assert_eq!(client().find_element_by_resource_id(&root, "x").unwrap().text.as_deref(), Some("deep"));
    assert_eq!(client().find_element_by_resource_id(&root, "r").unwrap().resource_id.as_deref(), Some("r"));
}

#[test]
fn description_search_looks_at_descriptions_only() {
    let root = sample();
    let mut found = Vec::new();
    client().search_by_content_desc_single(&root, "保存", &mut found);
    assert_eq!(owned_ids(&found), vec!["B", "C"]);
    let mut again = vec![leaf(None, None, Some("kept"))];
    client().search_by_content_desc_recursive(&root.children, "保存", &mut again);
    assert_eq!(owned_ids(&again), vec!["kept", "B", "C"]);
    let mut none = Vec::new();
    client().search_by_content_desc_recursive(&[], "保存", &mut none);
    assert!(none.is_empty());
}

#[test]
fn folded_search_ignores_case() {
    let root = with(
        leaf(Some("SAVE contact"), None, Some("1")),
        vec![leaf(None, Some("Please Save"), Some("2")), leaf(Some("sav"), None, Some("3")), leaf(Some("ÄRGER"), None, Some("4"))],
    );
    let mut found = Vec::new();
    client().search_elements_text_recursive(&root, "save", &mut found);
    assert_eq!(owned_ids(&found), vec!["1", "2"]);
    let mut upper = Vec::new();
    client().search_elements_text_recursive(&root, "SaVe", &mut upper);
    assert_eq!(owned_ids(&upper), vec!["1", "2"]);
    let mut umlaut = Vec::new();
    client().search_elements_text_recursive(&root, "ärger", &mut umlaut);
    assert_eq!(owned_ids(&umlaut), vec!["4"]);
}

#[test]
fn copies_hold_what_the_elements_hold() {
    let mut root = sample();
    root.children[2].bounds = Some(Bounds { left: 1, top: 2, right: 3, bottom: 4 });
    root.children[2].clickable = true;
    let mut found = Vec::new();
    client().search_by_content_desc_single(&root, "点击", &mut found);
    assert_eq!(found.len(), 1);
    assert_eq!(found[0].bounds, Some(Bounds { left: 1, top: 2, right: 3, bottom: 4 }));
    assert!(found[0].clickable);
    assert_eq!(found[0].text.as_deref(), Some("Save"));
    let copy = root.clone();
    assert_eq!(copy.children.len(), 3);
    assert_eq!(copy.children[1].children[0].children[0].resource_id.as_deref(), Some("B"));
}

#[test]
fn the_first_element_with_a_text_is_copied() {
    let root = sample();
    let found = client().find_text_element(&root, "保存").unwrap();
    assert_eq!(found.resource_id.as_deref(), Some("A"));
    assert_eq!(found.text.as_deref(), Some("保存 A"));
    assert!(client().find_text_element(&root, "absent").is_none());
    let whole = client().find_text_element(&root, "root").unwrap();
    assert_eq!(whole.children.len(), 3);
}

#[test]
fn queries_can_be_used_directly() {
    let root = sample();
    let mut found = Vec::new();
    collect(&root, &Query::description("保存"), &mut found);
    assert_eq!(ids(&found), vec!["B", "C"]);
    assert_eq!(first_hit(&root, &Query::text("保存")).unwrap().resource_id.as_deref(), Some("A"));
    assert!(first_hit(&root, &Query::resource_id("nope")).is_none());
    assert!(Query::folded("SAVE").matches(&root.children[2]));
    assert!(!Query::text("SAVE").matches(&root.children[2]));
}

#[test]
fn counts_the_elements_of_a_tree() {
    let mut root = sample();
    root.children[0].clickable = true;
    root.children[1].text = Some("   ".to_string());
    root.children[1].children[0].resource_id = None;
    assert_eq!(count_elements(&root), ElementStats { total: 6, clickable: 1, with_text: 4, with_id: 5 });
    assert_eq!(count_elements(&leaf(None, None, None)), ElementStats { total: 1, clickable: 0, with_text: 0, with_id: 0 });
    let mut all = Vec::new();
    flatten(&root, &mut all);
    assert_eq!(all.len(), 6);
    assert_eq!(all[3].children.len(), 1);
}

#[test]
fn outlines_a_tree() {
    let mut root = with(leaf(Some("title"), Some(" "), Some("com.app:id/t")), vec![leaf(Some(""), Some("desc"), None)]);
    root.class = Some("android.widget.TextView".to_string());
    root.bounds = Some(Bounds { left: 0, top: 1, right: 20, bottom: 30 });
    root.clickable = true;
    let lines = client().hierarchy_lines(&root, 1);
    assert_eq!(
        lines,
        vec![
            "  [node]",
            "    class: android.widget.TextView",
            "    text: \"title\"",
            "    resource-id: com.app:id/t",
            "    bounds: [0,1][20,30]",
            "    clickable: true",
            "    [node]",
            "      content-desc: \"desc\"",
        ]
    );
    assert_eq!(client().hierarchy_lines(&leaf(None, None, None), 0), vec!["[node]"]);
}
