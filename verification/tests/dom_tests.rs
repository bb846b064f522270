use obscura_js::dom::{document_element, element_children, live_element, tag_name_reply};
use obscura_js::dom::{
    compare_node_order_checked, links_end,
    attribute_pair, bool_reply, compare_node_order, dom_op, id_selector, ids_reply, node_ancestors_root_first,
    node_arg, node_child_index, node_name_reply, node_reply, node_root, node_type_reply, opt_text_reply,
    strict_node_arg, DomOp, NodeKind, NodeLinks,
};

// A small tree:        0
//                    /   \
//                   1     2
//                  / \
//                 3   4          5 (a second root)
fn tree() -> NodeLinks {
    NodeLinks {
        parent: vec![None, Some(0), Some(0), Some(1), Some(1), None],
        prev_sibling: vec![None, None, Some(1), None, Some(3), None],
    }
}

#[test]
fn child_index_and_lineage() {
    let t = tree();
    assert_eq!(node_child_index(&t, 0), 0);
    assert_eq!(node_child_index(&t, 2), 1);
    assert_eq!(node_child_index(&t, 4), 1);
    assert_eq!(node_child_index(&t, 99), 0);
    assert_eq!(node_ancestors_root_first(&t, 4), vec![0, 1, 4]);
    assert_eq!(node_ancestors_root_first(&t, 0), vec![0]);
    assert_eq!(node_root(&t, 3), 0);
    assert_eq!(node_root(&t, 5), 5);
}

#[test]
fn document_order() {
    let t = tree();
    assert_eq!(compare_node_order(&t, 3, 3), 0);
    assert_eq!(compare_node_order(&t, 0, 4), -1);
    assert_eq!(compare_node_order(&t, 4, 0), 1);
    assert_eq!(compare_node_order(&t, 3, 4), -1);
    assert_eq!(compare_node_order(&t, 4, 2), -1);
    assert_eq!(compare_node_order(&t, 2, 3), 1);
    // Different trees: by index.
    assert_eq!(compare_node_order(&t, 5, 3), 1);
    assert_eq!(compare_node_order(&t, 3, 5), -1);
}

#[test]
fn command_names() {
    assert_eq!(dom_op("query_selector"), DomOp::QuerySelector);
    assert_eq!(dom_op("compare_order"), DomOp::CompareOrder);
    assert_eq!(dom_op("node_root"), DomOp::NodeRoot);
    assert_eq!(dom_op("document_node_id"), DomOp::DocumentNodeId);
    assert_eq!(dom_op("whatever"), DomOp::Unknown);
}

#[test]
fn arguments() {
    assert_eq!(node_arg("12"), 12);
    assert_eq!(node_arg("x"), 0);
    assert_eq!(node_arg("4294967296"), 0);
    assert_eq!(strict_node_arg("7"), Some(7));
    assert_eq!(strict_node_arg(""), None);
    assert_eq!(attribute_pair("class\0big red"), Some(("class".to_string(), "big red".to_string())));
    assert_eq!(attribute_pair("a\0b\0c"), Some(("a".to_string(), "b\0c".to_string())));
    assert_eq!(attribute_pair("no-separator"), None);
    assert_eq!(id_selector("a\"b\\c"), "[id=\"a\\\"b\\\\c\"]");
}

#[test]
fn replies() {
    assert_eq!(node_reply(Some(3)), "3");
    assert_eq!(node_reply(None), "-1");
    assert_eq!(ids_reply(&vec![1, 20, 3]), "[1,20,3]");
    assert_eq!(ids_reply(&vec![]), "[]");
    assert_eq!(opt_text_reply(Some("v")), "\"v\"");
    assert_eq!(opt_text_reply(None), "null");
    assert_eq!(bool_reply(true), "true");
    assert_eq!(node_type_reply(Some(NodeKind::Element)), "1");
    assert_eq!(node_type_reply(Some(NodeKind::Doctype)), "10");
    assert_eq!(node_type_reply(None), "0");
    assert_eq!(node_name_reply(Some((NodeKind::Element, "div"))), "\"DIV\"");
    assert_eq!(node_name_reply(Some((NodeKind::Text, "ignored"))), "\"#text\"");
    assert_eq!(node_name_reply(Some((NodeKind::Doctype, "html"))), "\"html\"");
    assert_eq!(node_name_reply(None), "\"\"");
}

#[test]
fn looping_links_are_refused() {
    let t = tree();
    assert!(links_end(&t));
    assert_eq!(compare_node_order_checked(&t, 3, 4), Some(-1));
    let looped = NodeLinks { parent: vec![Some(1), Some(0)], prev_sibling: vec![None, None] };
    assert!(!links_end(&looped));
    assert_eq!(compare_node_order_checked(&looped, 0, 1), None);
    let sibling_loop = NodeLinks { parent: vec![None, None], prev_sibling: vec![Some(0), Some(1)] };
    assert!(!links_end(&sibling_loop));
}

#[test]
fn siblings_follow_their_positions() {
    let t = tree();
    assert_eq!(compare_node_order(&t, 1, 2), -1);
    assert_eq!(compare_node_order(&t, 2, 1), 1);
    assert_eq!(compare_node_order(&t, 3, 4), -1);
    assert_eq!(compare_node_order(&t, 4, 3), 1);
    // Different roots are ordered by index.
    assert_eq!(compare_node_order(&t, 5, 4), 1);
    assert_eq!(compare_node_order(&t, 4, 5), -1);
}

#[test]
fn element_helpers() {
    assert_eq!(tag_name_reply(Some((NodeKind::Element, "div"))), "\"DIV\"");
    assert_eq!(tag_name_reply(Some((NodeKind::Text, "div"))), "\"\"");
    assert_eq!(tag_name_reply(None), "\"\"");
    let kids = vec![
        (1, Some(NodeKind::Doctype), "html".to_string()),
        (2, Some(NodeKind::Element), "head".to_string()),
        (3, Some(NodeKind::Element), "html".to_string()),
    ];
    assert_eq!(document_element(&kids), Some(3));
    assert_eq!(document_element(&vec![]), None);
    let mixed = vec![(4, Some(NodeKind::Text)), (5, Some(NodeKind::Element)), (6, None), (7, Some(NodeKind::Element))];
    assert_eq!(element_children(&mixed), vec![5, 7]);
    let t = tree();
    assert_eq!(live_element(&t, Some(4), 0), Some(4));
    assert_eq!(live_element(&t, Some(5), 0), None);
    assert_eq!(live_element(&t, None, 0), None);
}
