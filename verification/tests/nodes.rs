use rdfio_hdt::node::{string_to_blank_node, string_to_iri};
use std::cmp::Ordering;

#[test]
fn blank_node_equality_needs_same_graph() {
    let a = string_to_blank_node(String::from("_:b1"), 1);
    let b = string_to_blank_node(String::from("_:b1"), 1);
    let c = string_to_blank_node(String::from("_:b1"), 2);
    let d = string_to_blank_node(String::from("_:b2"), 1);
    assert!(a == b);
    assert!(a != c);
    assert!(a != d);
    assert_eq!(a.as_str(), "_:b1");
    assert_eq!(c.graph_id(), 2);
}

#[test]
fn blank_nodes_order_by_label_then_graph() {
    let a1 = string_to_blank_node(String::from("_:a"), 1);
    let a2 = string_to_blank_node(String::from("_:a"), 2);
    let b0 = string_to_blank_node(String::from("_:b"), 0);
    assert_eq!(a1.partial_cmp(&a2), Some(Ordering::Less));
    assert_eq!(a2.partial_cmp(&b0), Some(Ordering::Less));
    assert_eq!(b0.partial_cmp(&a1), Some(Ordering::Greater));
    assert_eq!(a1.partial_cmp(&a1.clone()), Some(Ordering::Equal));
    assert_eq!(a1.cmp(&a2), Ordering::Less);
    assert_eq!(a2.cmp(&b0), Ordering::Less);
}

#[test]
fn iri_equality_and_order() {
    let a = string_to_iri(String::from("http://a"));
    let b = string_to_iri(String::from("http://b"));
    assert!(a == a.clone());
    assert!(a != b);
    assert_eq!(a.partial_cmp(&b), Some(Ordering::Less));
    assert_eq!(b.partial_cmp(&a), Some(Ordering::Greater));
    assert_eq!(a.cmp(&b), Ordering::Less);
    assert_eq!(a.as_str(), "http://a");
}

#[test]
fn iri_order_is_by_code_point() {
    let short = string_to_iri(String::from("ab"));
    let long = string_to_iri(String::from("abc"));
    let high = string_to_iri(String::from("aé"));
    let low = string_to_iri(String::from("az"));
    assert_eq!(short.partial_cmp(&long), Some(Ordering::Less));
    assert_eq!(low.partial_cmp(&high), Some(Ordering::Less));
}
