use rdfio_hdt::graph::HDT;
use rdfio_hdt::literal::{DatatypePtr, LiteralPtr, RDF_LANG_STRING, XSD_STRING};
use rdfio_hdt::node::{string_to_blank_node, string_to_iri};
use rdfio_hdt::triple::{
    blank_node_or_iri_to_hdt_string, object_from_hdt_string, resource_to_hdt_string,
    subject_from_hdt_string, BlankNodeOrIRI, Resource, TripleComponentRole,
};

fn texts(s: &str, p: &str, o: &str) -> Option<(String, String, String)> {
    Some((String::from(s), String::from(p), String::from(o)))
}

#[test]
fn find_iri_always_finds() {
    let hdt = HDT::with_graph_id(3);
    let s = hdt.find_iri("s").unwrap();
    assert_eq!(s.as_str(), "s");
}

#[test]
fn find_literal_always_finds() {
    let hdt = HDT::with_graph_id(3);
    let o = hdt.find_literal("abc", "bcd", None).unwrap();
    assert_eq!(o, LiteralPtr::new("abc", "bcd", None));
    assert_eq!(resource_to_hdt_string(&Resource::Literal(o)), "\"abc\"^^<bcd>");
}

#[test]
fn find_datatype_kinds() {
    let hdt = HDT::with_graph_id(3);
    assert_eq!(hdt.find_datatype(XSD_STRING), Some(DatatypePtr::Plain));
    assert_eq!(hdt.find_datatype(RDF_LANG_STRING), Some(DatatypePtr::Language));
    assert_eq!(
        hdt.find_datatype("http://www.w3.org/2001/XMLSchema#int"),
        Some(DatatypePtr::Datatype(String::from("http://www.w3.org/2001/XMLSchema#int")))
    );
}

#[test]
fn graph_ids() {
    let hdt = HDT::with_graph_id(42);
    assert_eq!(hdt.graph_id(), 42);
    let _fresh = HDT::new();
}

#[test]
fn triple_from_store_texts() {
    let hdt = HDT::with_graph_id(9);
    let t = hdt.triple(String::from("_:b0"), String::from("p"), String::from("\"abc\"@en"));
    match t.subject() {
        BlankNodeOrIRI::BlankNode(b) => {
            assert_eq!(b.as_str(), "_:b0");
            assert_eq!(b.graph_id(), 9);
        }
        BlankNodeOrIRI::IRI(_) => panic!("expected a blank node"),
    }
    assert_eq!(t.predicate().as_str(), "p");
    match t.object() {
        Resource::Literal(l) => {
            assert_eq!(l.as_str(), "abc");
            assert_eq!(l.language(), Some("en"));
        }
        _ => panic!("expected a literal"),
    }
}

#[test]
fn triple_with_iri_subject_and_objects() {
    let hdt = HDT::with_graph_id(1);
    let t = hdt.triple(String::from("s"), String::from("p"), String::from("o"));
    assert_eq!(t.subject(), BlankNodeOrIRI::IRI(string_to_iri(String::from("s"))));
    assert_eq!(t.object(), Resource::IRI(string_to_iri(String::from("o"))));
    let t2 = hdt.triple(String::from("s"), String::from("p"), String::from("_:x"));
    assert_eq!(t2.object(), Resource::BlankNode(string_to_blank_node(String::from("_:x"), 1)));
    assert_eq!(t.clone(), t);
    assert!(t2 < t);
}

#[test]
fn hdt_strings_round_trip() {
    for s in ["_:b", "http://x", "\"v\"^^<d>", "\"v\"", "plain"] {
        let subject = subject_from_hdt_string(String::from(s), 5);
        let object = object_from_hdt_string(String::from(s), 5);
        assert_eq!(blank_node_or_iri_to_hdt_string(&subject), s);
        assert_eq!(resource_to_hdt_string(&object), s);
    }
}

#[test]
fn subject_starting_with_quote_is_an_iri() {
    let subject = subject_from_hdt_string(String::from("\"x\""), 5);
    assert_eq!(subject, BlankNodeOrIRI::IRI(string_to_iri(String::from("\"x\""))));
}

#[test]
fn iterator_steps() {
    let hdt = HDT::with_graph_id(2);
    let it = hdt.iter();
    assert!(it.has_source());
    let t = it.next(texts("s", "p", "\"abc\"^^<bcd>")).unwrap();
    assert_eq!(t.predicate().as_str(), "p");
    assert!(it.next(None).is_none());
}

#[test]
fn empty_ranges_return_nothing() {
    let hdt = HDT::with_graph_id(2);
    let spo = hdt.empty_spo_range();
    let ops = hdt.empty_ops_range();
    assert!(!spo.has_source());
    assert!(spo.next(texts("s", "p", "o")).is_none());
    assert!(ops.next(texts("s", "p", "o")).is_none());
    assert!(hdt.range(false).next(texts("s", "p", "o")).is_none());
    assert!(hdt.range(true).next(texts("s", "p", "o")).is_some());
}

#[test]
fn roles_are_distinct() {
    assert_ne!(TripleComponentRole::Subject, TripleComponentRole::Object);
    assert_eq!(TripleComponentRole::Predicate.clone(), TripleComponentRole::Predicate);
}

#[test]
fn found_literal_is_found_again_among_objects() {
    let hdt = HDT::with_graph_id(4);
    for (v, d, l) in [("abc", "bcd", None), ("x y", XSD_STRING, None), ("hi", "", Some("en"))] {
        let found = hdt.find_literal(v, d, l).unwrap();
        let text = String::from(resource_to_hdt_string(&Resource::Literal(found.clone())));
        assert_eq!(object_from_hdt_string(text, 4), Resource::Literal(found));
    }
}
