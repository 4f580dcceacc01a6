use rdfio_hdt::literal::{
    literal_syntax_ok, string_to_literal, DatatypePtr, LiteralPtr, RDF_LANG_STRING, XSD_STRING,
};

#[test]
fn new_plain_literal() {
    let l = LiteralPtr::new("abc", XSD_STRING, None);
    assert_eq!(l.text(), "\"abc\"");
    assert_eq!(l.as_str(), "abc");
    assert_eq!(l.datatype_str(), XSD_STRING);
    assert_eq!(l.language(), None);
    assert_eq!(l.datatype(), DatatypePtr::Plain);
}

#[test]
fn new_typed_literal() {
    let l = LiteralPtr::new("abc", "bcd", None);
    assert_eq!(l.text(), "\"abc\"^^<bcd>");
    assert_eq!(l.as_str(), "abc");
    assert_eq!(l.datatype_str(), "bcd");
    assert_eq!(l.language(), None);
    assert_eq!(l.datatype(), DatatypePtr::Datatype(String::from("bcd")));
    assert_eq!(l.datatype().as_str(), "bcd");
}

#[test]
fn new_language_literal() {
    let l = LiteralPtr::new("chat", "ignored", Some("fr"));
    assert_eq!(l.text(), "\"chat\"@fr");
    assert_eq!(l.as_str(), "chat");
    assert_eq!(l.datatype_str(), RDF_LANG_STRING);
    assert_eq!(l.language(), Some("fr"));
    assert_eq!(l.datatype(), DatatypePtr::Language);
}

#[test]
fn new_literal_with_non_ascii_value() {
    let l = LiteralPtr::new("héllo wörld", "http://example.org/t", None);
    assert_eq!(l.text(), "\"héllo wörld\"^^<http://example.org/t>");
    assert_eq!(l.as_str(), "héllo wörld");
    assert_eq!(l.datatype_str(), "http://example.org/t");
}

#[test]
fn new_literal_with_quote_in_value() {
    let l = LiteralPtr::new("a\"b", XSD_STRING, None);
    assert_eq!(l.text(), "\"a\"b\"");
    assert_eq!(l.as_str(), "a\"b");
    assert_eq!(string_to_literal(String::from("\"a\"b\"")), l);
}

#[test]
fn empty_literal() {
    let l = LiteralPtr::new("", XSD_STRING, None);
    assert_eq!(l.text(), "\"\"");
    assert_eq!(l.as_str(), "");
    assert_eq!(string_to_literal(String::from("\"\"")), l);
}

#[test]
fn parse_plain_literal() {
    let l = string_to_literal(String::from("\"abc\""));
    assert_eq!(l.as_str(), "abc");
    assert_eq!(l.datatype_str(), XSD_STRING);
    assert_eq!(l.language(), None);
}

#[test]
fn parse_typed_literal() {
    let l = string_to_literal(String::from("\"abc\"^^<bcd>"));
    assert_eq!(l.as_str(), "abc");
    assert_eq!(l.datatype_str(), "bcd");
    assert_eq!(l.language(), None);
    assert_eq!(l, LiteralPtr::new("abc", "bcd", None));
}

#[test]
fn parse_language_literal() {
    let l = string_to_literal(String::from("\"hallo\"@nl"));
    assert_eq!(l.as_str(), "hallo");
    assert_eq!(l.datatype_str(), RDF_LANG_STRING);
    assert_eq!(l.language(), Some("nl"));
    assert_eq!(l, LiteralPtr::new("hallo", RDF_LANG_STRING, Some("nl")));
}

#[test]
fn parse_language_literal_non_ascii() {
    let l = string_to_literal(String::from("\"€ ß\"@de-ch"));
    assert_eq!(l.as_str(), "€ ß");
    assert_eq!(l.language(), Some("de-ch"));
}

#[test]
fn rebuild_literals_from_their_parts() {
    for text in [
        "\"abc\"",
        "\"abc\"^^<bcd>",
        "\"hallo\"@nl",
        "\"a\"b\"",
        "\"x\"^^<http://www.w3.org/1999/02/22-rdf-syntax-ns#langString>",
        "\"ünï\"@",
    ] {
        let l1 = string_to_literal(String::from(text));
        let l2 = LiteralPtr::new(l1.as_str(), l1.datatype_str(), l1.language());
        assert_eq!(l1, l2);
    }
}

#[test]
fn rebuild_xsd_typed_literal_gives_plain_form() {
    let text = format!("\"abc\"^^<{}>", XSD_STRING);
    let l1 = string_to_literal(text);
    let l2 = LiteralPtr::new(l1.as_str(), l1.datatype_str(), l1.language());
    assert_eq!(l2.text(), "\"abc\"");
    assert_ne!(l1, l2);
}

#[test]
fn literal_text_reads_back() {
    let made = [
        LiteralPtr::new("v", XSD_STRING, None),
        LiteralPtr::new("v\"w", "dt", None),
        LiteralPtr::new("v", "dt", Some("en")),
        LiteralPtr::new("", "", None),
    ];
    for l in made.iter() {
        assert!(literal_syntax_ok(l.text()));
        assert_eq!(&string_to_literal(String::from(l.text())), l);
    }
}

#[test]
fn literal_syntax_checks() {
    assert!(literal_syntax_ok("\"abc\""));
    assert!(literal_syntax_ok("\"abc\"^^<x>"));
    assert!(literal_syntax_ok("\"abc\"@en"));
    assert!(!literal_syntax_ok(""));
    assert!(!literal_syntax_ok("abc"));
    assert!(!literal_syntax_ok("\"abc"));
    assert!(!literal_syntax_ok("\"abc\"x"));
    assert!(!literal_syntax_ok("\"abc\">"));
    assert!(!literal_syntax_ok("\"abc\"@en>"));
    assert!(!literal_syntax_ok("\"abc\"^^x>"));
}

#[test]
fn datatype_ptr_as_str() {
    assert_eq!(DatatypePtr::Plain.as_str(), XSD_STRING);
    assert_eq!(DatatypePtr::Language.as_str(), RDF_LANG_STRING);
    assert_eq!(DatatypePtr::Datatype(String::from("http://x")).as_str(), "http://x");
}

#[test]
fn literals_compare_by_text() {
    let a = LiteralPtr::new("a", XSD_STRING, None);
    let b = LiteralPtr::new("b", XSD_STRING, None);
    assert!(a < b);
    assert_eq!(a.clone(), a);
}

#[test]
fn new_gives_equal_literals_exactly_for_equal_parts() {
    assert_eq!(LiteralPtr::new("a", "x", Some("en")), LiteralPtr::new("a", "y", Some("en")));
    assert_eq!(LiteralPtr::new("a", "x", None), LiteralPtr::new("a", "x", None));
    assert_ne!(LiteralPtr::new("a", "x", None), LiteralPtr::new("a", "y", None));
    assert_ne!(LiteralPtr::new("a", XSD_STRING, None), LiteralPtr::new("a", "y", None));
    assert_ne!(LiteralPtr::new("a", "x", Some("en")), LiteralPtr::new("a", "x", None));
    assert_ne!(LiteralPtr::new("a", "x", Some("en")), LiteralPtr::new("b", "x", Some("en")));
    // Same text, different parts: the closing quote tells them apart.
    assert_eq!(
        LiteralPtr::new("a\"@b", XSD_STRING, None).text(),
        LiteralPtr::new("a", "", Some("b\"")).text()
    );
    assert_ne!(LiteralPtr::new("a\"@b", XSD_STRING, None), LiteralPtr::new("a", "", Some("b\"")));
}

#[test]
fn string_equality_decides_the_plain_form() {
    assert_eq!(
        LiteralPtr::new("v", "http://www.w3.org/2001/XMLSchema#strinG", None).text(),
        "\"v\"^^<http://www.w3.org/2001/XMLSchema#strinG>"
    );
}

#[test]
fn closing_quote_is_a_byte_offset() {
    let l = LiteralPtr::new("é", XSD_STRING, None);
    assert!(format!("{:?}", l).contains("value_end: 3"));
    let m = string_to_literal(String::from("\"€\"@en"));
    assert!(format!("{:?}", m).contains("value_end: 4"));
    assert_eq!(m.as_str(), "€");
    assert_eq!(m.language(), Some("en"));
    let d = string_to_literal(String::from("\"aé\"^^<ü>"));
    assert!(format!("{:?}", d).contains("value_end: 4"));
    assert_eq!(d.datatype_str(), "ü");
    assert_eq!(d, LiteralPtr::new("aé", "ü", None));
}
