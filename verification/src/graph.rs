//! An HDT graph as the library sees it: an identity that tells its blank nodes
//! from those of other graphs, the lookups that need no store, and the
//! iterator step that turns the store's text triples into triples.
use vstd::prelude::*;
use vstd::string::StringExecFns;

use crate::literal::{
    lemma_literal_text_reads_back, literal_model, opt_str_view, parse_literal, DatatypePtr,
    LiteralPtr, RDF_LANG_STRING, XSD_STRING,
};
use crate::node::{string_to_iri, IRIPtr};
use crate::text::{enc_len, starts_with_char, str_eq};
use crate::triple::{
    hdt_text, object_from_hdt_string, object_syntax, object_term, subject_from_hdt_string,
    subject_term, term_wf, TermModel, Triple,
};

verus! {

/// A triple as the store hands it out: the texts of subject, predicate and
/// object.
pub type TextTriple = (Seq<char>, Seq<char>, Seq<char>);

/// The triple that the store texts `t` stand for in the graph `graph_id`.
pub open spec fn triple_of_texts(t: TextTriple, graph_id: usize) -> (TermModel, Seq<char>, TermModel) {
    (subject_term(t.0, graph_id), t.1, object_term(t.2, graph_id))
}

/// The views of an optional text triple.
pub open spec fn fetched_view(f: Option<(String, String, String)>) -> Option<TextTriple> {
    match f {
        Some(t) => Some((t.0@, t.1@, t.2@)),
        None => None,
    }
}

/// What one step of an iterator gives: nothing when it has no source or the
/// source is done, else the triple that the fetched texts stand for.
pub open spec fn iter_step(it: (usize, bool), fetched: Option<TextTriple>) -> Option<
    (TermModel, Seq<char>, TermModel),
> {
    if !it.1 {
        None
    } else {
        match fetched {
            Some(t) => Some(triple_of_texts(t, it.0)),
            None => None,
        }
    }
}

/// A random number to tell graphs apart: calls `rand::random::<usize>()`;
/// nothing is claimed of the number.
#[verifier::external_body]
fn random_graph_id() -> usize {
    rand::random::<usize>()
}

/// The library's part of an HDT graph: the identity that its blank nodes carry.
pub struct HDT {
    graph_id: usize,
}

/// An iterator over triples of one graph. It has a source of text triples in
/// the store, or none (an empty range).
pub struct Iter {
    graph_id: usize,
    has_source: bool,
}

impl View for HDT {
    type V = usize;

    closed spec fn view(&self) -> usize {
        self.graph_id
    }
}

impl View for Iter {
    type V = (usize, bool);

    closed spec fn view(&self) -> (usize, bool) {
        (self.graph_id, self.has_source)
    }
}

impl HDT {
    /// A graph with a fresh random identity.
    pub fn new() -> (r: HDT) {
        HDT::with_graph_id(random_graph_id())
    }

    /// A graph with the given identity.
    pub fn with_graph_id(graph_id: usize) -> (r: HDT)
        ensures
            r@ == graph_id,
    {
        HDT { graph_id }
    }

    /// The identity of the graph.
    pub fn graph_id(&self) -> (r: usize)
        ensures
            r == self@,
    {
        self.graph_id
    }

    /// The IRI with text `iri`; every IRI can be looked up.
    pub fn find_iri<'g>(&self, iri: &str) -> (r: Option<IRIPtr<'g>>)
        ensures
            r matches Some(i) && i@ == iri@,
    {
        Some(string_to_iri(String::from_str(iri)))
    }

    /// The literal with the given value, datatype and optional language;
    /// every literal can be looked up.
    pub fn find_literal<'g>(&self, literal: &str, datatype: &str, language: Option<&str>) -> (r:
        Option<LiteralPtr<'g>>)
        requires
            enc_len(literal@) < usize::MAX,
        ensures
            r matches Some(l) && l.wf() && l@ == literal_model(
                literal@,
                datatype@,
                opt_str_view(language),
            ),
    {
        Some(LiteralPtr::new(literal, datatype, language))
    }

    /// The datatype with IRI `datatype`: the plain string and language-tagged
    /// string datatypes are told apart, any other IRI is kept as text.
    pub fn find_datatype(&self, datatype: &str) -> (r: Option<DatatypePtr>)
        ensures
            r matches Some(d) && d.iri() == datatype@ && (d is Plain <==> datatype@
                == XSD_STRING@) && (d is Language <==> datatype@ != XSD_STRING@ && datatype@
                == RDF_LANG_STRING@),
    {
        Some(
            if str_eq(datatype, XSD_STRING) {
                DatatypePtr::Plain
            } else if str_eq(datatype, RDF_LANG_STRING) {
                DatatypePtr::Language
            } else {
                DatatypePtr::Datatype(String::from_str(datatype))
            },
        )
    }

    /// The triple that the store texts of subject, predicate and object stand
    /// for in this graph.
    pub fn triple<'g>(&self, subject: String, predicate: String, object: String) -> (r: Triple<
        'g,
    >)
        requires
            object_syntax(object@),
        ensures
            r@ == triple_of_texts((subject@, predicate@, object@), self@),
            term_wf(r@.2),
    {
        Triple::new(
            subject_from_hdt_string(subject, self.graph_id),
            string_to_iri(predicate),
            object_from_hdt_string(object, self.graph_id),
        )
    }

    /// An iterator over all triples of the graph, which the store serves.
    pub fn iter(&self) -> (r: Iter)
        ensures
            r@ == (self@, true),
    {
        Iter { graph_id: self.graph_id, has_source: true }
    }

    /// An iterator over a range of triples: with a source when the store
    /// found the range, else empty.
    pub fn range(&self, found: bool) -> (r: Iter)
        ensures
            r@ == (self@, found),
    {
        Iter { graph_id: self.graph_id, has_source: found }
    }

    /// An iterator that returns no results (subject, predicate, object order).
    pub fn empty_spo_range(&self) -> (r: Iter)
        ensures
            r@ == (self@, false),
    {
        Iter { graph_id: self.graph_id, has_source: false }
    }

    /// An iterator that returns no results (object, predicate, subject order).
    pub fn empty_ops_range(&self) -> (r: Iter)
        ensures
            r@ == (self@, false),
    {
        Iter { graph_id: self.graph_id, has_source: false }
    }
}

impl Iter {
    /// Whether the iterator has a source of triples to fetch from.
    pub fn has_source(&self) -> (r: bool)
        ensures
            r == self@.1,
    {
        self.has_source
    }

    /// One step of the iterator: given what was fetched from its source (none
    /// when it has no source), the next triple, or none when done.
    pub fn next<'g>(&self, fetched: Option<(String, String, String)>) -> (r: Option<Triple<'g>>)
        requires
            fetched matches Some(t) ==> object_syntax(t.2@),
        ensures
            match r {
                Some(t) => iter_step(self@, fetched_view(fetched)) == Some(t@) && term_wf(t@.2),
                None => iter_step(self@, fetched_view(fetched)) is None,
            },
    {
        if !self.has_source {
            return None;
        }
        match fetched {
            Some((subject, predicate, object)) => Some(
                HDT { graph_id: self.graph_id }.triple(subject, predicate, object),
            ),
            None => None,
        }
    }
}

/// An empty range returns no results, whatever would be fetched.
pub proof fn lemma_empty_range_yields_nothing(graph_id: usize, fetched: Option<TextTriple>)
    ensures
        iter_step((graph_id, false), fetched) is None,
{
}

/// A literal looked up with `find_literal` is found again among the objects
/// that the store hands out: its text reads back as the same literal, when
/// the quote that closes its value is the last one in the text and a language
/// tag does not end with `>`.
pub proof fn lemma_found_literal_is_found_again(
    value: Seq<char>,
    datatype: Seq<char>,
    language: Option<Seq<char>>,
    graph_id: usize,
)
    requires
        language matches Some(lang) ==> !lang.contains('"') && (lang.len() == 0 || lang.last()
            != '>'),
        language is None && datatype != XSD_STRING@ ==> !datatype.contains('"'),
    ensures
        object_syntax(literal_model(value, datatype, language).0),
        object_term(literal_model(value, datatype, language).0, graph_id) == TermModel::Literal(
            literal_model(value, datatype, language),
        ),
{
    lemma_literal_text_reads_back(value, datatype, language);
}

/// A step of an iterator with a source turns the fetched texts into the
/// triple that the graph builds from them (`HDT::triple`): the subject is a
/// blank node of this graph when its text starts with `_`, else an IRI; the
/// predicate is the IRI with the fetched text; the object is a blank node of
/// this graph when its text starts with `_`, the literal that its text reads
/// as when it starts with `"`, else an IRI. Each part keeps its text. When the
/// source is done, the step gives nothing.
pub proof fn lemma_iter_step_with_source(graph_id: usize, t: TextTriple)
    ensures
        iter_step((graph_id, true), Some(t)) == Some(triple_of_texts(t, graph_id)),
        iter_step((graph_id, true), None) is None,
        ({
            let (s, p, o) = triple_of_texts(t, graph_id);
            &&& starts_with_char(t.0, '_') ==> s == TermModel::BlankNode(t.0, graph_id)
            &&& !starts_with_char(t.0, '_') ==> s == TermModel::IRI(t.0)
            &&& p == t.1
            &&& starts_with_char(t.2, '_') ==> o == TermModel::BlankNode(t.2, graph_id)
            &&& starts_with_char(t.2, '"') ==> o == TermModel::Literal(parse_literal(t.2))
            &&& !starts_with_char(t.2, '_') && !starts_with_char(t.2, '"') ==> o == TermModel::IRI(
                t.2,
            )
            &&& hdt_text(s) == t.0
            &&& hdt_text(o) == t.2
        }),
{
}

} // verus!
