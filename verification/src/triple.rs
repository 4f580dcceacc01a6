//! Subjects, objects and triples, and their text form in an HDT store:
//! a blank node label `_:...`, a literal `"..."...`, or else an IRI.
use vstd::prelude::*;

use crate::literal::{
    literal_model_wf, literal_syntax, parse_literal, string_to_literal, LiteralModel,
    LiteralPtr,
};
use crate::node::{string_to_blank_node, string_to_iri, BlankNodePtr, IRIPtr};
use crate::text::{first_char_is, starts_with_char};

verus! {

/// The position of a term in a triple; the store's dictionary keeps the
/// terms of each position apart.
#[derive(Clone, Copy, Debug, PartialEq, Eq, Structural)]
pub enum TripleComponentRole {
    Subject,
    Predicate,
    Object,
}

/// The model of a term: a blank node (label and graph), an IRI (its text) or a
/// literal.
pub enum TermModel {
    BlankNode(Seq<char>, usize),
    IRI(Seq<char>),
    Literal(LiteralModel),
}

/// The text that an HDT store holds for a term.
pub open spec fn hdt_text(t: TermModel) -> Seq<char> {
    match t {
        TermModel::BlankNode(label, _) => label,
        TermModel::IRI(iri) => iri,
        TermModel::Literal(m) => m.0,
    }
}

/// A term is well formed when a literal in it is in one of the literal forms.
pub open spec fn term_wf(t: TermModel) -> bool {
    match t {
        TermModel::Literal(m) => literal_model_wf(m),
        _ => true,
    }
}

/// The subject that the store text `s` stands for in the graph `graph_id`:
/// a blank node when it starts with `_`, else an IRI.
pub open spec fn subject_term(s: Seq<char>, graph_id: usize) -> TermModel {
    if starts_with_char(s, '_') {
        TermModel::BlankNode(s, graph_id)
    } else {
        TermModel::IRI(s)
    }
}

/// The object that the store text `s` stands for in the graph `graph_id`:
/// a blank node when it starts with `_`, a literal when it starts with `"`,
/// else an IRI.
pub open spec fn object_term(s: Seq<char>, graph_id: usize) -> TermModel {
    if starts_with_char(s, '_') {
        TermModel::BlankNode(s, graph_id)
    } else if starts_with_char(s, '"') {
        TermModel::Literal(parse_literal(s))
    } else {
        TermModel::IRI(s)
    }
}

/// Store text can be read as an object unless it starts with `"` and is not
/// valid literal syntax.
pub open spec fn object_syntax(s: Seq<char>) -> bool {
    starts_with_char(s, '"') ==> literal_syntax(s)
}

/// The subject of a triple: a blank node or an IRI.
#[derive(Debug, PartialEq, Eq, PartialOrd, Ord)]
pub enum BlankNodeOrIRI<'g> {
    BlankNode(BlankNodePtr<'g>),
    IRI(IRIPtr<'g>),
}

/// The object of a triple: a blank node, an IRI or a literal.
#[derive(Debug, PartialEq, Eq, PartialOrd, Ord)]
pub enum Resource<'g> {
    BlankNode(BlankNodePtr<'g>),
    IRI(IRIPtr<'g>),
    Literal(LiteralPtr<'g>),
}

impl<'g> View for BlankNodeOrIRI<'g> {
    type V = TermModel;

    open spec fn view(&self) -> TermModel {
        match self {
            BlankNodeOrIRI::BlankNode(b) => TermModel::BlankNode(b@.0, b@.1),
            BlankNodeOrIRI::IRI(i) => TermModel::IRI(i@),
        }
    }
}

impl<'g> View for Resource<'g> {
    type V = TermModel;

    open spec fn view(&self) -> TermModel {
        match self {
            Resource::BlankNode(b) => TermModel::BlankNode(b@.0, b@.1),
            Resource::IRI(i) => TermModel::IRI(i@),
            Resource::Literal(l) => TermModel::Literal(l@),
        }
    }
}

impl<'g> Clone for BlankNodeOrIRI<'g> {
    fn clone(&self) -> (r: Self)
        ensures
            r@ == self@,
    {
        match self {
            BlankNodeOrIRI::BlankNode(b) => BlankNodeOrIRI::BlankNode(b.clone()),
            BlankNodeOrIRI::IRI(i) => BlankNodeOrIRI::IRI(i.clone()),
        }
    }
}

impl<'g> Clone for Resource<'g> {
    fn clone(&self) -> (r: Self)
        ensures
            r@ == self@,
    {
        match self {
            Resource::BlankNode(b) => Resource::BlankNode(b.clone()),
            Resource::IRI(i) => Resource::IRI(i.clone()),
            Resource::Literal(l) => Resource::Literal(l.clone()),
        }
    }
}

/// A triple: subject, predicate and object.
#[derive(Debug, PartialEq, Eq, PartialOrd, Ord)]
pub struct Triple<'g> {
    subject: BlankNodeOrIRI<'g>,
    predicate: IRIPtr<'g>,
    object: Resource<'g>,
}

impl<'g> View for Triple<'g> {
    type V = (TermModel, Seq<char>, TermModel);

    closed spec fn view(&self) -> (TermModel, Seq<char>, TermModel) {
        (self.subject@, self.predicate@, self.object@)
    }
}

impl<'g> Clone for Triple<'g> {
    fn clone(&self) -> (r: Self)
        ensures
            r@ == self@,
    {
        Triple {
            subject: self.subject.clone(),
            predicate: self.predicate.clone(),
            object: self.object.clone(),
        }
    }
}

impl<'g> Triple<'g> {
    /// The triple with the given parts.
    pub(crate) fn new(subject: BlankNodeOrIRI<'g>, predicate: IRIPtr<'g>, object: Resource<'g>) -> (r:
        Triple<'g>)
        ensures
            r@ == (subject@, predicate@, object@),
    {
        Triple { subject, predicate, object }
    }

    /// The subject of the triple.
    pub fn subject(&self) -> (r: BlankNodeOrIRI<'g>)
        ensures
            r@ == self@.0,
    {
        self.subject.clone()
    }

    /// The predicate of the triple.
    pub fn predicate(&self) -> (r: IRIPtr<'g>)
        ensures
            r@ == self@.1,
    {
        self.predicate.clone()
    }

    /// The object of the triple.
    pub fn object(&self) -> (r: Resource<'g>)
        ensures
            r@ == self@.2,
    {
        self.object.clone()
    }
}

/// The text that the store holds for a subject.
pub fn blank_node_or_iri_to_hdt_string<'a, 'g>(blank_node_or_iri: &'a BlankNodeOrIRI<'g>) -> (r:
    &'a str)
    ensures
        r@ == hdt_text(blank_node_or_iri@),
{
    match blank_node_or_iri {
        BlankNodeOrIRI::BlankNode(b) => b.as_str(),
        BlankNodeOrIRI::IRI(i) => i.as_str(),
    }
}

/// The text that the store holds for an object.
pub fn resource_to_hdt_string<'a, 'g>(resource: &'a Resource<'g>) -> (r: &'a str)
    ensures
        r@ == hdt_text(resource@),
{
    match resource {
        Resource::BlankNode(b) => b.as_str(),
        Resource::IRI(i) => i.as_str(),
        Resource::Literal(l) => l.text(),
    }
}

/// The subject that the store text `string` stands for in the graph `graph_id`.
pub fn subject_from_hdt_string<'g>(string: String, graph_id: usize) -> (r: BlankNodeOrIRI<'g>)
    ensures
        r@ == subject_term(string@, graph_id),
{
    if first_char_is(string.as_str(), '_') {
        BlankNodeOrIRI::BlankNode(string_to_blank_node(string, graph_id))
    } else {
        BlankNodeOrIRI::IRI(string_to_iri(string))
    }
}

/// The object that the store text `string` stands for in the graph `graph_id`.
pub fn object_from_hdt_string<'g>(string: String, graph_id: usize) -> (r: Resource<'g>)
    requires
        object_syntax(string@),
    ensures
        r@ == object_term(string@, graph_id),
        term_wf(r@),
{
    if first_char_is(string.as_str(), '_') {
        Resource::BlankNode(string_to_blank_node(string, graph_id))
    } else if first_char_is(string.as_str(), '"') {
        Resource::Literal(string_to_literal(string))
    } else {
        Resource::IRI(string_to_iri(string))
    }
}

/// Reading a term from its store text and writing it back gives the same
/// text, for subjects and for objects alike.
pub proof fn lemma_hdt_text_round_trip(s: Seq<char>, graph_id: usize)
    ensures
        hdt_text(subject_term(s, graph_id)) == s,
        hdt_text(object_term(s, graph_id)) == s,
{
}

} // verus!
