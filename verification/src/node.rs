//! Blank nodes and IRIs of an HDT graph.
use std::cmp::Ordering;
use std::marker::PhantomData;
use vstd::prelude::*;
use vstd::std_specs::cmp::PartialEqSpec;
use vstd::std_specs::cmp::PartialEqSpecImpl;
use vstd::std_specs::cmp::PartialOrdSpec;
use vstd::std_specs::cmp::PartialOrdSpecImpl;

use crate::text::{
    first_lower_at, flipped, lemma_text_order_equal, lemma_text_order_first_lower,
    lemma_text_order_flip, lemma_text_order_prefix, lemma_text_order_transitive, proper_prefix,
    str_order, text_order,
};

verus! {

/// A blank node of a graph: its label as the store writes it (`_:...`) and
/// the identity of the graph that it belongs to.
#[derive(Debug, Eq, Ord)]
pub struct BlankNodePtr<'g> {
    str: String,
    graph_id: usize,
    phantom: PhantomData<&'g u8>,
}

/// An IRI of a graph, as the text of the IRI.
#[derive(Debug, Eq, Ord)]
pub struct IRIPtr<'g> {
    str: String,
    phantom: PhantomData<&'g u8>,
}

impl<'g> View for BlankNodePtr<'g> {
    type V = (Seq<char>, usize);

    closed spec fn view(&self) -> (Seq<char>, usize) {
        (self.str@, self.graph_id)
    }
}

impl<'g> View for IRIPtr<'g> {
    type V = Seq<char>;

    closed spec fn view(&self) -> Seq<char> {
        self.str@
    }
}

impl<'g> Clone for BlankNodePtr<'g> {
    fn clone(&self) -> (r: Self)
        ensures
            r@ == self@,
    {
        BlankNodePtr { str: self.str.clone(), graph_id: self.graph_id, phantom: PhantomData }
    }
}

impl<'g> Clone for IRIPtr<'g> {
    fn clone(&self) -> (r: Self)
        ensures
            r@ == self@,
    {
        IRIPtr { str: self.str.clone(), phantom: PhantomData }
    }
}

impl<'g> PartialEq for BlankNodePtr<'g> {
    fn eq(&self, other: &Self) -> (r: bool)
        ensures
            r == (self@ == other@),
    {
        self.str == other.str && self.graph_id == other.graph_id
    }
}

impl<'g> PartialEqSpecImpl for BlankNodePtr<'g> {
    open spec fn obeys_eq_spec() -> bool {
        true
    }

    open spec fn eq_spec(&self, other: &Self) -> bool {
        self@ == other@
    }
}

impl<'g> PartialEq for IRIPtr<'g> {
    fn eq(&self, other: &Self) -> (r: bool)
        ensures
            r == (self@ == other@),
    {
        self.str == other.str
    }
}

impl<'g> PartialEqSpecImpl for IRIPtr<'g> {
    open spec fn obeys_eq_spec() -> bool {
        true
    }

    open spec fn eq_spec(&self, other: &Self) -> bool {
        self@ == other@
    }
}

/// Blank nodes are ordered by label, then by graph.
pub open spec fn blank_node_order(a: (Seq<char>, usize), b: (Seq<char>, usize)) -> Ordering {
    match text_order(a.0, b.0) {
        Ordering::Equal => if a.1 < b.1 {
            Ordering::Less
        } else if a.1 == b.1 {
            Ordering::Equal
        } else {
            Ordering::Greater
        },
        other => other,
    }
}

impl<'g> PartialOrd for BlankNodePtr<'g> {
    fn partial_cmp(&self, other: &Self) -> (r: Option<Ordering>)
        ensures
            r == Some(blank_node_order(self@, other@)),
    {
        let order = match str_order(self.str.as_str(), other.str.as_str()) {
            Ordering::Equal => if self.graph_id < other.graph_id {
                Ordering::Less
            } else if self.graph_id == other.graph_id {
                Ordering::Equal
            } else {
                Ordering::Greater
            },
            by_label => by_label,
        };
        Some(order)
    }
}

impl<'g> PartialOrdSpecImpl for BlankNodePtr<'g> {
    open spec fn obeys_partial_cmp_spec() -> bool {
        true
    }

    open spec fn partial_cmp_spec(&self, other: &Self) -> Option<Ordering> {
        Some(blank_node_order(self@, other@))
    }
}

impl<'g> PartialOrd for IRIPtr<'g> {
    fn partial_cmp(&self, other: &Self) -> (r: Option<Ordering>)
        ensures
            r == Some(text_order(self@, other@)),
    {
        Some(str_order(self.str.as_str(), other.str.as_str()))
    }
}

impl<'g> PartialOrdSpecImpl for IRIPtr<'g> {
    open spec fn obeys_partial_cmp_spec() -> bool {
        true
    }

    open spec fn partial_cmp_spec(&self, other: &Self) -> Option<Ordering> {
        Some(text_order(self@, other@))
    }
}

impl<'g> BlankNodePtr<'g> {
    /// The label of the blank node, as the store writes it.
    pub fn as_str(&self) -> (r: &str)
        ensures
            r@ == self@.0,
    {
        self.str.as_str()
    }

    /// The identity of the graph that the blank node belongs to.
    pub fn graph_id(&self) -> (r: usize)
        ensures
            r == self@.1,
    {
        self.graph_id
    }
}

impl<'g> IRIPtr<'g> {
    /// The text of the IRI.
    pub fn as_str(&self) -> (r: &str)
        ensures
            r@ == self@,
    {
        self.str.as_str()
    }
}

/// The blank node with label `string` in the graph `graph_id`.
pub fn string_to_blank_node<'g>(string: String, graph_id: usize) -> (r: BlankNodePtr<'g>)
    ensures
        r@ == (string@, graph_id),
{
    BlankNodePtr { str: string, graph_id: graph_id, phantom: PhantomData }
}

/// The IRI whose text is `string`.
pub fn string_to_iri<'g>(string: String) -> (r: IRIPtr<'g>)
    ensures
        r@ == string@,
{
    IRIPtr { str: string, phantom: PhantomData }
}

/// The order of IRIs (`partial_cmp`) agrees with their equality (`==`),
/// swapping two IRIs swaps their order, and the order is transitive.
pub proof fn lemma_iri_order(a: IRIPtr, b: IRIPtr, c: IRIPtr)
    ensures
        (text_order(a@, b@) == Ordering::Equal) <==> a@ == b@,
        text_order(b@, a@) == flipped(text_order(a@, b@)),
        text_order(a@, b@) == Ordering::Less && text_order(b@, c@) == Ordering::Less
            ==> text_order(a@, c@) == Ordering::Less,
{
    lemma_text_order_equal(a@, b@);
    lemma_text_order_flip(a@, b@);
    if text_order(a@, b@) == Ordering::Less && text_order(b@, c@) == Ordering::Less {
        lemma_text_order_transitive(a@, b@, c@);
    }
}

/// The order of blank nodes (`partial_cmp`) agrees with their equality
/// (`==`), swapping two blank nodes swaps their order, and the order is
/// transitive.
pub proof fn lemma_blank_node_order(a: BlankNodePtr, b: BlankNodePtr, c: BlankNodePtr)
    ensures
        (blank_node_order(a@, b@) == Ordering::Equal) <==> a@ == b@,
        blank_node_order(b@, a@) == flipped(blank_node_order(a@, b@)),
        blank_node_order(a@, b@) == Ordering::Less && blank_node_order(b@, c@) == Ordering::Less
            ==> blank_node_order(a@, c@) == Ordering::Less,
{
    lemma_text_order_equal(a@.0, b@.0);
    lemma_text_order_flip(a@.0, b@.0);
    lemma_text_order_equal(b@.0, c@.0);
    lemma_text_order_equal(a@.0, c@.0);
    if text_order(a@.0, b@.0) == Ordering::Less && text_order(b@.0, c@.0) == Ordering::Less {
        lemma_text_order_transitive(a@.0, b@.0, c@.0);
    }
}

/// Blank nodes of different graphs are never equal, nor in order `Equal`,
/// even with the same label.
pub proof fn lemma_blank_nodes_of_other_graphs_differ(a: BlankNodePtr, b: BlankNodePtr)
    requires
        a@.1 != b@.1,
    ensures
        a@ != b@,
        blank_node_order(a@, b@) != Ordering::Equal,
{
}

/// Two IRIs are `==` exactly when their texts are the same.
pub proof fn lemma_iri_eq(a: IRIPtr, b: IRIPtr)
    ensures
        PartialEqSpec::eq_spec(&a, &b) <==> a@ == b@,
        PartialEqSpec::eq_spec(&a, &b) ==> a@.len() == b@.len(),
{
}

/// Two blank nodes are `==` exactly when both their labels and their graphs
/// are the same.
pub proof fn lemma_blank_node_eq(a: BlankNodePtr, b: BlankNodePtr)
    ensures
        PartialEqSpec::eq_spec(&a, &b) <==> (a@.0 == b@.0 && a@.1 == b@.1),
{
}

/// IRIs are ordered lexicographically by the code points of their texts:
/// the same text is `Equal`; at the first position where two texts differ
/// the lower character comes first; a proper prefix comes first.
pub proof fn lemma_iri_partial_cmp(a: IRIPtr, b: IRIPtr, i: int)
    ensures
        PartialOrdSpec::partial_cmp_spec(&a, &b) is Some,
        (PartialOrdSpec::partial_cmp_spec(&a, &b) == Some(Ordering::Equal)) <==> a@ == b@,
        first_lower_at(a@, b@, i) ==> PartialOrdSpec::partial_cmp_spec(&a, &b) == Some(
            Ordering::Less,
        ) && PartialOrdSpec::partial_cmp_spec(&b, &a) == Some(Ordering::Greater),
        proper_prefix(a@, b@) ==> PartialOrdSpec::partial_cmp_spec(&a, &b) == Some(Ordering::Less)
            && PartialOrdSpec::partial_cmp_spec(&b, &a) == Some(Ordering::Greater),
{
    lemma_text_order_equal(a@, b@);
    if first_lower_at(a@, b@, i) {
        lemma_text_order_first_lower(a@, b@, i);
    }
    if proper_prefix(a@, b@) {
        lemma_text_order_prefix(a@, b@);
    }
}

/// Blank nodes are ordered by label first, lexicographically by code point,
/// and by graph identity when the labels are the same.
pub proof fn lemma_blank_node_partial_cmp(a: BlankNodePtr, b: BlankNodePtr, i: int)
    ensures
        PartialOrdSpec::partial_cmp_spec(&a, &b) is Some,
        (PartialOrdSpec::partial_cmp_spec(&a, &b) == Some(Ordering::Equal)) <==> (a@.0 == b@.0
            && a@.1 == b@.1),
        first_lower_at(a@.0, b@.0, i) ==> PartialOrdSpec::partial_cmp_spec(&a, &b) == Some(
            Ordering::Less,
        ) && PartialOrdSpec::partial_cmp_spec(&b, &a) == Some(Ordering::Greater),
        proper_prefix(a@.0, b@.0) ==> PartialOrdSpec::partial_cmp_spec(&a, &b) == Some(
            Ordering::Less,
        ) && PartialOrdSpec::partial_cmp_spec(&b, &a) == Some(Ordering::Greater),
        a@.0 == b@.0 && a@.1 < b@.1 ==> PartialOrdSpec::partial_cmp_spec(&a, &b) == Some(
            Ordering::Less,
        ) && PartialOrdSpec::partial_cmp_spec(&b, &a) == Some(Ordering::Greater),
{
    lemma_text_order_equal(a@.0, b@.0);
    lemma_text_order_equal(b@.0, a@.0);
    if first_lower_at(a@.0, b@.0, i) {
        lemma_text_order_first_lower(a@.0, b@.0, i);
    }
    if proper_prefix(a@.0, b@.0) {
        lemma_text_order_prefix(a@.0, b@.0);
    }
}

} // verus!
