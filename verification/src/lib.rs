//! The terms and triples of an HDT (Header Dictionary Triples) RDF store, as
//! the store writes them out: blank nodes, IRIs and literals in their text
//! form, the iterator step that turns the store's text triples into triples,
//! and the lookups that need no store.
pub mod graph;
pub mod literal;
pub mod node;
pub mod text;
pub mod triple;
