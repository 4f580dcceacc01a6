# rdfio_hdt

Terms and triples of an HDT (Header Dictionary Triples) RDF store, verified
with Verus.

- `src/` is the verified library: blank nodes and IRIs (`node`), literals and
  their text form (`literal`), subjects, objects and triples and their text in
  the store (`triple`), the graph identity, lookups and the iterator step
  (`graph`), and character helpers (`text`).
- `app/` binds the library to the C interface of the HDT store and presents it
  as a `rome` graph.
- `tests/` runs the library on concrete values.
