# Ecore model representation, verified

A library for representing Ecore metamodels in memory (packages, classes,
structural features, operations, enum literals, annotations and multiplicity
bounds), written in Verus: every function carries a contract over an abstract
model of its type, and the library's laws are proved as public proof functions.

- `src/text.rs`: characters, identifiers, decimal numbers, whitespace trimming
  and splitting, with their specifications.
- `src/error.rs`: the error type.
- `src/repr.rs`: annotations, package paths, literals, parameters, operations,
  classes and packages.
- `src/repr/bounds.rs`: multiplicity bounds and their textual form.
- `src/repr/builtin.rs`: the builtin Ecore data types and their URLs.
- `src/repr/structural.rs`: structural features (references and attributes).
- `src/repr/idx.rs`, `src/repr/annot.rs`: index and string types.
- `tests/`: tests on concrete values.
