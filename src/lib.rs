//! Zero-knowledge statement that a private directed graph admits a claimed
//! topological order, bound to a public Poseidon commitment of the graph.
//!
//! The library builds the statement as a circuit over the scalar field of
//! BLS12-381: wires carry their assigned values, every gadget states the
//! value it yields, and a constraint system records whether the enforced
//! equalities hold for the assignment.
pub mod field;
pub mod circuit;
pub mod cmp;
pub mod arrays;
pub mod graph_checks;
pub mod sponge;
pub mod hashing;
pub mod params;
pub mod statement;
pub mod graph_gen;
