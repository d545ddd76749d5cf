//! An undirected graph ("network") over ordered vertex labels, kept in a
//! `BTreeMap` from each vertex to the set of its neighbours.

/// The error reported when an operation names a vertex that is not present.
pub mod error;

/// Vertex label types whose ordering and cloning are known to be lawful.
pub mod label;

mod network;

pub use error::Error;
pub use label::Label;
pub use network::{
    adjacency_view, are_adjacent, both_present, is_network, lemma_add_edge_idempotent,
    lemma_add_vertex_idempotent, lemma_adjacency_symmetric, lemma_edge_round_trip,
    lemma_remove_edge_idempotent, lemma_remove_vertex_cascades, lists_back, with_edge,
    with_vertex, without_edge, without_vertex, AddEdge, AddVertex, Adjacent, BTreeNetwork,
    Connections, GetVertexValue, RemoveEdge, RemoveVertex, Vertices,
};
