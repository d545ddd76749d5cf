use std::collections::BTreeSet;
use vstd::prelude::*;

verus! {

/// `Vertices` returns the set of the vertices which comprise the network.
pub trait Vertices<T: Ord> {
    fn vertices(&self) -> BTreeSet<&T>;
}

/// `AddVertex` adds the vertex x, if it is not there.
pub trait AddVertex<T: Ord> {
    fn add_vertex(&mut self, x: T) -> Option<BTreeSet<T>>;
}

/// `AddEdge` adds an edge between the vertices x and y, if it is not there.
pub trait AddEdge<T> {
    type Error;

    fn add_edge(&mut self, x: T, y: T) -> Result<(), Self::Error>;
}

/// `GetVertexValue` returns the value associated with the vertex x.
pub trait GetVertexValue<T: Ord> {
    fn get_vertex_value(&self, x: T) -> Option<&BTreeSet<T>>;
}

/// `RemoveEdge` removes the edge between the vertices x and y, if it is there.
pub trait RemoveEdge<T> {
    type Error;

    fn remove_edge(&mut self, x: T, y: T) -> Result<(), Self::Error>;
}

/// `RemoveVertex` removes the vertex x, and every edge that touches it.
pub trait RemoveVertex<T: Ord> {
    type Error;

    fn remove_vertex(&mut self, x: T) -> Result<(), Self::Error>;
}

/// `Adjacent` tests whether there is an edge between the vertices x and y.
/// An error is returned if either x or y does not exist.
pub trait Adjacent<T> {
    type Error;

    fn adjacent(&self, x: T, y: T) -> Result<bool, Self::Error>;
}

/// `Connections` lists all vertices y such that there is an edge between the
/// vertex x and the vertex y, or nothing if x does not exist.
pub trait Connections<T> {
    fn connections(&self, x: T) -> Option<&BTreeSet<T>>;
}

} // verus!
