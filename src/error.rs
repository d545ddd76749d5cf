use vstd::prelude::*;

verus! {

/// Failure of an operation on the network.
#[derive(PartialEq, Eq, Structural, Clone, Copy, Debug)]
pub enum Error {
    /// One of the vertices named by the operation is not in the network.
    VertexDoesNotExist,
}

} // verus!
