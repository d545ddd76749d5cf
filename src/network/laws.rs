use vstd::prelude::*;

use super::model::{
    are_adjacent, both_present, is_network, with_edge, with_vertex, without_edge, without_vertex,
};

verus! {

/// In a network, whether two vertices are adjacent does not depend on the
/// order in which they are named, and it is the same as either one listing
/// the other among its neighbours.
pub proof fn lemma_adjacency_symmetric<T>(g: Map<T, Set<T>>, x: T, y: T)
    requires
        is_network(g),
        both_present(g, x, y),
    ensures
        are_adjacent(g, x, y) == are_adjacent(g, y, x),
        are_adjacent(g, x, y) == g[x].contains(y),
        are_adjacent(g, x, y) == g[y].contains(x),
{
}

/// Adding a vertex twice leaves the same network as adding it once, and the
/// second addition finds the vertex with the neighbours the first left it.
pub proof fn lemma_add_vertex_idempotent<T>(g: Map<T, Set<T>>, x: T)
    ensures
        with_vertex(with_vertex(g, x), x) == with_vertex(g, x),
        with_vertex(g, x).contains_key(x),
        with_vertex(g, x)[x] == (if g.contains_key(x) {
            g[x]
        } else {
            Set::<T>::empty()
        }),
{
}

/// Once an edge between two vertices has been added, adding it again
/// succeeds and changes nothing.
pub proof fn lemma_add_edge_idempotent<T>(g: Map<T, Set<T>>, x: T, y: T)
    requires
        both_present(g, x, y),
    ensures
        both_present(with_edge(g, x, y), x, y),
        with_edge(with_edge(g, x, y), x, y) == with_edge(g, x, y),
{
    let once = with_edge(g, x, y);
    let twice = with_edge(once, x, y);
    assert forall|v: T| twice.contains_key(v) implies twice[v] == once[v] by {
        if v == x {
            assert(once[v].insert(y) =~= once[v]);
        } else if v == y {
            assert(once[v].insert(x) =~= once[v]);
        }
    }
    assert(twice =~= once);
}

/// Once an edge between two vertices has been taken out, taking it out again
/// succeeds and changes nothing.
pub proof fn lemma_remove_edge_idempotent<T>(g: Map<T, Set<T>>, x: T, y: T)
    requires
        both_present(g, x, y),
    ensures
        both_present(without_edge(g, x, y), x, y),
        without_edge(without_edge(g, x, y), x, y) == without_edge(g, x, y),
{
    let once = without_edge(g, x, y);
    let twice = without_edge(once, x, y);
    assert forall|v: T| twice.contains_key(v) implies twice[v] == once[v] by {
        if v == x {
            assert(once[v].remove(y) =~= once[v]);
        } else if v == y {
            assert(once[v].remove(x) =~= once[v]);
        }
    }
    assert(twice =~= once);
}

/// After a vertex is taken out it is no longer a vertex, no remaining vertex
/// lists it as a neighbour, and what remains is still a network.
pub proof fn lemma_remove_vertex_cascades<T>(g: Map<T, Set<T>>, x: T)
    requires
        is_network(g),
    ensures
        !without_vertex(g, x).contains_key(x),
        forall|y: T| #[trigger]
            without_vertex(g, x).contains_key(y) ==> !without_vertex(g, x)[y].contains(x),
        is_network(without_vertex(g, x)),
{
}

/// Adding two vertices and the edge between them makes them adjacent either
/// way round; taking the edge out again makes them not adjacent either way
/// round, and leaves both vertices in place.
pub proof fn lemma_edge_round_trip<T>(g: Map<T, Set<T>>, x: T, y: T)
    ensures
        ({
            let joined = with_edge(with_vertex(with_vertex(g, x), y), x, y);
            let parted = without_edge(joined, x, y);
            &&& both_present(with_vertex(with_vertex(g, x), y), x, y)
            &&& are_adjacent(joined, x, y)
            &&& are_adjacent(joined, y, x)
            &&& both_present(parted, x, y)
            &&& !are_adjacent(parted, x, y)
            &&& !are_adjacent(parted, y, x)
            &&& parted.dom() == joined.dom()
        }),
{
    let joined = with_edge(with_vertex(with_vertex(g, x), y), x, y);
    let parted = without_edge(joined, x, y);
    assert(parted.dom() =~= joined.dom());
}

} // verus!
