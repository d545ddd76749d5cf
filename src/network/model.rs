use vstd::prelude::*;

verus! {

/// A map from each vertex to the set of its neighbours describes an
/// undirected network: every neighbour is itself a vertex, and lists the
/// first vertex among its own neighbours.
pub open spec fn is_network<T>(g: Map<T, Set<T>>) -> bool {
    forall|x: T, y: T|
        g.contains_key(x) && #[trigger] g[x].contains(y) ==> g.contains_key(y) && g[y].contains(x)
}

/// Every neighbour of `x` in `g` is a vertex of `g` and lists `x` among its
/// own neighbours.
pub open spec fn lists_back<T>(g: Map<T, Set<T>>, x: T) -> bool {
    forall|y: T| #[trigger] g[x].contains(y) ==> g.contains_key(y) && g[y].contains(x)
}

/// Both `x` and `y` are vertices of `g`.
pub open spec fn both_present<T>(g: Map<T, Set<T>>, x: T, y: T) -> bool {
    g.contains_key(x) && g.contains_key(y)
}

/// `x` and `y` list each other as neighbours.
pub open spec fn are_adjacent<T>(g: Map<T, Set<T>>, x: T, y: T) -> bool {
    g[x].contains(y) && g[y].contains(x)
}

/// `g` with the vertex `x` added, without neighbours, where it was absent.
pub open spec fn with_vertex<T>(g: Map<T, Set<T>>, x: T) -> Map<T, Set<T>> {
    if g.contains_key(x) {
        g
    } else {
        g.insert(x, Set::empty())
    }
}

/// `g` with the undirected edge between `x` and `y` added.
pub open spec fn with_edge<T>(g: Map<T, Set<T>>, x: T, y: T) -> Map<T, Set<T>> {
    Map::new(
        |v: T| g.contains_key(v),
        |v: T|
            if v == x {
                g[v].insert(y)
            } else if v == y {
                g[v].insert(x)
            } else {
                g[v]
            },
    )
}

/// `g` with the undirected edge between `x` and `y` taken out.
pub open spec fn without_edge<T>(g: Map<T, Set<T>>, x: T, y: T) -> Map<T, Set<T>> {
    Map::new(
        |v: T| g.contains_key(v),
        |v: T|
            if v == x {
                g[v].remove(y)
            } else if v == y {
                g[v].remove(x)
            } else {
                g[v]
            },
    )
}

/// `g` with the vertex `x` and every edge that touches it taken out.
pub open spec fn without_vertex<T>(g: Map<T, Set<T>>, x: T) -> Map<T, Set<T>> {
    Map::new(|v: T| g.contains_key(v) && v != x, |v: T| g[v].remove(x))
}

/// `g` part way through detaching `x`: the edges from `x` to the vertices of
/// `done` are gone, the others still stand.
pub open spec fn detached<T>(g: Map<T, Set<T>>, x: T, done: Set<T>) -> Map<T, Set<T>> {
    Map::new(
        |v: T| g.contains_key(v),
        |v: T|
            if v == x {
                g[x].difference(done)
            } else if done.contains(v) {
                g[v].remove(x)
            } else {
                g[v]
            },
    )
}

/// Adding a vertex keeps a network a network.
pub proof fn lemma_with_vertex_is_network<T>(g: Map<T, Set<T>>, x: T)
    requires
        is_network(g),
    ensures
        is_network(with_vertex(g, x)),
{
}

/// Adding an edge between two vertices keeps a network a network.
pub proof fn lemma_with_edge_is_network<T>(g: Map<T, Set<T>>, x: T, y: T)
    requires
        is_network(g),
        both_present(g, x, y),
    ensures
        is_network(with_edge(g, x, y)),
{
}

/// Taking out an edge keeps a network a network.
pub proof fn lemma_without_edge_is_network<T>(g: Map<T, Set<T>>, x: T, y: T)
    requires
        is_network(g),
    ensures
        is_network(without_edge(g, x, y)),
{
}

/// Taking out a vertex with its edges keeps a network a network.
pub proof fn lemma_without_vertex_is_network<T>(g: Map<T, Set<T>>, x: T)
    requires
        is_network(g),
    ensures
        is_network(without_vertex(g, x)),
{
}

/// Nothing is detached yet from the empty set of neighbours.
pub proof fn lemma_detached_none<T>(g: Map<T, Set<T>>, x: T)
    ensures
        detached(g, x, Set::empty()) == g,
{
    assert forall|v: T| g.contains_key(v) implies detached(g, x, Set::empty())[v] == g[v] by {
        if v == x {
            assert(g[x].difference(Set::empty()) =~= g[x]);
        }
    }
    assert(detached(g, x, Set::empty()) =~= g);
}

/// Taking out the edge to one more neighbour `y` detaches `y` as well.
pub proof fn lemma_detached_step<T>(g: Map<T, Set<T>>, x: T, done: Set<T>, y: T)
    requires
        !done.contains(y),
    ensures
        without_edge(detached(g, x, done), x, y) == detached(g, x, done.insert(y)),
{
    let a = without_edge(detached(g, x, done), x, y);
    let b = detached(g, x, done.insert(y));
    assert forall|v: T| a.contains_key(v) implies a[v] == b[v] by {
        if v == x {
            assert(g[x].difference(done).remove(y) =~= g[x].difference(done.insert(y)));
        }
    }
    assert(a =~= b);
}

/// Once every neighbour of `x` is detached, dropping `x` leaves the network
/// without `x`.
pub proof fn lemma_detached_all<T>(g: Map<T, Set<T>>, x: T)
    requires
        is_network(g),
        g.contains_key(x),
    ensures
        detached(g, x, g[x]).remove(x) == without_vertex(g, x),
{
    let a = detached(g, x, g[x]).remove(x);
    let b = without_vertex(g, x);
    assert forall|v: T| a.contains_key(v) implies a[v] == b[v] by {
        if !g[x].contains(v) {
            assert(!g[v].contains(x));
            assert(g[v].remove(x) =~= g[v]);
        }
    }
    assert(a =~= b);
}

} // verus!
