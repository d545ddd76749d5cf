mod api;
mod laws;
mod model;

use std::collections::{BTreeMap, BTreeSet};
use vstd::laws_cmp::obeys_cmp;
use vstd::prelude::*;

use crate::error::Error;
use model::{
    detached, lemma_detached_all, lemma_detached_none, lemma_detached_step,
    lemma_with_edge_is_network, lemma_with_vertex_is_network, lemma_without_edge_is_network,
    lemma_without_vertex_is_network,
};
use crate::label::{duplicate, Label};

pub use api::{
    AddEdge, AddVertex, Adjacent, Connections, GetVertexValue, RemoveEdge, RemoveVertex, Vertices,
};
pub use laws::{
    lemma_add_edge_idempotent, lemma_add_vertex_idempotent, lemma_adjacency_symmetric,
    lemma_edge_round_trip, lemma_remove_edge_idempotent, lemma_remove_vertex_cascades,
};
pub use model::{
    are_adjacent, both_present, is_network, lists_back, with_edge, with_vertex, without_edge,
    without_vertex,
};

verus! {

/// An undirected network whose vertices carry labels of type `T`.
///
/// Each vertex is a key of `vertices`, mapped to the set of its neighbours.
#[derive(PartialEq, Eq, Debug)]
pub struct BTreeNetwork<T: Label> {
    vertices: BTreeMap<T, BTreeSet<T>>,
}

impl<T: Label> View for BTreeNetwork<T> {
    type V = Map<T, Set<T>>;

    closed spec fn view(&self) -> Map<T, Set<T>> {
        adjacency_view(self.vertices)
    }
}

/// The neighbour sets of a map of `BTreeSet`s, as mathematical sets.
pub open spec fn adjacency_view<T>(m: BTreeMap<T, BTreeSet<T>>) -> Map<T, Set<T>> {
    m@.map_values(|s: BTreeSet<T>| s@)
}

impl<T: Label> BTreeNetwork<T> {
    /// The map from vertices to neighbour sets always describes a network.
    #[verifier::type_invariant]
    closed spec fn inv(self) -> bool {
        is_network(self@)
    }

    /// An empty network.
    pub fn new() -> (r: Self)
        ensures
            r@ == Map::<T, Set<T>>::empty(),
    {
        let vertices: BTreeMap<T, BTreeSet<T>> = BTreeMap::new();
        let r = BTreeNetwork { vertices };
        assert(r@ =~= Map::<T, Set<T>>::empty());
        r
    }

    /// The network that `vertices` describes, provided that every neighbour it
    /// lists is itself a vertex that lists the first vertex in return.
    pub fn from_adjacency(vertices: BTreeMap<T, BTreeSet<T>>) -> (r: Option<Self>)
        ensures
            match r {
                Some(n) => is_network(adjacency_view(vertices)) && n@ == adjacency_view(vertices),
                None => !is_network(adjacency_view(vertices)),
            },
    {
        proof {
            T::lemma_label_laws();
        }
        let ghost g = adjacency_view(vertices);
        for x in it: vertices.keys()
            invariant
                obeys_cmp::<T>(),
                g == adjacency_view(vertices),
                it.seq().unref().to_set() == vertices@.dom(),
                forall|v: T| it.seq().unref().take(it.index()).contains(v) ==> lists_back(g, v),
                it.index() == it.seq().len() ==> is_network(g),
        {
            let adj = vertices.get(x).unwrap();
            proof {
                assert(it.seq().unref().to_set().contains(*x));
            }
            for y in it2: adj.iter()
                invariant
                    obeys_cmp::<T>(),
                    g == adjacency_view(vertices),
                    vertices@.contains_key(*x),
                    adj@ == g[*x],
                    it2.seq().unref().to_set() == adj@,
                    forall|v: T|
                        it2.seq().unref().take(it2.index()).contains(v) ==> g.contains_key(v)
                            && g[v].contains(*x),
                    it2.index() == it2.seq().len() ==> lists_back(g, *x),
            {
                proof {
                    let s = it2.seq().unref();
                    assert(*y == s[it2.index()]);
                    assert(s.to_set().contains(*y));
                    assert(s.take(it2.index() + 1) =~= s.take(it2.index()).push(*y));
                    assert(s.take(s.len() as int) =~= s);
                    assert(forall|u: T| s.to_set().contains(u) <==> s.contains(u));
                }
                let back = match vertices.get(y) {
                    Some(adj_y) => adj_y.contains(x),
                    None => false,
                };
                if !back {
                    return None;
                }
                assert(g.contains_key(*y) && g[*y].contains(*x));
            }
            proof {
                let s = it.seq().unref();
                let i = it.index();
                assert(*x == s[i]);
                assert(s.take(i + 1) =~= s.take(i).push(*x));
                assert(s.take(s.len() as int) =~= s);
                assert forall|a: T, b: T|
                    i + 1 == s.len() && g.contains_key(a) && #[trigger] g[a].contains(b) implies
                        g.contains_key(b) && g[b].contains(a) by {
                    assert(s.to_set().contains(a));
                    assert(s.take(i + 1).contains(a));
                    assert(lists_back(g, a));
                }
            }
        }
        Some(BTreeNetwork { vertices })
    }

    /// The map from each vertex to the set of its neighbours.
    pub fn adjacency(&self) -> (r: &BTreeMap<T, BTreeSet<T>>)
        ensures
            adjacency_view(*r) == self@,
            is_network(self@),
    {
        proof {
            use_type_invariant(self);
        }
        &self.vertices
    }
}

impl<T: Label> Default for BTreeNetwork<T> {
    /// An empty network, as `new` makes.
    fn default() -> (r: Self)
        ensures
            r@ == Map::<T, Set<T>>::empty(),
    {
        Self::new()
    }
}

impl<T: Label> Clone for BTreeNetwork<T> {
    fn clone(&self) -> (r: Self)
        ensures
            r@ == self@,
    {
        proof {
            use_type_invariant(self);
        }
        BTreeNetwork { vertices: self.vertices.clone() }
    }
}

impl<T: Label> AddVertex<T> for BTreeNetwork<T> {
    /// Adds `x` without neighbours where it is absent; where it is present the
    /// network is left as it is and a copy of `x`'s neighbours is returned.
    fn add_vertex(&mut self, x: T) -> (r: Option<BTreeSet<T>>)
        ensures
            final(self)@ == with_vertex(old(self)@, x),
            is_network(final(self)@),
            match r {
                Some(s) => old(self)@.contains_key(x) && s@ == old(self)@[x],
                None => !old(self)@.contains_key(x),
            },
    {
        proof {
            use_type_invariant(&*self);
            T::lemma_label_laws();
        }
        match self.vertices.get(&x) {
            Some(adj) => Some(adj.clone()),
            None => {
                let mut m: BTreeMap<T, BTreeSet<T>> = BTreeMap::new();
                std::mem::swap(&mut self.vertices, &mut m);
                m.insert(x, BTreeSet::new());
                assert(adjacency_view(m) =~= with_vertex(old(self)@, x));
                proof {
                    lemma_with_vertex_is_network(old(self)@, x);
                }
                self.vertices = m;
                None
            },
        }
    }
}

impl<T: Label> AddEdge<T> for BTreeNetwork<T> {
    type Error = Error;

    /// Adds the edge between `x` and `y`, both of which must be present.
    fn add_edge(&mut self, x: T, y: T) -> (r: Result<(), Error>)
        ensures
            r is Ok <==> both_present(old(self)@, x, y),
            r is Ok ==> final(self)@ == with_edge(old(self)@, x, y),
            r is Err ==> r == Err::<(), Error>(Error::VertexDoesNotExist) && final(self)@ == old(self)@,
            is_network(final(self)@),
    {
        proof {
            use_type_invariant(&*self);
            T::lemma_label_laws();
        }
        if !(self.vertices.contains_key(&x) && self.vertices.contains_key(&y)) {
            return Err(Error::VertexDoesNotExist);
        }
        let mut m: BTreeMap<T, BTreeSet<T>> = BTreeMap::new();
        std::mem::swap(&mut self.vertices, &mut m);
        let ghost g = old(self)@;
        let x2 = duplicate(&x);
        let y2 = duplicate(&y);
        let mut adj_x = m.remove(&x).unwrap();
        adj_x.insert(y2);
        m.insert(x2, adj_x);
        let ghost m1 = adjacency_view(m);
        assert(m1 =~= g.insert(x, g[x].insert(y)));
        let mut adj_y = m.remove(&y).unwrap();
        adj_y.insert(x);
        m.insert(y, adj_y);
        assert(adjacency_view(m) =~= m1.insert(y, m1[y].insert(x)));
        proof {
            if x == y {
                assert(g[x].insert(y).insert(x) =~= g[x].insert(y));
            }
        }
        assert(adjacency_view(m) =~= with_edge(g, x, y));
        proof {
            lemma_with_edge_is_network(g, x, y);
        }
        self.vertices = m;
        Ok(())
    }
}

impl<T: Label> GetVertexValue<T> for BTreeNetwork<T> {
    /// The neighbours of `x`, or nothing where `x` is absent.
    fn get_vertex_value(&self, x: T) -> (r: Option<&BTreeSet<T>>)
        ensures
            match r {
                Some(s) => self@.contains_key(x) && s@ == self@[x],
                None => !self@.contains_key(x),
            },
    {
        proof {
            T::lemma_label_laws();
        }
        self.vertices.get(&x)
    }
}

impl<T: Label> RemoveEdge<T> for BTreeNetwork<T> {
    type Error = Error;

    /// Takes out the edge between `x` and `y`, both of which must be present;
    /// where there is no such edge the network is left as it is.
    fn remove_edge(&mut self, x: T, y: T) -> (r: Result<(), Error>)
        ensures
            r is Ok <==> both_present(old(self)@, x, y),
            r is Ok ==> final(self)@ == without_edge(old(self)@, x, y),
            r is Err ==> r == Err::<(), Error>(Error::VertexDoesNotExist) && final(self)@ == old(self)@,
            is_network(final(self)@),
    {
        proof {
            use_type_invariant(&*self);
            T::lemma_label_laws();
        }
        if !(self.vertices.contains_key(&x) && self.vertices.contains_key(&y)) {
            return Err(Error::VertexDoesNotExist);
        }
        let mut m: BTreeMap<T, BTreeSet<T>> = BTreeMap::new();
        std::mem::swap(&mut self.vertices, &mut m);
        let ghost g = old(self)@;
        let x2 = duplicate(&x);
        let mut adj_x = m.remove(&x).unwrap();
        adj_x.remove(&y);
        m.insert(x2, adj_x);
        let ghost m1 = adjacency_view(m);
        assert(m1 =~= g.insert(x, g[x].remove(y)));
        let mut adj_y = m.remove(&y).unwrap();
        adj_y.remove(&x);
        m.insert(y, adj_y);
        assert(adjacency_view(m) =~= m1.insert(y, m1[y].remove(x)));
        proof {
            if x == y {
                assert(g[x].remove(y).remove(x) =~= g[x].remove(y));
            }
        }
        assert(adjacency_view(m) =~= without_edge(g, x, y));
        proof {
            lemma_without_edge_is_network(g, x, y);
        }
        self.vertices = m;
        Ok(())
    }
}

impl<T: Label> RemoveVertex<T> for BTreeNetwork<T> {
    type Error = Error;

    /// Takes out `x`, which must be present, after taking out every edge that
    /// touches it.
    fn remove_vertex(&mut self, x: T) -> (r: Result<(), Error>)
        ensures
            r is Ok <==> old(self)@.contains_key(x),
            r is Ok ==> final(self)@ == without_vertex(old(self)@, x),
            r is Err ==> r == Err::<(), Error>(Error::VertexDoesNotExist) && final(self)@ == old(self)@,
            is_network(final(self)@),
    {
        proof {
            use_type_invariant(&*self);
            T::lemma_label_laws();
        }
        let ghost g = old(self)@;
        let neighbours: BTreeSet<T> = match self.vertices.get(&x) {
            Some(adj) => adj.clone(),
            None => return Err(Error::VertexDoesNotExist),
        };
        proof {
            lemma_detached_none(g, x);
        }
        let ghost mut done: Set<T> = Set::empty();
        for y in it: neighbours.iter()
            invariant
                is_network(g),
                g.contains_key(x),
                neighbours@ == g[x],
                it.seq().unref().to_set() == g[x],
                it.seq().unref().no_duplicates(),
                done =~= it.seq().unref().take(it.index()).to_set(),
                it.index() == it.seq().len() ==> done == g[x],
                self@ == detached(g, x, done),
        {
            proof {
                use_type_invariant(&*self);
                let s = it.seq().unref();
                assert(*y == s[it.index()]);
                assert(s.take(it.index() + 1) =~= s.take(it.index()).push(*y));
                assert(!s.take(it.index()).contains(*y));
                s.take(it.index()).lemma_push_to_set_commute(*y);
                assert(s.take(s.len() as int) =~= s);
                assert(s.to_set().contains(*y));
                assert(both_present(self@, x, *y));
                lemma_detached_step(g, x, done, *y);
            }
            // Every neighbour is a vertex, so taking out the edge cannot fail.
            let removed = self.remove_edge(duplicate(&x), duplicate(y));
            assert(removed is Ok);
            proof {
                done = done.insert(*y);
            }
        }
        let mut m: BTreeMap<T, BTreeSet<T>> = BTreeMap::new();
        std::mem::swap(&mut self.vertices, &mut m);
        m.remove(&x);
        proof {
            lemma_detached_all(g, x);
            lemma_without_vertex_is_network(g, x);
        }
        assert(adjacency_view(m) =~= without_vertex(g, x));
        self.vertices = m;
        Ok(())
    }
}

impl<T: Label> Adjacent<T> for BTreeNetwork<T> {
    type Error = Error;

    /// Whether `x` and `y`, both of which must be present, list each other as
    /// neighbours.
    fn adjacent(&self, x: T, y: T) -> (r: Result<bool, Error>)
        ensures
            is_network(self@),
            r == (if both_present(self@, x, y) {
                Ok::<bool, Error>(are_adjacent(self@, x, y))
            } else {
                Err::<bool, Error>(Error::VertexDoesNotExist)
            }),
    {
        proof {
            use_type_invariant(self);
            T::lemma_label_laws();
        }
        match (self.vertices.get(&x), self.vertices.get(&y)) {
            (Some(adj_x), Some(adj_y)) => Ok(adj_y.contains(&x) && adj_x.contains(&y)),
            _ => Err(Error::VertexDoesNotExist),
        }
    }
}

impl<T: Label> Connections<T> for BTreeNetwork<T> {
    /// The neighbours of `x`, or nothing where `x` is absent.
    fn connections(&self, x: T) -> (r: Option<&BTreeSet<T>>)
        ensures
            match r {
                Some(s) => self@.contains_key(x) && s@ == self@[x],
                None => !self@.contains_key(x),
            },
    {
        proof {
            T::lemma_label_laws();
        }
        self.vertices.get(&x)
    }
}

impl<T: Label> Vertices<T> for BTreeNetwork<T> {
    /// The labels of all vertices.
    fn vertices(&self) -> (r: BTreeSet<&T>)
        ensures
            forall|v: &T| r@.contains(v) <==> self@.contains_key(*v),
    {
        proof {
            T::lemma_label_laws();
            broadcast use vstd::laws_cmp::lemma_ref_obeys_cmp_spec;

            assert(obeys_cmp::<&T>());
        }
        let mut r: BTreeSet<&T> = BTreeSet::new();
        for v in it: self.vertices.keys()
            invariant
                obeys_cmp::<&T>(),
                it.seq().unref().to_set() == self.vertices@.dom(),
                forall|u: &T| r@.contains(u) <==> it.seq().unref().take(it.index()).contains(*u),
                it.index() == it.seq().len() ==> forall|u: &T|
                    r@.contains(u) <==> self.vertices@.contains_key(*u),
        {
            proof {
                let s = it.seq().unref();
                assert(*v == s[it.index()]);
                assert(s.take(it.index() + 1) =~= s.take(it.index()).push(*v));
                assert(s.take(s.len() as int) =~= s);
                assert(forall|u: T| s.to_set().contains(u) <==> s.contains(u));
            }
            r.insert(v);
        }
        r
    }
}

} // verus!
