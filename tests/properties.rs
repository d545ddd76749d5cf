use btree_network::{
    AddEdge, AddVertex, Adjacent, BTreeNetwork, Connections, Error, GetVertexValue, RemoveEdge,
    RemoveVertex, Vertices,
};
use std::collections::{BTreeMap, BTreeSet};

fn set_of(items: &[usize]) -> BTreeSet<usize> {
    items.iter().copied().collect()
}

fn path_of_three() -> BTreeNetwork<usize> {
    let mut network: BTreeNetwork<usize> = BTreeNetwork::new();
    network.add_vertex(0);
    network.add_vertex(1);
    network.add_vertex(2);
    network.add_edge(0, 1).unwrap();
    network.add_edge(1, 2).unwrap();
    network
}

#[test]
fn adjacency_is_symmetric() {
    let network = path_of_three();
    for x in 0..3usize {
        for y in 0..3usize {
            let forward = network.adjacent(x, y).unwrap();
            assert_eq!(forward, network.adjacent(y, x).unwrap());
            assert_eq!(forward, network.connections(x).unwrap().contains(&y));
            assert_eq!(forward, network.connections(y).unwrap().contains(&x));
        }
    }
    assert!(network.adjacent(0, 1).unwrap());
    assert!(!network.adjacent(0, 2).unwrap());
}

#[test]
fn add_vertex_twice_is_a_no_op() {
    let mut network: BTreeNetwork<usize> = BTreeNetwork::new();
    assert_eq!(network.add_vertex(7), None);
    let once = network.clone();
    assert_eq!(network.add_vertex(7), Some(BTreeSet::new()));
    assert_eq!(network, once);
    assert_eq!(network.vertices().len(), 1);
}

#[test]
fn add_vertex_keeps_existing_edges() {
    let mut network = path_of_three();
    let before = network.clone();
    assert_eq!(network.add_vertex(1), Some(set_of(&[0, 2])));
    assert_eq!(network, before);
    assert!(network.adjacent(1, 0).unwrap());
    assert_eq!(network.connections(0).unwrap(), &set_of(&[1]));
}

#[test]
fn add_edge_twice_is_a_no_op() {
    let mut network = path_of_three();
    let once = network.clone();
    assert_eq!(network.add_edge(0, 1), Ok(()));
    assert_eq!(network, once);
    assert_eq!(network.add_edge(1, 0), Ok(()));
    assert_eq!(network, once);
}

#[test]
fn remove_edge_twice_is_a_no_op() {
    let mut network = path_of_three();
    assert_eq!(network.remove_edge(0, 1), Ok(()));
    let once = network.clone();
    assert_eq!(network.remove_edge(0, 1), Ok(()));
    assert_eq!(network, once);
    assert_eq!(network.connections(0).unwrap(), &set_of(&[]));
    assert_eq!(network.connections(1).unwrap(), &set_of(&[2]));
}

#[test]
fn remove_edge_between_unlinked_vertices_changes_nothing() {
    let mut network = path_of_three();
    let before = network.clone();
    assert_eq!(network.remove_edge(0, 2), Ok(()));
    assert_eq!(network, before);
}

#[test]
fn remove_vertex_cascades() {
    let mut network = path_of_three();
    network.add_edge(0, 2).unwrap();
    network.remove_vertex(2).unwrap();
    assert!(!network.vertices().contains(&2));
    for y in network.vertices() {
        assert!(!network.connections(*y).unwrap().contains(&2));
    }
    assert_eq!(network.connections(0).unwrap(), &set_of(&[1]));
    assert_eq!(network.connections(1).unwrap(), &set_of(&[0]));
}

#[test]
fn missing_vertices_are_errors() {
    let mut network = path_of_three();
    let before = network.clone();
    assert_eq!(network.add_edge(0, 9), Err(Error::VertexDoesNotExist));
    assert_eq!(network.add_edge(9, 9), Err(Error::VertexDoesNotExist));
    assert_eq!(network.remove_edge(9, 1), Err(Error::VertexDoesNotExist));
    assert_eq!(network.remove_edge(1, 9), Err(Error::VertexDoesNotExist));
    assert_eq!(network.adjacent(9, 8), Err(Error::VertexDoesNotExist));
    assert_eq!(network.remove_vertex(9), Err(Error::VertexDoesNotExist));
    assert_eq!(network, before);
}

#[test]
fn missing_vertices_are_absent_in_lookups() {
    let network = path_of_three();
    assert!(network.get_vertex_value(5).is_none());
    assert!(network.connections(5).is_none());
}

#[test]
fn edge_round_trip() {
    let mut network: BTreeNetwork<usize> = BTreeNetwork::new();
    network.add_vertex(4);
    network.add_vertex(5);
    network.add_edge(4, 5).unwrap();
    assert!(network.adjacent(4, 5).unwrap());
    assert!(network.adjacent(5, 4).unwrap());
    network.remove_edge(4, 5).unwrap();
    assert!(!network.adjacent(4, 5).unwrap());
    assert!(!network.adjacent(5, 4).unwrap());
    assert_eq!(network.vertices().len(), 2);
    assert!(network.vertices().contains(&4));
    assert!(network.vertices().contains(&5));
}

#[test]
fn removing_the_middle_of_a_path() {
    let mut network = path_of_three();
    assert_eq!(network.connections(0).unwrap(), &set_of(&[1]));
    assert_eq!(network.connections(1).unwrap(), &set_of(&[0, 2]));
    assert_eq!(network.connections(2).unwrap(), &set_of(&[1]));
    network.remove_vertex(1).unwrap();
    let exp_vertices: BTreeSet<&usize> = [&0, &2].into_iter().collect();
    assert_eq!(network.vertices(), exp_vertices);
    assert_eq!(network.connections(0).unwrap(), &set_of(&[]));
    assert_eq!(network.connections(2).unwrap(), &set_of(&[]));
}

#[test]
fn empty_network_has_no_vertices_and_no_edges() {
    let mut network: BTreeNetwork<usize> = BTreeNetwork::new();
    assert_eq!(network.vertices().len(), 0);
    assert_eq!(network.add_edge(0, 1), Err(Error::VertexDoesNotExist));
    assert_eq!(network.add_edge(3, 3), Err(Error::VertexDoesNotExist));
    assert_eq!(network.vertices().len(), 0);
}

#[test]
fn self_loops() {
    let mut network: BTreeNetwork<usize> = BTreeNetwork::new();
    network.add_vertex(3);
    network.add_vertex(4);
    network.add_edge(3, 3).unwrap();
    network.add_edge(3, 4).unwrap();
    assert!(network.adjacent(3, 3).unwrap());
    assert_eq!(network.connections(3).unwrap(), &set_of(&[3, 4]));
    network.remove_edge(3, 3).unwrap();
    assert!(!network.adjacent(3, 3).unwrap());
    assert_eq!(network.connections(3).unwrap(), &set_of(&[4]));
    network.add_edge(3, 3).unwrap();
    network.remove_vertex(3).unwrap();
    assert_eq!(network.connections(4).unwrap(), &set_of(&[]));
    assert_eq!(network.vertices().len(), 1);
}

#[test]
fn from_adjacency_accepts_a_network() {
    let mut vertices: BTreeMap<usize, BTreeSet<usize>> = BTreeMap::new();
    vertices.insert(0, set_of(&[1]));
    vertices.insert(1, set_of(&[0]));
    vertices.insert(2, set_of(&[]));
    let network = BTreeNetwork::from_adjacency(vertices.clone()).unwrap();
    assert_eq!(network.adjacency(), &vertices);
    assert!(network.adjacent(0, 1).unwrap());
    assert!(!network.adjacent(1, 2).unwrap());
}

#[test]
fn from_adjacency_rejects_one_sided_edges() {
    let mut vertices: BTreeMap<usize, BTreeSet<usize>> = BTreeMap::new();
    vertices.insert(0, set_of(&[1]));
    vertices.insert(1, set_of(&[]));
    assert!(BTreeNetwork::from_adjacency(vertices).is_none());
}

#[test]
fn from_adjacency_rejects_dangling_neighbours() {
    let mut vertices: BTreeMap<usize, BTreeSet<usize>> = BTreeMap::new();
    vertices.insert(0, set_of(&[5]));
    assert!(BTreeNetwork::from_adjacency(vertices).is_none());
}

#[test]
fn adjacency_mirrors_the_network() {
    let network = path_of_three();
    let mut expected: BTreeMap<usize, BTreeSet<usize>> = BTreeMap::new();
    expected.insert(0, set_of(&[1]));
    expected.insert(1, set_of(&[0, 2]));
    expected.insert(2, set_of(&[1]));
    assert_eq!(network.adjacency(), &expected);
}

#[test]
fn other_label_types() {
    let mut network: BTreeNetwork<i64> = BTreeNetwork::default();
    network.add_vertex(-3);
    network.add_vertex(8);
    network.add_edge(-3, 8).unwrap();
    assert!(network.adjacent(8, -3).unwrap());
    let mut small: BTreeNetwork<u8> = BTreeNetwork::new();
    small.add_vertex(255);
    assert_eq!(small.add_edge(255, 0), Err(Error::VertexDoesNotExist));
}
