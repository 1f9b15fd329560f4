//! Tests of topology validation, degrees and adjacency.

use epanet_rs::network::{
    first_isolated_node, incident_links, node_degrees, validate_topology, LinkEnds,
};

fn link(s: usize, e: usize) -> LinkEnds {
    LinkEnds { start_node: s, end_node: e }
}

#[test]
fn topology_validation() {
    let good = vec![link(0, 1), link(1, 2)];
    assert!(validate_topology(3, &good).is_ok());
    // An endpoint past the node table is rejected.
    let dangling = vec![link(0, 3)];
    assert!(validate_topology(3, &dangling).is_err());
    // A loop from a node to itself is rejected.
    let looped = vec![link(1, 1)];
    assert!(validate_topology(3, &looped).is_err());
    assert!(validate_topology(0, &Vec::new()).is_ok());
}

#[test]
fn degrees_count_incident_links() {
    let links = vec![link(0, 1), link(1, 2), link(1, 3)];
    assert_eq!(node_degrees(5, &links), vec![1, 3, 1, 1, 0]);
    assert_eq!(first_isolated_node(5, &links), Some(4));
    assert_eq!(first_isolated_node(4, &links), None);
}

#[test]
fn adjacency_lists_follow_link_direction() {
    let links = vec![link(0, 1), link(1, 2), link(0, 2), link(2, 1)];
    let adj = incident_links(3, &links);
    assert_eq!(adj.links_from, vec![vec![0, 2], vec![1], vec![3]]);
    assert_eq!(adj.links_to, vec![vec![], vec![0, 3], vec![1, 2]]);
}
