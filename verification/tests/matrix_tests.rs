//! Tests of the symbolic CSC scaffolding and the per-link slot quads.

use epanet_rs::network::{IdTable, LinkEnds, NodeKind, CSCIndex};
use epanet_rs::solver::matrix::{
    build_jacobian_scaffold, build_symbolic, find_csc_index, lower_triangle_of,
    variable_numbering,
};

#[test]
fn numbering_partitions_nodes() {
    let kinds = vec![
        NodeKind::Reservoir,
        NodeKind::Junction,
        NodeKind::Tank,
        NodeKind::Junction,
        NodeKind::Junction,
    ];
    let (vi, n_var) = variable_numbering(&kinds);
    assert_eq!(vi, vec![None, Some(0), None, Some(1), Some(2)]);
    assert_eq!(n_var, 3);
    assert!(NodeKind::Reservoir.is_fixed());
    assert!(NodeKind::Tank.is_fixed());
    assert!(!NodeKind::Junction.is_fixed());
}

#[test]
fn symbolic_structure_of_a_path() {
    // Two variable nodes joined by one edge: full 2 by 2 structure.
    let edges = vec![(0usize, 1usize)];
    let sym = build_symbolic(2, &edges);
    assert_eq!(sym.n, 2);
    assert_eq!(sym.col_ptr, vec![0, 2, 4]);
    assert_eq!(sym.row_idx, vec![0, 1, 0, 1]);
    assert_eq!(find_csc_index(&sym, 0, 0), Some(0));
    assert_eq!(find_csc_index(&sym, 1, 0), Some(1));
    assert_eq!(find_csc_index(&sym, 0, 1), Some(2));
    assert_eq!(find_csc_index(&sym, 1, 1), Some(3));
}

#[test]
fn symbolic_structure_without_edges() {
    // Diagonal only.
    let edges: Vec<(usize, usize)> = Vec::new();
    let sym = build_symbolic(3, &edges);
    assert_eq!(sym.col_ptr, vec![0, 1, 2, 3]);
    assert_eq!(sym.row_idx, vec![0, 1, 2]);
    assert_eq!(find_csc_index(&sym, 0, 1), None);
    assert_eq!(find_csc_index(&sym, 1, 1), Some(1));
}

#[test]
fn parallel_edges_merge() {
    let edges = vec![(0usize, 1usize), (1usize, 0usize), (0usize, 1usize)];
    let sym = build_symbolic(2, &edges);
    // The repeated pair contributes one slot per orientation.
    assert_eq!(sym.col_ptr, vec![0, 2, 4]);
    assert_eq!(sym.row_idx, vec![0, 1, 0, 1]);
}

#[test]
fn link_quads_locate_the_four_slots() {
    // A reservoir feeding two junctions in a line: R -- J1 -- J2.
    let kinds = vec![NodeKind::Reservoir, NodeKind::Junction, NodeKind::Junction];
    let links = vec![
        LinkEnds { start_node: 0, end_node: 1 },
        LinkEnds { start_node: 1, end_node: 2 },
    ];
    let scaffold = build_jacobian_scaffold(&kinds, &links);
    assert_eq!(scaffold.variable_index, vec![None, Some(0), Some(1)]);
    assert_eq!(scaffold.n_variable, 2);
    assert_eq!(scaffold.symbolic.col_ptr, vec![0, 2, 4]);
    assert_eq!(scaffold.symbolic.row_idx, vec![0, 1, 0, 1]);
    // Link 0 has a fixed start node: only the end diagonal is present.
    assert_eq!(
        scaffold.link_indices[0],
        CSCIndex { diag_u: None, diag_v: Some(0), off_diag_uv: None, off_diag_vu: None },
    );
    // Link 1 joins the two variable nodes: all four slots are present,
    // and their (row, column) pairs are (0,0), (1,1), (0,1), (1,0).
    assert_eq!(
        scaffold.link_indices[1],
        CSCIndex { diag_u: Some(0), diag_v: Some(3), off_diag_uv: Some(2), off_diag_vu: Some(1) },
    );
}

#[test]
fn quads_of_parallel_links_share_slots() {
    let kinds = vec![NodeKind::Junction, NodeKind::Junction];
    let links = vec![
        LinkEnds { start_node: 0, end_node: 1 },
        LinkEnds { start_node: 0, end_node: 1 },
    ];
    let scaffold = build_jacobian_scaffold(&kinds, &links);
    assert_eq!(scaffold.link_indices[0], scaffold.link_indices[1]);
}

#[test]
fn fully_fixed_link_has_no_slots() {
    let kinds = vec![NodeKind::Reservoir, NodeKind::Tank];
    let links = vec![LinkEnds { start_node: 0, end_node: 1 }];
    let scaffold = build_jacobian_scaffold(&kinds, &links);
    assert_eq!(scaffold.n_variable, 0);
    assert_eq!(scaffold.link_indices[0], CSCIndex::default());
}

#[test]
fn lower_triangle_keeps_the_slot_below_the_diagonal() {
    let kinds = vec![NodeKind::Junction, NodeKind::Junction];
    let links = vec![LinkEnds { start_node: 1, end_node: 0 }];
    let scaffold = build_jacobian_scaffold(&kinds, &links);
    let quad = scaffold.link_indices[0];
    // The link runs from column 1 to column 0, so A[u,v] = A[1,0] is the
    // lower-triangular slot of the pair.
    let lower = lower_triangle_of(Some(1), Some(0), quad);
    assert_eq!(lower.diag_u, quad.diag_u);
    assert_eq!(lower.diag_v, quad.diag_v);
    assert_eq!(lower.off_diag, quad.off_diag_uv);
    assert_eq!(lower.off_diag, Some(1));
    let none = lower_triangle_of(Some(0), None, quad);
    assert_eq!(none.off_diag, None);
}

#[test]
fn id_table_registers_and_rejects_duplicates() {
    let mut table = IdTable::new();
    assert_eq!(table.register("J1"), Ok(0));
    assert_eq!(table.register("J2"), Ok(1));
    assert_eq!(table.index_of("J1"), Some(0));
    assert_eq!(table.index_of("J2"), Some(1));
    assert_eq!(table.index_of("J3"), None);
    assert!(table.register("J1").is_err());
    assert_eq!(table.len(), 2);
}
