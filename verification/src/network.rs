//! The structural side of a network: node kinds, link endpoints, the
//! name-to-index tables, and the per-link quad of precomputed Jacobian
//! slot positions.
//!
//! Elevations, demands, resistances and the other physical quantities are
//! floating-point data of the numeric layer; the library holds the
//! topology and the indices the solver is built on.

use vstd::prelude::*;
use vstd::string::StrSliceExecFns;
use vstd::string::StringExecFns;
use crate::error::InputError;
use crate::utils::text::str_eq;

verus! {

/// The three node kinds.  Reservoirs and tanks have a fixed head within a
/// time step; junctions are the variable nodes of the Jacobian.
#[derive(Debug, PartialEq, Eq, Structural, Clone, Copy)]
pub enum NodeKind {
    Junction,
    Reservoir,
    Tank,
}

impl NodeKind {
    /// A reservoir or tank holds its head fixed within a time step; only
    /// junction heads are unknowns.
    pub fn is_fixed(&self) -> (r: bool)
        ensures
            r == !(self is Junction),
    {
        match self {
            NodeKind::Junction => false,
            NodeKind::Reservoir => true,
            NodeKind::Tank => true,
        }
    }
}

/// A link's two endpoints, as indices into the node array.
#[derive(Debug, PartialEq, Eq, Structural, Clone, Copy)]
pub struct LinkEnds {
    pub start_node: usize,
    pub end_node: usize,
}

/// Positions, within the CSC value array of the Jacobian, of the four
/// contributions of one link with endpoints `(u, v)`: the two diagonal
/// slots and the two off-diagonal slots.  A position is `None` when the
/// corresponding endpoint is a fixed-head node, which is eliminated from
/// the unknowns.
#[derive(Debug, PartialEq, Eq, Structural, Clone, Copy)]
pub struct CSCIndex {
    /// Slot of `A[u,u]`.
    pub diag_u: Option<usize>,
    /// Slot of `A[v,v]`.
    pub diag_v: Option<usize>,
    /// Slot of `A[u,v]`.
    pub off_diag_uv: Option<usize>,
    /// Slot of `A[v,u]`.
    pub off_diag_vu: Option<usize>,
}

impl Default for CSCIndex {
    /// The quad before any slot has been located.
    fn default() -> (r: CSCIndex)
        ensures
            r.diag_u is None,
            r.diag_v is None,
            r.off_diag_uv is None,
            r.off_diag_vu is None,
    {
        CSCIndex { diag_u: None, diag_v: None, off_diag_uv: None, off_diag_vu: None }
    }
}

/// Every link endpoint names a node and no link loops back to its own
/// start.
pub open spec fn links_valid(n_nodes: int, links: Seq<LinkEnds>) -> bool {
    forall|l: int|
        0 <= l < links.len() ==> (#[trigger] links[l]).start_node < n_nodes
            && links[l].end_node < n_nodes && links[l].start_node != links[l].end_node
}

/// Check the link table against the node count: exactly the tables whose
/// endpoints all name nodes and differ pairwise are accepted; anything
/// else is a fatal topology error.
pub fn validate_topology(n_nodes: usize, links: &Vec<LinkEnds>) -> (r: Result<(), InputError>)
    ensures
        r is Ok <==> links_valid(n_nodes as int, links@),
{
    let m = links.len();
    let mut l: usize = 0;
    while l < m
        invariant
            m == links@.len(),
            0 <= l <= m,
            forall|j: int|
                0 <= j < l ==> (#[trigger] links@[j]).start_node < n_nodes
                    && links@[j].end_node < n_nodes && links@[j].start_node != links@[j].end_node,
        decreases m - l,
    {
        let ln = links[l];
        if ln.start_node >= n_nodes || ln.end_node >= n_nodes {
            return Err(InputError::new(String::from_str("Link endpoint is not a node")));
        }
        if ln.start_node == ln.end_node {
            return Err(InputError::new(String::from_str("Link endpoints coincide")));
        }
        l += 1;
    }
    Ok(())
}

/// Number of links incident to node `n` among the first `upto` links; a
/// link counts once even when both of its endpoints are `n`.
pub open spec fn degree_count(links: Seq<LinkEnds>, n: int, upto: int) -> int
    decreases upto,
{
    if upto <= 0 {
        0
    } else {
        degree_count(links, n, upto - 1) + if links[upto - 1].start_node == n || links[upto
            - 1].end_node == n {
            1int
        } else {
            0int
        }
    }
}

/// A node's degree never exceeds the number of links counted.
pub proof fn lemma_degree_count_le(links: Seq<LinkEnds>, n: int, upto: int)
    requires
        0 <= upto,
    ensures
        0 <= degree_count(links, n, upto) <= upto,
    decreases upto,
{
    if upto > 0 {
        lemma_degree_count_le(links, n, upto - 1);
    }
}

/// The degree of every node: how many links touch it.  A node of degree
/// zero cannot appear in any balance equation, which is a fatal topology
/// error the caller reports.
pub fn node_degrees(n_nodes: usize, links: &Vec<LinkEnds>) -> (r: Vec<usize>)
    requires
        links_valid(n_nodes as int, links@),
    ensures
        r@.len() == n_nodes,
        forall|n: int|
            0 <= n < n_nodes ==> r@[n] == degree_count(links@, n, links@.len() as int),
{
    let m = links.len();
    let mut degrees: Vec<usize> = Vec::new();
    let mut n: usize = 0;
    while n < n_nodes
        invariant
            m == links@.len(),
            n <= n_nodes,
            degrees@.len() == n,
            forall|j: int| 0 <= j < n ==> degrees@[j] == degree_count(links@, j, links@.len() as int),
        decreases n_nodes - n,
    {
        let mut count: usize = 0;
        let mut l: usize = 0;
        while l < m
            invariant
                m == links@.len(),
                0 <= l <= m,
                count == degree_count(links@, n as int, l as int),
            decreases m - l,
        {
            proof {
                lemma_degree_count_le(links@, n as int, l as int);
            }
            let ln = links[l];
            if ln.start_node == n || ln.end_node == n {
                count += 1;
            }
            l += 1;
        }
        degrees.push(count);
        n += 1;
    }
    degrees
}

/// The first node no link touches, or `None` when every node has a
/// degree.
pub fn first_isolated_node(n_nodes: usize, links: &Vec<LinkEnds>) -> (r: Option<usize>)
    requires
        links_valid(n_nodes as int, links@),
    ensures
        match r {
            Some(n) => n < n_nodes && degree_count(links@, n as int, links@.len() as int) == 0,
            None => forall|n: int|
                0 <= n < n_nodes ==> degree_count(links@, n, links@.len() as int) > 0,
        },
{
    let degrees = node_degrees(n_nodes, links);
    let mut n: usize = 0;
    while n < n_nodes
        invariant
            n <= n_nodes,
            degrees@.len() == n_nodes,
            forall|j: int|
                0 <= j < degrees@.len() ==> degrees@[j] == degree_count(
                    links@,
                    j,
                    links@.len() as int,
                ),
            forall|j: int| 0 <= j < n ==> degree_count(links@, j, links@.len() as int) > 0,
        decreases n_nodes - n,
    {
        if degrees[n] == 0 {
            return Some(n);
        }
        n += 1;
    }
    None
}

/// The list holds, in ascending order, exactly the links whose chosen
/// endpoint — the start when `from_side`, the end otherwise — is node
/// `n`.
pub open spec fn incident_list_ok(
    links: Seq<LinkEnds>,
    lst: Seq<usize>,
    n: int,
    from_side: bool,
) -> bool {
    &&& forall|k: int|
        0 <= k < lst.len() ==> (#[trigger] lst[k]) < links.len() && (if from_side {
            links[lst[k] as int].start_node == n
        } else {
            links[lst[k] as int].end_node == n
        })
    &&& forall|k1: int, k2: int| 0 <= k1 < k2 < lst.len() ==> lst[k1] < lst[k2]
    &&& forall|l: int|
        0 <= l < links.len() && (if from_side {
            links[l].start_node == n
        } else {
            links[l].end_node == n
        }) ==> exists|k: int| 0 <= k < lst.len() && (#[trigger] lst[k]) == l
}

/// A membership witness survives a push on the right.
pub proof fn lemma_push_keeps_membership(s: Seq<usize>, x: usize, l: int)
    requires
        exists|k: int| 0 <= k < s.len() && (#[trigger] s[k]) == l,
    ensures
        exists|k: int| 0 <= k < s.push(x).len() && (#[trigger] s.push(x)[k]) == l,
{
    let k = choose|k: int| 0 <= k < s.len() && (#[trigger] s[k]) == l;
    assert(s.push(x)[k] == l);
}

/// The adjacency the solver and the tank integrator consume: for each
/// node, the links directed out of it and the links directed into it,
/// each list in link order.
#[derive(Debug)]
pub struct Adjacency {
    /// For each node, the links whose start is that node.
    pub links_from: Vec<Vec<usize>>,
    /// For each node, the links whose end is that node.
    pub links_to: Vec<Vec<usize>>,
}

/// Build the node-to-incident-links index.  Runs once per topology; the
/// solver's hot path then reads the resolved indices and never searches.
#[verifier::loop_isolation(false)]
pub fn incident_links(n_nodes: usize, links: &Vec<LinkEnds>) -> (r: Adjacency)
    requires
        links_valid(n_nodes as int, links@),
    ensures
        r.links_from@.len() == n_nodes,
        r.links_to@.len() == n_nodes,
        forall|n: int|
            0 <= n < n_nodes ==> incident_list_ok(links@, (#[trigger] r.links_from@[n])@, n, true),
        forall|n: int|
            0 <= n < n_nodes ==> incident_list_ok(links@, (#[trigger] r.links_to@[n])@, n, false),
{
    let m = links.len();
    let mut links_from: Vec<Vec<usize>> = Vec::new();
    let mut links_to: Vec<Vec<usize>> = Vec::new();
    let mut n: usize = 0;
    while n < n_nodes
        invariant
            n <= n_nodes,
            links_from@.len() == n,
            links_to@.len() == n,
            forall|j: int|
                0 <= j < n ==> incident_list_ok(links@, (#[trigger] links_from@[j])@, j, true),
            forall|j: int|
                0 <= j < n ==> incident_list_ok(links@, (#[trigger] links_to@[j])@, j, false),
        decreases n_nodes - n,
    {
        let mut from_list: Vec<usize> = Vec::new();
        let mut to_list: Vec<usize> = Vec::new();
        let mut l: usize = 0;
        while l < m
            invariant
                0 <= l <= m,
                forall|k: int|
                    0 <= k < from_list@.len() ==> (#[trigger] from_list@[k]) < l
                        && links@[from_list@[k] as int].start_node == n,
                forall|k1: int, k2: int|
                    0 <= k1 < k2 < from_list@.len() ==> from_list@[k1] < from_list@[k2],
                forall|ll: int|
                    0 <= ll < l && links@[ll].start_node == n ==> exists|k: int|
                        0 <= k < from_list@.len() && (#[trigger] from_list@[k]) == ll,
                forall|k: int|
                    0 <= k < to_list@.len() ==> (#[trigger] to_list@[k]) < l
                        && links@[to_list@[k] as int].end_node == n,
                forall|k1: int, k2: int|
                    0 <= k1 < k2 < to_list@.len() ==> to_list@[k1] < to_list@[k2],
                forall|ll: int|
                    0 <= ll < l && links@[ll].end_node == n ==> exists|k: int|
                        0 <= k < to_list@.len() && (#[trigger] to_list@[k]) == ll,
            decreases m - l,
        {
            let ln = links[l];
            let ghost from_before = from_list@;
            let ghost to_before = to_list@;
            if ln.start_node == n {
                from_list.push(l);
            }
            if ln.end_node == n {
                to_list.push(l);
            }
            proof {
                assert forall|ll: int|
                    0 <= ll < l + 1 && links@[ll].start_node == n implies exists|k: int|
                    0 <= k < from_list@.len() && (#[trigger] from_list@[k]) == ll by {
                    if ll < l {
                        if from_list@ != from_before {
                            lemma_push_keeps_membership(from_before, l, ll);
                        }
                    } else {
                        assert(from_list@[from_list@.len() - 1] == ll);
                    }
                }
                assert forall|ll: int|
                    0 <= ll < l + 1 && links@[ll].end_node == n implies exists|k: int|
                    0 <= k < to_list@.len() && (#[trigger] to_list@[k]) == ll by {
                    if ll < l {
                        if to_list@ != to_before {
                            lemma_push_keeps_membership(to_before, l, ll);
                        }
                    } else {
                        assert(to_list@[to_list@.len() - 1] == ll);
                    }
                }
            }
            l += 1;
        }
        links_from.push(from_list);
        links_to.push(to_list);
        n += 1;
    }
    Adjacency { links_from, links_to }
}

/// No two identifiers of the table read the same.
pub open spec fn distinct_ids(ids: Seq<String>) -> bool {
    forall|i: int, j: int| 0 <= i < j < ids.len() ==> ids[i]@ != ids[j]@
}

/// A name-to-index table for one entity kind.  Identifiers are stored in
/// insertion order, so the name of index `i` is `ids[i]` and the map is a
/// bijection between the stored names and `0..len`.  Lookups walk the
/// table; they happen only while the input is read, never on the solver's
/// hot path, which works with the resolved indices.
#[derive(Debug)]
pub struct IdTable {
    pub ids: Vec<String>,
}

impl IdTable {
    /// The table invariant: all stored identifiers are distinct.
    pub open spec fn wf(&self) -> bool {
        distinct_ids(self.ids@)
    }

    /// An empty table.
    pub fn new() -> (r: IdTable)
        ensures
            r.wf(),
            r.ids@.len() == 0,
    {
        IdTable { ids: Vec::new() }
    }

    /// Number of registered identifiers.
    pub fn len(&self) -> (r: usize)
        ensures
            r == self.ids@.len(),
    {
        self.ids.len()
    }

    /// The index an identifier resolves to, or `None` when it was never
    /// registered.
    pub fn index_of(&self, id: &str) -> (r: Option<usize>)
        ensures
            match r {
                Some(i) => i < self.ids@.len() && self.ids@[i as int]@ == id@,
                None => forall|j: int| 0 <= j < self.ids@.len() ==> self.ids@[j]@ != id@,
            },
    {
        let n = self.ids.len();
        let mut j: usize = 0;
        while j < n
            invariant
                n == self.ids@.len(),
                0 <= j <= n,
                forall|k: int| 0 <= k < j ==> self.ids@[k]@ != id@,
            decreases n - j,
        {
            if str_eq(self.ids[j].as_str(), id) {
                return Some(j);
            }
            j += 1;
        }
        None
    }

    /// Register a new identifier and hand back its index, which is the
    /// next free one; a name already in the table is rejected and the
    /// table is left unchanged.
    pub fn register(&mut self, id: &str) -> (r: Result<usize, String>)
        requires
            old(self).wf(),
        ensures
            final(self).wf(),
            match r {
                Ok(k) => {
                    &&& k == old(self).ids@.len()
                    &&& final(self).ids@.len() == old(self).ids@.len() + 1
                    &&& (forall|j: int|
                        0 <= j < old(self).ids@.len() ==> final(self).ids@[j] == old(self).ids@[j])
                    &&& final(self).ids@[k as int]@ == id@
                    &&& forall|j: int| 0 <= j < old(self).ids@.len() ==> old(self).ids@[j]@ != id@
                },
                Err(_) => {
                    &&& *final(self) == *old(self)
                    &&& exists|j: int| 0 <= j < old(self).ids@.len() && old(self).ids@[j]@ == id@
                },
            },
    {
        match self.index_of(id) {
            Some(_) => Err(String::from_str(id).concat(" already exists")),
            None => {
                let k = self.ids.len();
                self.ids.push(id.to_owned());
                Ok(k)
            },
        }
    }
}

} // verus!
