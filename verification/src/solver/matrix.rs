//! Symbolic CSC scaffolding of the GGA Jacobian.
//!
//! The Jacobian of the Global Gradient Algorithm is symmetric with the
//! structure of the node-node adjacency, restricted to the variable
//! (junction) nodes; fixed-head nodes are eliminated from the unknowns.
//! This module numbers the variable nodes, builds the symbolic CSC
//! structure — every diagonal slot plus one slot per ordered pair of
//! adjacent variable nodes, with parallel links merged — and precomputes,
//! for every link, the positions of its four contributions in the value
//! array, so that numeric assembly is four indexed additions per link.

use vstd::prelude::*;
use crate::network::{LinkEnds, NodeKind};

verus! {

/// Offset `k` lies in column `c` of the structure with column pointers
/// `cp`.
pub open spec fn in_col(cp: Seq<usize>, k: int, c: int) -> bool {
    cp[c] <= k < cp[c + 1]
}

/// Well-formed CSC column structure of an `n` by `n` matrix: `cp` holds
/// the `n + 1` column start offsets, nondecreasing from `0` to the number
/// of stored slots, and within each column the row indices are strictly
/// increasing and below `n`.
pub open spec fn csc_wf(n: int, cp: Seq<usize>, ri: Seq<usize>) -> bool {
    &&& n >= 0
    &&& cp.len() == n + 1
    &&& cp[0] == 0
    &&& forall|c1: int, c2: int|
        #![trigger cp[c1], cp[c2]]
        0 <= c1 <= c2 <= n ==> cp[c1] <= cp[c2]
    &&& cp[n] == ri.len()
    &&& forall|c: int, k: int|
        #![trigger in_col(cp, k, c)]
        0 <= c < n && in_col(cp, k, c) ==> 0 <= k < ri.len() && ri[k] < n
    &&& forall|c: int, k1: int, k2: int|
        #![trigger in_col(cp, k1, c), in_col(cp, k2, c)]
        0 <= c < n && in_col(cp, k1, c) && in_col(cp, k2, c) && k1 < k2 ==> ri[k1] < ri[k2]
}

/// Offset `k` of the value array is the slot of row `r` in column `c`.
pub open spec fn csc_slot(cp: Seq<usize>, ri: Seq<usize>, k: int, r: int, c: int) -> bool {
    &&& 0 <= c < cp.len() - 1
    &&& in_col(cp, k, c)
    &&& 0 <= k < ri.len()
    &&& ri[k] == r
}

/// Some offset is the slot of row `r` in column `c`.
pub open spec fn csc_has(cp: Seq<usize>, ri: Seq<usize>, r: int, c: int) -> bool {
    exists|k: int| csc_slot(cp, ri, k, r, c)
}

/// The symbolic CSC structure of the Jacobian: column pointers and row
/// indices only; the value array lives with the numeric layer.
#[derive(Debug)]
pub struct CscSymbolic {
    /// Matrix dimension: the number of variable nodes.
    pub n: usize,
    /// Column start offsets, `n + 1` of them.
    pub col_ptr: Vec<usize>,
    /// Row index of each stored slot, column by column.
    pub row_idx: Vec<usize>,
}

impl CscSymbolic {
    /// The structure invariant.
    pub open spec fn wf(&self) -> bool {
        csc_wf(self.n as int, self.col_ptr@, self.row_idx@)
    }

    /// Offset `k` is the slot of row `r` in column `c`.
    pub open spec fn is_slot(&self, k: int, r: int, c: int) -> bool {
        csc_slot(self.col_ptr@, self.row_idx@, k, r, c)
    }

    /// The structure stores a slot for row `r` in column `c`.
    pub open spec fn has_entry(&self, r: int, c: int) -> bool {
        csc_has(self.col_ptr@, self.row_idx@, r, c)
    }
}

/// Find the offset of the slot of row `row` in column `col`, scanning the
/// column as the slots of a column are few; `None` exactly when the
/// structure stores no such slot.
#[verifier::rlimit(50)]
pub fn find_csc_index(sym: &CscSymbolic, row: usize, col: usize) -> (r: Option<usize>)
    requires
        sym.wf(),
        col < sym.n,
    ensures
        match r {
            Some(k) => sym.is_slot(k as int, row as int, col as int),
            None => !sym.has_entry(row as int, col as int),
        },
{
    let start = sym.col_ptr[col];
    let end = sym.col_ptr[col + 1];
    let mut k = start;
    while k < end
        invariant
            sym.wf(),
            col < sym.n,
            start == sym.col_ptr@[col as int],
            end == sym.col_ptr@[col as int + 1],
            start <= k <= end,
            end <= sym.row_idx@.len(),
            forall|m: int| start <= m < k ==> sym.row_idx@[m] != row,
        decreases end - k,
    {
        if sym.row_idx[k] == row {
            return Some(k);
        }
        k += 1;
    }
    None
}

/// Some edge of the list joins `a` and `b`, in either orientation.
pub open spec fn edge_connects(edges: Seq<(usize, usize)>, a: int, b: int) -> bool {
    exists|k: int|
        0 <= k < edges.len() && ((#[trigger] edges[k]).0 == a && edges[k].1 == b || edges[k].0 == b
            && edges[k].1 == a)
}

/// Extending the edge prefix by one edge adds exactly the connections of
/// that edge.
pub proof fn lemma_edge_connects_step(edges: Seq<(usize, usize)>, e: int, a: int, b: int)
    requires
        0 <= e < edges.len(),
    ensures
        edge_connects(edges.take(e + 1), a, b) <==> (edge_connects(edges.take(e), a, b) || (
        edges[e].0 == a && edges[e].1 == b) || (edges[e].0 == b && edges[e].1 == a)),
{
    let s1 = edges.take(e + 1);
    let s0 = edges.take(e);
    if edge_connects(s1, a, b) {
        let k = choose|k: int|
            0 <= k < s1.len() && ((#[trigger] s1[k]).0 == a && s1[k].1 == b || s1[k].0 == b
                && s1[k].1 == a);
        if k < e {
            assert(s0[k] == s1[k]);
            assert(edge_connects(s0, a, b));
        } else {
            assert(s1[k] == edges[e]);
        }
    }
    if edge_connects(s0, a, b) {
        let k = choose|k: int|
            0 <= k < s0.len() && ((#[trigger] s0[k]).0 == a && s0[k].1 == b || s0[k].0 == b
                && s0[k].1 == a);
        assert(s1[k] == s0[k]);
        assert(edge_connects(s1, a, b));
    }
    if (edges[e].0 == a && edges[e].1 == b) || (edges[e].0 == b && edges[e].1 == a) {
        assert(s1[e] == edges[e]);
        assert(edge_connects(s1, a, b));
    }
}

/// Appending a new column to a CSC structure leaves the slots of the
/// existing columns as they were.
pub proof fn lemma_csc_old_col(
    old_cp: Seq<usize>,
    old_ri: Seq<usize>,
    new_cp: Seq<usize>,
    new_ri: Seq<usize>,
    x: usize,
    c: int,
    a: int,
    cc: int,
)
    requires
        0 <= cc < c,
        old_cp.len() == c + 1,
        new_cp == old_cp.push(x),
        forall|c1: int, c2: int|
            #![trigger old_cp[c1], old_cp[c2]]
            0 <= c1 <= c2 <= c ==> old_cp[c1] <= old_cp[c2],
        old_cp[c] == old_ri.len(),
        old_ri.len() <= new_ri.len(),
        forall|k: int| 0 <= k < old_ri.len() ==> new_ri[k] == old_ri[k],
    ensures
        csc_has(new_cp, new_ri, a, cc) <==> csc_has(old_cp, old_ri, a, cc),
{
    assert(new_cp[cc] == old_cp[cc]);
    assert(new_cp[cc + 1] == old_cp[cc + 1]);
    assert(old_cp[cc + 1] <= old_cp[c]);
    if csc_has(old_cp, old_ri, a, cc) {
        let k = choose|k: int| csc_slot(old_cp, old_ri, k, a, cc);
        assert(new_ri[k] == old_ri[k]);
        assert(csc_slot(new_cp, new_ri, k, a, cc));
    }
    if csc_has(new_cp, new_ri, a, cc) {
        let k = choose|k: int| csc_slot(new_cp, new_ri, k, a, cc);
        assert(k < old_ri.len());
        assert(new_ri[k] == old_ri[k]);
        assert(csc_slot(old_cp, old_ri, k, a, cc));
    }
}

/// The column just appended holds exactly the marked rows.
pub proof fn lemma_csc_new_col(
    old_cp: Seq<usize>,
    old_ri: Seq<usize>,
    new_cp: Seq<usize>,
    new_ri: Seq<usize>,
    x: usize,
    rows: Seq<usize>,
    mark: Seq<bool>,
    c: int,
    a: int,
)
    requires
        0 <= c,
        old_cp.len() == c + 1,
        old_cp[c] == old_ri.len(),
        new_ri == old_ri + rows,
        new_cp == old_cp.push(x),
        x == new_ri.len(),
        0 <= a < mark.len(),
        forall|k: int|
            0 <= k < rows.len() ==> (#[trigger] rows[k]) < mark.len() && mark[rows[k] as int],
        forall|i: int|
            0 <= i < mark.len() && mark[i] ==> exists|k: int|
                0 <= k < rows.len() && (#[trigger] rows[k]) == i,
    ensures
        csc_has(new_cp, new_ri, a, c) <==> mark[a],
{
    let base = old_ri.len() as int;
    assert(new_cp[c] == old_cp[c]);
    assert(new_cp[c + 1] == x);
    if mark[a] {
        let k = choose|k: int| 0 <= k < rows.len() && (#[trigger] rows[k]) == a;
        assert(new_ri[base + k] == rows[k]);
        assert(csc_slot(new_cp, new_ri, base + k, a, c));
    }
    if csc_has(new_cp, new_ri, a, c) {
        let k = choose|k: int| csc_slot(new_cp, new_ri, k, a, c);
        assert(base <= k < new_ri.len());
        assert(new_ri[k] == rows[k - base]);
        assert(mark[rows[k - base] as int]);
    }
}

/// Build the symbolic CSC structure of the reduced Jacobian: an `n` by
/// `n` matrix with every diagonal slot, plus the slots `(a, c)` and
/// `(c, a)` for every edge joining the variable nodes `a` and `c`.
/// Parallel edges merge into one slot.  Runs once per topology, before
/// any numeric work.
#[verifier::loop_isolation(false)]
#[verifier::rlimit(100)]
pub fn build_symbolic(n: usize, edges: &Vec<(usize, usize)>) -> (r: CscSymbolic)
    requires
        forall|k: int| 0 <= k < edges@.len() ==> (#[trigger] edges@[k]).0 < n && edges@[k].1 < n,
    ensures
        r.wf(),
        r.n == n,
        forall|a: int, c: int|
            0 <= a < n && 0 <= c < n ==> (r.has_entry(a, c) <==> (a == c || edge_connects(
                edges@,
                a,
                c,
            ))),
{
    let mut col_ptr: Vec<usize> = Vec::new();
    col_ptr.push(0);
    let mut row_idx: Vec<usize> = Vec::new();
    let m = edges.len();
    let mut c: usize = 0;
    while c < n
        invariant
            c <= n,
            col_ptr@.len() == c + 1,
            col_ptr@[0] == 0,
            forall|c1: int, c2: int|
                #![trigger col_ptr@[c1], col_ptr@[c2]]
                0 <= c1 <= c2 <= c ==> col_ptr@[c1] <= col_ptr@[c2],
            col_ptr@[c as int] == row_idx@.len(),
            forall|cc: int, k: int|
                #![trigger in_col(col_ptr@, k, cc)]
                0 <= cc < c && in_col(col_ptr@, k, cc) ==> 0 <= k < row_idx@.len()
                    && row_idx@[k] < n,
            forall|cc: int, k1: int, k2: int|
                #![trigger in_col(col_ptr@, k1, cc), in_col(col_ptr@, k2, cc)]
                0 <= cc < c && in_col(col_ptr@, k1, cc) && in_col(col_ptr@, k2, cc) && k1 < k2
                    ==> row_idx@[k1] < row_idx@[k2],
            forall|a: int, cc: int|
                #![trigger csc_has(col_ptr@, row_idx@, a, cc)]
                0 <= a < n && 0 <= cc < c ==> (csc_has(col_ptr@, row_idx@, a, cc) <==> (a == cc
                    || edge_connects(edges@, a, cc))),
        decreases n - c,
    {
        // Mark the neighbors of column c.
        let mut mark: Vec<bool> = Vec::new();
        let mut t: usize = 0;
        while t < n
            invariant
                t <= n,
                mark@.len() == t,
                forall|i: int| 0 <= i < t ==> mark@[i] == false,
            decreases n - t,
        {
            mark.push(false);
            t += 1;
        }
        let mut e: usize = 0;
        while e < m
            invariant
                e <= m,
                mark@.len() == n,
                forall|i: int|
                    0 <= i < n ==> (mark@[i] <==> edge_connects(edges@.take(e as int), i, c as int)),
            decreases m - e,
        {
            let (a, b) = edges[e];
            if a == c {
                mark[b] = true;
            }
            if b == c {
                mark[a] = true;
            }
            proof {
                assert forall|i: int|
                    0 <= i < n implies (mark@[i] <==> edge_connects(
                    edges@.take(e + 1),
                    i,
                    c as int,
                )) by {
                    lemma_edge_connects_step(edges@, e as int, i, c as int);
                }
            }
            e += 1;
        }
        proof {
            assert(edges@.take(m as int) =~= edges@);
        }
        mark[c] = true;
        assert forall|i: int|
            0 <= i < n implies (mark@[i] <==> (i == c || edge_connects(edges@, i, c as int))) by {
        }
        // Sweep the rows in ascending order: the column comes out sorted
        // and without repeats.
        let mut col_rows: Vec<usize> = Vec::new();
        let mut rr: usize = 0;
        while rr < n
            invariant
                rr <= n,
                forall|k: int| 0 <= k < col_rows@.len() ==> (#[trigger] col_rows@[k]) < rr,
                forall|k1: int, k2: int|
                    0 <= k1 < k2 < col_rows@.len() ==> col_rows@[k1] < col_rows@[k2],
                forall|k: int| 0 <= k < col_rows@.len() ==> mark@[(#[trigger] col_rows@[k]) as int],
                forall|i: int|
                    0 <= i < rr && mark@[i] ==> exists|k: int|
                        0 <= k < col_rows@.len() && (#[trigger] col_rows@[k]) == i,
            decreases n - rr,
        {
            let ghost before = col_rows@;
            if mark[rr] {
                col_rows.push(rr);
            }
            proof {
                assert forall|i: int|
                    0 <= i < rr + 1 && mark@[i] implies exists|k: int|
                    0 <= k < col_rows@.len() && (#[trigger] col_rows@[k]) == i by {
                    if i < rr {
                        let k0 = choose|k0: int|
                            0 <= k0 < before.len() && (#[trigger] before[k0]) == i;
                        assert(col_rows@[k0] == i);
                    } else {
                        assert(col_rows@[col_rows@.len() - 1] == i);
                    }
                }
            }
            rr += 1;
        }
        let ghost old_cp = col_ptr@;
        let ghost old_ri = row_idx@;
        let ghost rows = col_rows@;
        let base = row_idx.len();
        row_idx.append(&mut col_rows);
        let next = row_idx.len();
        col_ptr.push(next);
        proof {
            assert(old_cp[c as int] == old_ri.len());
            assert(old_ri.len() == base);
            assert(next == base + rows.len());
            assert forall|k: int| 0 <= k < old_ri.len() implies row_idx@[k] == old_ri[k] by {}
            assert forall|a: int, cc: int|
                #![trigger csc_has(col_ptr@, row_idx@, a, cc)]
                0 <= a < n && 0 <= cc < c + 1 implies (csc_has(col_ptr@, row_idx@, a, cc) <==> (a
                == cc || edge_connects(edges@, a, cc))) by {
                if cc < c {
                    lemma_csc_old_col(
                        old_cp,
                        old_ri,
                        col_ptr@,
                        row_idx@,
                        next,
                        c as int,
                        a,
                        cc,
                    );
                } else {
                    lemma_csc_new_col(
                        old_cp,
                        old_ri,
                        col_ptr@,
                        row_idx@,
                        next,
                        rows,
                        mark@,
                        c as int,
                        a,
                    );
                }
            }
            assert forall|cc: int, k: int|
                0 <= cc < c + 1 && in_col(col_ptr@, k, cc) implies 0 <= k < row_idx@.len()
                && row_idx@[k] < n by {
                if cc < c {
                    assert(col_ptr@[cc] == old_cp[cc]);
                    assert(col_ptr@[cc + 1] == old_cp[cc + 1]);
                    assert(in_col(old_cp, k, cc));
                } else {
                    assert(col_ptr@[cc] == base);
                    assert(col_ptr@[cc + 1] == next);
                    assert(row_idx@[k] == rows[k - base]);
                }
            }
            assert forall|cc: int, k1: int, k2: int|
                0 <= cc < c + 1 && in_col(col_ptr@, k1, cc) && in_col(col_ptr@, k2, cc) && k1
                < k2 implies row_idx@[k1] < row_idx@[k2] by {
                if cc < c {
                    assert(col_ptr@[cc] == old_cp[cc]);
                    assert(col_ptr@[cc + 1] == old_cp[cc + 1]);
                    assert(in_col(old_cp, k1, cc));
                    assert(in_col(old_cp, k2, cc));
                } else {
                    assert(col_ptr@[cc] == base);
                    assert(col_ptr@[cc + 1] == next);
                    assert(row_idx@[k1] == rows[k1 - base]);
                    assert(row_idx@[k2] == rows[k2 - base]);
                }
            }
        }
        c += 1;
    }
    CscSymbolic { n, col_ptr, row_idx }
}

/// A connection already listed keeps connecting after one more edge is
/// appended.
pub proof fn lemma_edge_connects_push(edges: Seq<(usize, usize)>, e: (usize, usize), a: int, b: int)
    requires
        edge_connects(edges, a, b),
    ensures
        edge_connects(edges.push(e), a, b),
{
    let k = choose|k: int|
        0 <= k < edges.len() && ((#[trigger] edges[k]).0 == a && edges[k].1 == b || edges[k].0 == b
            && edges[k].1 == a);
    assert(edges.push(e)[k] == edges[k]);
    assert(edge_connects(edges.push(e), a, b));
}

/// Number of junctions among the first `i` nodes: the column a junction
/// at position `i` is assigned is the junction count before it.
pub open spec fn junctions_before(kinds: Seq<NodeKind>, i: int) -> int
    decreases i,
{
    if i <= 0 {
        0
    } else {
        junctions_before(kinds, i - 1) + if kinds[i - 1] is Junction {
            1int
        } else {
            0int
        }
    }
}

/// The junction count over a prefix is between zero and the prefix
/// length, and does not decrease along the array.
pub proof fn lemma_junctions_before_le(kinds: Seq<NodeKind>, i: int, j: int)
    requires
        0 <= i <= j,
    ensures
        0 <= junctions_before(kinds, i) <= junctions_before(kinds, j) <= j,
    decreases j,
{
    if j > 0 {
        if i == j {
            lemma_junctions_before_le(kinds, i - 1, j - 1);
        } else {
            lemma_junctions_before_le(kinds, i, j - 1);
        }
    }
}

/// A junction's column is strictly below the total junction count.
pub proof fn lemma_junction_column_in_range(kinds: Seq<NodeKind>, i: int)
    requires
        0 <= i < kinds.len(),
        kinds[i] is Junction,
    ensures
        junctions_before(kinds, i) < junctions_before(kinds, kinds.len() as int),
{
    lemma_junctions_before_le(kinds, i + 1, kinds.len() as int);
}

/// Partition the nodes: junctions get the next free column of the reduced
/// system, in node order; fixed-head nodes get none.  Returns the
/// node-to-column assignment and the number of variable nodes.
pub fn variable_numbering(kinds: &Vec<NodeKind>) -> (r: (Vec<Option<usize>>, usize))
    ensures
        r.0@.len() == kinds@.len(),
        r.1 == junctions_before(kinds@, kinds@.len() as int),
        forall|i: int|
            0 <= i < kinds@.len() ==> r.0@[i] == (if kinds@[i] is Junction {
                Some(junctions_before(kinds@, i) as usize)
            } else {
                None::<usize>
            }),
{
    let n = kinds.len();
    let mut out: Vec<Option<usize>> = Vec::new();
    let mut count: usize = 0;
    let mut i: usize = 0;
    while i < n
        invariant
            n == kinds@.len(),
            0 <= i <= n,
            out@.len() == i,
            count == junctions_before(kinds@, i as int),
            forall|j: int|
                0 <= j < i ==> out@[j] == (if kinds@[j] is Junction {
                    Some(junctions_before(kinds@, j) as usize)
                } else {
                    None::<usize>
                }),
        decreases n - i,
    {
        proof {
            lemma_junctions_before_le(kinds@, i as int, i as int);
            lemma_junctions_before_le(kinds@, i as int, i + 1);
        }
        match kinds[i] {
            NodeKind::Junction => {
                out.push(Some(count));
                count += 1;
            },
            _ => {
                out.push(None);
            },
        }
        i += 1;
    }
    (out, count)
}

/// The column assigned to node `i`: junctions get the count of junctions
/// before them, fixed-head nodes get none.
pub open spec fn node_column(kinds: Seq<NodeKind>, i: int) -> Option<usize> {
    if kinds[i] is Junction {
        Some(junctions_before(kinds, i) as usize)
    } else {
        None
    }
}

/// Every link endpoint names a node.
pub open spec fn links_in_range(links: Seq<LinkEnds>, n_nodes: int) -> bool {
    forall|l: int|
        0 <= l < links.len() ==> (#[trigger] links[l]).start_node < n_nodes
            && links[l].end_node < n_nodes
}

/// Some link joins the variable nodes of columns `a` and `b`, in either
/// orientation.
pub open spec fn links_connect(
    vi: Seq<Option<usize>>,
    links: Seq<LinkEnds>,
    a: int,
    b: int,
) -> bool {
    exists|l: int|
        0 <= l < links.len() && (vi[(#[trigger] links[l]).start_node as int] matches Some(x)
            && vi[links[l].end_node as int] matches Some(y) && ((x == a && y == b) || (x == b && y
            == a)))
}

/// The four slot positions of one link are right: each diagonal position
/// is the slot `(column, column)` of the corresponding variable endpoint,
/// each off-diagonal position is the slot `(row, column)` of the ordered
/// endpoint pair, and a position is absent exactly when an endpoint of it
/// is a fixed-head node.
pub open spec fn quad_correct(
    sym: CscSymbolic,
    vi: Seq<Option<usize>>,
    link: LinkEnds,
    q: crate::network::CSCIndex,
) -> bool {
    let vu = vi[link.start_node as int];
    let vv = vi[link.end_node as int];
    &&& (match q.diag_u {
        Some(k) => vu matches Some(u) && sym.is_slot(k as int, u as int, u as int),
        None => vu is None,
    })
    &&& (match q.diag_v {
        Some(k) => vv matches Some(v) && sym.is_slot(k as int, v as int, v as int),
        None => vv is None,
    })
    &&& (match q.off_diag_uv {
        Some(k) => vu matches Some(u) && vv matches Some(v) && sym.is_slot(
            k as int,
            u as int,
            v as int,
        ),
        None => vu is None || vv is None,
    })
    &&& (match q.off_diag_vu {
        Some(k) => vu matches Some(u) && vv matches Some(v) && sym.is_slot(
            k as int,
            v as int,
            u as int,
        ),
        None => vu is None || vv is None,
    })
}

/// The slot positions of one link for a solver that exploits the
/// Jacobian's symmetry: the two diagonal slots and only the
/// lower-triangular off-diagonal slot, the one whose row does not lie
/// above its column.
#[derive(Debug, PartialEq, Eq, Structural, Clone, Copy)]
pub struct CSCIndex {
    /// Slot of `A[u,u]`.
    pub diag_u: Option<usize>,
    /// Slot of `A[v,v]`.
    pub diag_v: Option<usize>,
    /// The lower-triangular off-diagonal slot of the pair.
    pub off_diag: Option<usize>,
}

/// Keep the diagonal slots of a link's quad and pick its
/// lower-triangular off-diagonal slot: of `A[u,v]` and `A[v,u]`, the one
/// whose row index is at least its column index.
pub fn lower_triangle_of(
    u_col: Option<usize>,
    v_col: Option<usize>,
    quad: crate::network::CSCIndex,
) -> (r: CSCIndex)
    ensures
        r.diag_u == quad.diag_u,
        r.diag_v == quad.diag_v,
        r.off_diag == (match (u_col, v_col) {
            (Some(u), Some(v)) => if u >= v {
                quad.off_diag_uv
            } else {
                quad.off_diag_vu
            },
            _ => None::<usize>,
        }),
{
    let off_diag = match (u_col, v_col) {
        (Some(u), Some(v)) => if u >= v {
            quad.off_diag_uv
        } else {
            quad.off_diag_vu
        },
        _ => None,
    };
    CSCIndex { diag_u: quad.diag_u, diag_v: quad.diag_v, off_diag }
}

/// Everything the numeric solver needs to assemble the Jacobian without
/// searching: the node partition, the symbolic structure of the reduced
/// system, and each link's slot quad.
#[derive(Debug)]
pub struct JacobianScaffold {
    /// Column of each node in the reduced system; `None` for fixed-head
    /// nodes.
    pub variable_index: Vec<Option<usize>>,
    /// Number of variable nodes, the dimension of the reduced system.
    pub n_variable: usize,
    /// Symbolic CSC structure of the reduced Jacobian.
    pub symbolic: CscSymbolic,
    /// Slot quad of each link, in link order.
    pub link_indices: Vec<crate::network::CSCIndex>,
}

/// Build the whole symbolic scaffold of one topology: number the variable
/// nodes, build the CSC structure of the reduced Jacobian, and locate the
/// four slots of every link.  The structure stores a slot `(a, b)` exactly
/// for the diagonal and for the variable node pairs some link joins.
#[verifier::loop_isolation(false)]
#[verifier::rlimit(100)]
pub fn build_jacobian_scaffold(kinds: &Vec<NodeKind>, links: &Vec<LinkEnds>) -> (r:
    JacobianScaffold)
    requires
        links_in_range(links@, kinds@.len() as int),
    ensures
        r.variable_index@.len() == kinds@.len(),
        forall|i: int| 0 <= i < kinds@.len() ==> r.variable_index@[i] == node_column(kinds@, i),
        r.n_variable == junctions_before(kinds@, kinds@.len() as int),
        r.symbolic.wf(),
        r.symbolic.n == r.n_variable,
        r.link_indices@.len() == links@.len(),
        forall|l: int|
            0 <= l < links@.len() ==> quad_correct(
                r.symbolic,
                r.variable_index@,
                links@[l],
                #[trigger] r.link_indices@[l],
            ),
        forall|a: int, b: int|
            0 <= a < r.n_variable && 0 <= b < r.n_variable ==> (r.symbolic.has_entry(a, b) <==> (a
                == b || links_connect(r.variable_index@, links@, a, b))),
{
    let (vi, n_var) = variable_numbering(kinds);
    let nl = links.len();
    // Collect one edge per link whose endpoints are both variable nodes.
    let mut edges: Vec<(usize, usize)> = Vec::new();
    let mut l: usize = 0;
    while l < nl
        invariant
            l <= nl,
            forall|k: int|
                0 <= k < edges@.len() ==> (#[trigger] edges@[k]).0 < n_var && edges@[k].1 < n_var,
            forall|k: int|
                0 <= k < edges@.len() ==> links_connect(
                    vi@,
                    links@,
                    (#[trigger] edges@[k]).0 as int,
                    edges@[k].1 as int,
                ),
            forall|ll: int|
                0 <= ll < l ==> (match (
                    vi@[(#[trigger] links@[ll]).start_node as int],
                    vi@[links@[ll].end_node as int],
                ) {
                    (Some(a), Some(b)) => edge_connects(edges@, a as int, b as int),
                    _ => true,
                }),
        decreases nl - l,
    {
        let ln = links[l];
        let vu = vi[ln.start_node];
        let vv = vi[ln.end_node];
        if let (Some(a), Some(b)) = (vu, vv) {
            proof {
                assert(vi@[ln.start_node as int] == node_column(kinds@, ln.start_node as int));
                assert(vi@[ln.end_node as int] == node_column(kinds@, ln.end_node as int));
                assert(kinds@[ln.start_node as int] is Junction);
                assert(kinds@[ln.end_node as int] is Junction);
                lemma_junctions_before_le(kinds@, ln.start_node as int, kinds@.len() as int);
                lemma_junctions_before_le(kinds@, ln.end_node as int, kinds@.len() as int);
                lemma_junction_column_in_range(kinds@, ln.start_node as int);
                lemma_junction_column_in_range(kinds@, ln.end_node as int);
                assert(a < n_var);
                assert(b < n_var);
            }
            let ghost before = edges@;
            edges.push((a, b));
            proof {
                assert(edges@[edges@.len() - 1] == (a, b));
                assert(links_connect(vi@, links@, a as int, b as int));
                assert forall|ll: int|
                    0 <= ll < l + 1 implies (match (
                    vi@[(#[trigger] links@[ll]).start_node as int],
                    vi@[links@[ll].end_node as int],
                ) {
                    (Some(x), Some(y)) => edge_connects(edges@, x as int, y as int),
                    _ => true,
                }) by {
                    if ll < l {
                        match (
                            vi@[links@[ll].start_node as int],
                            vi@[links@[ll].end_node as int],
                        ) {
                            (Some(x), Some(y)) => {
                                lemma_edge_connects_push(before, (a, b), x as int, y as int);
                            },
                            _ => {},
                        }
                    } else {
                        assert(edge_connects(edges@, a as int, b as int));
                    }
                }
            }
        }
        l += 1;
    }
    let symbolic = build_symbolic(n_var, &edges);
    // Locate the four slots of every link.
    let mut quads: Vec<crate::network::CSCIndex> = Vec::new();
    let mut l2: usize = 0;
    while l2 < nl
        invariant
            l2 <= nl,
            quads@.len() == l2,
            forall|ll: int|
                0 <= ll < l2 ==> quad_correct(symbolic, vi@, links@[ll], #[trigger] quads@[ll]),
        decreases nl - l2,
    {
        let ln = links[l2];
        let vu = vi[ln.start_node];
        let vv = vi[ln.end_node];
        proof {
            assert(vi@[ln.start_node as int] == node_column(kinds@, ln.start_node as int));
            assert(vi@[ln.end_node as int] == node_column(kinds@, ln.end_node as int));
            if kinds@[ln.start_node as int] is Junction {
                lemma_junctions_before_le(kinds@, ln.start_node as int, kinds@.len() as int);
                lemma_junction_column_in_range(kinds@, ln.start_node as int);
                assert(node_column(kinds@, ln.start_node as int) matches Some(x) && x < n_var);
            }
            if kinds@[ln.end_node as int] is Junction {
                lemma_junctions_before_le(kinds@, ln.end_node as int, kinds@.len() as int);
                lemma_junction_column_in_range(kinds@, ln.end_node as int);
                assert(node_column(kinds@, ln.end_node as int) matches Some(x) && x < n_var);
            }
        }
        let quad = match (vu, vv) {
            (Some(a), Some(b)) => {
                proof {
                    assert(edge_connects(edges@, a as int, b as int));
                    assert(symbolic.has_entry(a as int, a as int));
                    assert(symbolic.has_entry(b as int, b as int));
                    assert(symbolic.has_entry(a as int, b as int));
                    assert(symbolic.has_entry(b as int, a as int));
                }
                let du = find_csc_index(&symbolic, a, a);
                let dv = find_csc_index(&symbolic, b, b);
                let uv = find_csc_index(&symbolic, a, b);
                let vu2 = find_csc_index(&symbolic, b, a);
                proof {
                    assert(du is Some);
                    assert(dv is Some);
                    assert(uv is Some);
                    assert(vu2 is Some);
                }
                crate::network::CSCIndex { diag_u: du, diag_v: dv, off_diag_uv: uv, off_diag_vu: vu2 }
            },
            (Some(a), None) => {
                proof {
                    assert(symbolic.has_entry(a as int, a as int));
                }
                let du = find_csc_index(&symbolic, a, a);
                proof {
                    assert(du is Some);
                }
                crate::network::CSCIndex { diag_u: du, diag_v: None, off_diag_uv: None, off_diag_vu: None }
            },
            (None, Some(b)) => {
                proof {
                    assert(symbolic.has_entry(b as int, b as int));
                }
                let dv = find_csc_index(&symbolic, b, b);
                proof {
                    assert(dv is Some);
                }
                crate::network::CSCIndex { diag_u: None, diag_v: dv, off_diag_uv: None, off_diag_vu: None }
            },
            (None, None) => crate::network::CSCIndex {
                diag_u: None,
                diag_v: None,
                off_diag_uv: None,
                off_diag_vu: None,
            },
        };
        quads.push(quad);
        l2 += 1;
    }
    proof {
        assert forall|a: int, b: int|
            0 <= a < n_var && 0 <= b < n_var implies (symbolic.has_entry(a, b) <==> (a == b
            || links_connect(vi@, links@, a, b))) by {
            if symbolic.has_entry(a, b) && a != b {
                assert(edge_connects(edges@, a, b));
                let k = choose|k: int|
                    0 <= k < edges@.len() && ((#[trigger] edges@[k]).0 == a && edges@[k].1 == b
                        || edges@[k].0 == b && edges@[k].1 == a);
                assert(links_connect(vi@, links@, edges@[k].0 as int, edges@[k].1 as int));
                let l3 = choose|l3: int|
                    0 <= l3 < links@.len() && (vi@[(#[trigger] links@[l3]).start_node as int]
                        matches Some(x) && vi@[links@[l3].end_node as int] matches Some(y) && ((x
                        == edges@[k].0 && y == edges@[k].1) || (x == edges@[k].1 && y
                        == edges@[k].0)));
                assert(links_connect(vi@, links@, a, b));
            }
            if a != b && links_connect(vi@, links@, a, b) {
                let l3 = choose|l3: int|
                    0 <= l3 < links@.len() && (vi@[(#[trigger] links@[l3]).start_node as int]
                        matches Some(x) && vi@[links@[l3].end_node as int] matches Some(y) && ((x
                        == a && y == b) || (x == b && y == a)));
                assert(edge_connects(edges@, a, b) || edge_connects(edges@, b, a));
                if edge_connects(edges@, b, a) {
                    let k = choose|k: int|
                        0 <= k < edges@.len() && ((#[trigger] edges@[k]).0 == b && edges@[k].1 == a
                            || edges@[k].0 == a && edges@[k].1 == b);
                    assert(edge_connects(edges@, a, b));
                }
                assert(symbolic.has_entry(a, b));
            }
        }
    }
    JacobianScaffold { variable_index: vi, n_variable: n_var, symbolic, link_indices: quads }
}

} // verus!
