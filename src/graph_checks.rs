//! Constraints stating that a claimed order is a topological order of a
//! claimed subgraph, without revealing which nodes are in the subgraph.
use vstd::prelude::*;
use crate::arrays::{Boolean2DArray, Boolean3DArray, BooleanArray, Uint8Array, is_square, is_stack};
use crate::circuit::{BoolWire, ConstraintSystem, SynthesisError, keeps, satisfies, bool_at};
use crate::cmp::{ByteWire, bits_at, bits_value};
use crate::cmp::CmpGadget;

verus! {

/// No two nodes share a rank.
pub open spec fn distinct_ranks(order: Seq<nat>) -> bool {
    forall|i: int, j: int| #![trigger order[i], order[j]] 0 <= i < j < order.len() ==> order[i] != order[j]
}

/// No edge leaves the subgraph: from a node in the mask, every edge ends
/// in the mask.
pub open spec fn closed_under_edges(m: Seq<Seq<bool>>, mask: Seq<bool>) -> bool {
    forall|i: int, j: int| 0 <= i < mask.len() && 0 <= j < mask.len() && #[trigger] m[i][j] && mask[i] ==> mask[j]
}

/// No edge between two nodes of the subgraph goes from a higher rank to a
/// lower one.
pub open spec fn no_backward_edge(m: Seq<Seq<bool>>, mask: Seq<bool>, order: Seq<nat>) -> bool {
    forall|i: int, j: int| 0 <= i < mask.len() && 0 <= j < mask.len() && #[trigger] m[i][j] && mask[i] && mask[j] ==> order[i] <= order[j]
}

/// What the subgraph check accepts.
pub open spec fn subgraph_topo_ok(m: Seq<Seq<bool>>, mask: Seq<bool>, order: Seq<nat>) -> bool {
    &&& distinct_ranks(order)
    &&& closed_under_edges(m, mask)
    &&& no_backward_edge(m, mask, order)
}

/// What the whole-graph check accepts: distinct ranks, and no edge from a
/// higher rank to a lower one.
pub open spec fn topo_sort_ok(m: Seq<Seq<bool>>, order: Seq<nat>) -> bool {
    &&& distinct_ranks(order)
    &&& forall|i: int, j: int| 0 <= i < order.len() && 0 <= j < order.len() && #[trigger] m[i][j] ==> order[i] <= order[j]
}

/// The mask that holds every one of `n` nodes.
pub open spec fn full_mask(n: nat) -> Seq<bool> {
    Seq::new(n, |i: int| true)
}

/// Whether the arrays describe one graph of `topo.len()` nodes.
pub open spec fn shapes_agree(adj: &Boolean2DArray, mask: &BooleanArray, topo: &Uint8Array) -> bool {
    &&& adj.shape_ok(topo.len())
    &&& mask.len() == topo.len()
    &&& topo.wf()
}

/// The table a matrix of wires carries under an assignment.
pub open spec fn matrix_at(asg: Seq<int>, adj: &Boolean2DArray) -> Seq<Seq<bool>> {
    adj.0@.map_values(|row: Vec<BoolWire>| bits_at(asg, row@))
}

/// The mask a vector of wires carries under an assignment.
pub open spec fn mask_at(asg: Seq<int>, mask: &BooleanArray) -> Seq<bool> {
    bits_at(asg, mask.0@)
}

/// The ranks byte wires carry under an assignment.
pub open spec fn order_at(asg: Seq<int>, topo: &Uint8Array) -> Seq<nat> {
    topo.0@.map_values(|b: ByteWire| bits_value(bits_at(asg, b.bits@)))
}

proof fn lemma_distinct_step(o: Seq<nat>, i: int)
    requires
        0 <= i < o.len(),
    ensures
        distinct_before(o, i + 1) == (distinct_before(o, i) && distinct_row(o, i, o.len() as int)),
{
    if distinct_before(o, i) && distinct_row(o, i, o.len() as int) {
        assert forall|a: int, b: int| 0 <= a < i + 1 && a < b < o.len() implies #[trigger] o[a] != #[trigger] o[b] by {
            if a == i {
                assert(distinct_row(o, i, o.len() as int));
            }
        }
    }
}

proof fn lemma_edges_step(m: Seq<Seq<bool>>, mask: Seq<bool>, order: Seq<nat>, i: int)
    requires
        0 <= i,
    ensures
        edges_before(m, mask, order, i + 1) == (edges_before(m, mask, order, i) && edges_row(m, mask, order, i, mask.len() as int)),
{
    if edges_before(m, mask, order, i) && edges_row(m, mask, order, i, mask.len() as int) {
        assert forall|a: int, b: int| 0 <= a < i + 1 && 0 <= b < mask.len() implies #[trigger] edge_ok(m, mask, order, a, b) by {
            if a == i {
                assert(edges_row(m, mask, order, i, mask.len() as int));
            }
        }
    }
}

spec fn distinct_before(order: Seq<nat>, i: int) -> bool {
    forall|a: int, b: int| #![trigger order[a], order[b]] 0 <= a < i && a < b < order.len() ==> order[a] != order[b]
}

spec fn distinct_row(order: Seq<nat>, a: int, j: int) -> bool {
    forall|b: int| a < b < j ==> order[a] != #[trigger] order[b]
}

spec fn edge_ok(m: Seq<Seq<bool>>, mask: Seq<bool>, order: Seq<nat>, a: int, b: int) -> bool {
    &&& (m[a][b] && mask[a] ==> mask[b])
    &&& (m[a][b] && mask[a] && mask[b] ==> order[a] <= order[b])
}

spec fn edges_before(m: Seq<Seq<bool>>, mask: Seq<bool>, order: Seq<nat>, i: int) -> bool {
    forall|a: int, b: int| 0 <= a < i && 0 <= b < mask.len() ==> #[trigger] edge_ok(m, mask, order, a, b)
}

spec fn edges_row(m: Seq<Seq<bool>>, mask: Seq<bool>, order: Seq<nat>, a: int, j: int) -> bool {
    forall|b: int| 0 <= b < j ==> #[trigger] edge_ok(m, mask, order, a, b)
}

proof fn lemma_edges_all(m: Seq<Seq<bool>>, mask: Seq<bool>, order: Seq<nat>)
    ensures
        edges_before(m, mask, order, mask.len() as int) == (closed_under_edges(m, mask) && no_backward_edge(m, mask, order)),
{
    if edges_before(m, mask, order, mask.len() as int) {
        assert forall|i: int, j: int| 0 <= i < mask.len() && 0 <= j < mask.len() && #[trigger] m[i][j] && mask[i] implies mask[j] by {
            assert(edge_ok(m, mask, order, i, j));
        }
        assert forall|i: int, j: int| 0 <= i < mask.len() && 0 <= j < mask.len() && #[trigger] m[i][j] && mask[i] && mask[j] implies order[i] <= order[j] by {
            assert(edge_ok(m, mask, order, i, j));
        }
    }
    if closed_under_edges(m, mask) && no_backward_edge(m, mask, order) {
        assert forall|a: int, b: int| 0 <= a < mask.len() && 0 <= b < mask.len() implies #[trigger] edge_ok(m, mask, order, a, b) by {
            if m[a][b] && mask[a] {
                assert(mask[b]);
            }
        }
    }
}

/// Tests the shapes the checks need.
fn shapes_agree_exec(adj: &Boolean2DArray, mask: &BooleanArray, topo: &Uint8Array) -> (r: bool)
    ensures
        r == shapes_agree(adj, mask, topo),
{
    let n = topo.0.len();
    if adj.0.len() != n || mask.0.len() != n {
        return false;
    }
    let mut i: usize = 0;
    while i < n
        invariant
            n == topo.0@.len(),
            adj.0@.len() == n,
            i <= n,
            forall|k: int| 0 <= k < i ==> (#[trigger] adj.0@[k])@.len() == n,
            forall|k: int| 0 <= k < i ==> (#[trigger] topo.0@[k]).wf(),
        decreases n - i,
    {
        if adj.0[i].len() != n || topo.0[i].bits.len() != 8 {
            return false;
        }
        i = i + 1;
    }
    true
}

/// The special case where every node is in the subgraph.
pub fn check_topo_sort(cs: &mut ConstraintSystem, adj: &Boolean2DArray, topo: &Uint8Array) -> (r: Result<(), SynthesisError>)
    ensures
        r is Ok <==> adj.shape_ok(topo.len()) && topo.wf(),
        r is Err ==> r == Err::<(), SynthesisError>(SynthesisError::ShapeMismatch) && *final(cs) == *old(cs),
        r is Ok ==> final(cs).satisfied == (old(cs).satisfied && topo_sort_ok(adj.values(), topo.values())),
        keeps(old(cs).gates@, final(cs).gates@),
        r is Ok ==> forall|asg: Seq<int>| #[trigger] satisfies(final(cs).gates@, asg) ==> topo_sort_ok(matrix_at(asg, adj), order_at(asg, topo)),
{
    let mask = BooleanArray::constant(topo.0.len(), true);
    let r = check_subgraph_topo_sort(cs, adj, &mask, topo);
    proof {
        lemma_full_mask(adj.values(), topo.values());
        assert forall|asg: Seq<int>| #[trigger] satisfies(cs.gates@, asg) && r is Ok implies topo_sort_ok(matrix_at(asg, adj), order_at(asg, topo)) by {
            assert(mask_at(asg, &mask) =~= full_mask(order_at(asg, topo).len()));
            lemma_full_mask(matrix_at(asg, adj), order_at(asg, topo));
        }
    }
    r
}

/// With every node in the mask, the subgraph check is the whole-graph one.
proof fn lemma_full_mask(m: Seq<Seq<bool>>, order: Seq<nat>)
    ensures
        subgraph_topo_ok(m, full_mask(order.len()), order) == topo_sort_ok(m, order),
{
    let mask = full_mask(order.len());
    if topo_sort_ok(m, order) {
        assert forall|i: int, j: int| 0 <= i < mask.len() && 0 <= j < mask.len() && #[trigger] m[i][j] && mask[i] && mask[j] implies order[i] <= order[j] by {}
    }
    if subgraph_topo_ok(m, mask, order) {
        assert forall|i: int, j: int| 0 <= i < order.len() && 0 <= j < order.len() && #[trigger] m[i][j] implies order[i] <= order[j] by {
            assert(mask[i] && mask[j]);
        }
    }
}

/// Enforces that no two ranks are equal, that no edge leaves the subgraph,
/// and that no edge inside the subgraph goes backwards in the order.
pub fn check_subgraph_topo_sort(cs: &mut ConstraintSystem, adj: &Boolean2DArray, mask: &BooleanArray, topo: &Uint8Array) -> (r: Result<(), SynthesisError>)
    ensures
        r is Ok <==> shapes_agree(adj, mask, topo),
        r is Err ==> r == Err::<(), SynthesisError>(SynthesisError::ShapeMismatch) && *final(cs) == *old(cs),
        r is Ok ==> final(cs).satisfied == (old(cs).satisfied && subgraph_topo_ok(adj.values(), mask.values(), topo.values())),
        keeps(old(cs).gates@, final(cs).gates@),
        r is Ok ==> forall|asg: Seq<int>| #[trigger] satisfies(final(cs).gates@, asg) ==>
            subgraph_topo_ok(matrix_at(asg, adj), mask_at(asg, mask), order_at(asg, topo)),
{
    if !shapes_agree_exec(adj, mask, topo) {
        return Err(SynthesisError::ShapeMismatch);
    }
    let n = topo.0.len();
    let ghost m = adj.values();
    let ghost s = mask.values();
    let ghost o = topo.values();
    let ghost s0 = cs.satisfied;
    let t = BoolWire::constant(true);
    let f = BoolWire::constant(false);

    let mut i: usize = 0;
    while i < n
        invariant
            shapes_agree(adj, mask, topo),
            n == topo.len(),
            o == topo.values(),
            t == BoolWire::Constant(true),
            i <= n,
            cs.satisfied == (s0 && distinct_before(o, i as int)),
            keeps(old(cs).gates@, cs.gates@),
            forall|asg: Seq<int>| #[trigger] satisfies(cs.gates@, asg) ==> distinct_before(order_at(asg, topo), i as int),
        decreases n - i,
    {
        let mut j: usize = i + 1;
        while j < n
            invariant
                shapes_agree(adj, mask, topo),
                n == topo.len(),
                o == topo.values(),
                t == BoolWire::Constant(true),
                i < n,
                i + 1 <= j <= n,
                cs.satisfied == (s0 && distinct_before(o, i as int) && distinct_row(o, i as int, j as int)),
                keeps(old(cs).gates@, cs.gates@),
                forall|asg: Seq<int>| #[trigger] satisfies(cs.gates@, asg) ==>
                    distinct_before(order_at(asg, topo), i as int) && distinct_row(order_at(asg, topo), i as int, j as int),
            decreases n - j,
        {
            let ghost g0 = cs.gates@;
            let a = &topo.0[i];
            let b = &topo.0[j];
            let gt = a.is_gt(cs, b);
            let lt = a.is_lt(cs, b);
            let differ = gt.or(cs, &lt);
            differ.enforce_equal(cs, &t);
            proof {
                assert(o[i as int] == a.value());
                assert(o[j as int] == b.value());
                assert(distinct_row(o, i as int, j as int + 1) == (distinct_row(o, i as int, j as int) && o[i as int] != o[j as int]));
                assert forall|asg: Seq<int>| #[trigger] satisfies(cs.gates@, asg) implies
                    distinct_before(order_at(asg, topo), i as int) && distinct_row(order_at(asg, topo), i as int, j as int + 1) by {
                    assert(satisfies(g0, asg));
                    let oa = order_at(asg, topo);
                    assert(oa[i as int] == a.cmp_value_at(asg));
                    assert(oa[j as int] == b.cmp_value_at(asg));
                    assert(distinct_row(oa, i as int, j as int + 1) == (distinct_row(oa, i as int, j as int) && oa[i as int] != oa[j as int]));
                }
            }
            j = j + 1;
        }
        proof {
            assert forall|asg: Seq<int>| #[trigger] satisfies(cs.gates@, asg) implies distinct_before(order_at(asg, topo), i as int + 1) by {
                lemma_distinct_step(order_at(asg, topo), i as int);
            }
            assert(distinct_before(o, i as int + 1) == (distinct_before(o, i as int) && distinct_row(o, i as int, n as int))) by {
                if distinct_before(o, i as int) && distinct_row(o, i as int, n as int) {
                    assert forall|a: int, b: int| 0 <= a < i + 1 && a < b < o.len() implies #[trigger] o[a] != #[trigger] o[b] by {
                        if a < i {
                        } else {
                            assert(distinct_row(o, i as int, n as int));
                        }
                    }
                }
            }
        }
        i = i + 1;
    }
    assert(distinct_before(o, n as int) == distinct_ranks(o));

    let ghost s1 = cs.satisfied;
    proof {
        assert forall|asg: Seq<int>| #[trigger] satisfies(cs.gates@, asg) implies
            distinct_ranks(order_at(asg, topo)) && edges_before(matrix_at(asg, adj), mask_at(asg, mask), order_at(asg, topo), 0) by {
            assert(distinct_before(order_at(asg, topo), n as int));
        }
    }
    let mut i: usize = 0;
    while i < n
        invariant
            shapes_agree(adj, mask, topo),
            n == topo.len(),
            m == adj.values(),
            s == mask.values(),
            o == topo.values(),
            f == BoolWire::Constant(false),
            i <= n,
            cs.satisfied == (s1 && edges_before(m, s, o, i as int)),
            keeps(old(cs).gates@, cs.gates@),
            forall|asg: Seq<int>| #[trigger] satisfies(cs.gates@, asg) ==>
                distinct_ranks(order_at(asg, topo)) && edges_before(matrix_at(asg, adj), mask_at(asg, mask), order_at(asg, topo), i as int),
        decreases n - i,
    {
        let mut j: usize = 0;
        while j < n
            invariant
                shapes_agree(adj, mask, topo),
                n == topo.len(),
                m == adj.values(),
                s == mask.values(),
                o == topo.values(),
                f == BoolWire::Constant(false),
                i < n,
                j <= n,
                cs.satisfied == (s1 && edges_before(m, s, o, i as int) && edges_row(m, s, o, i as int, j as int)),
                keeps(old(cs).gates@, cs.gates@),
                forall|asg: Seq<int>| #[trigger] satisfies(cs.gates@, asg) ==>
                    distinct_ranks(order_at(asg, topo)) && edges_before(matrix_at(asg, adj), mask_at(asg, mask), order_at(asg, topo), i as int)
                    && edges_row(matrix_at(asg, adj), mask_at(asg, mask), order_at(asg, topo), i as int, j as int),
            decreases n - j,
        {
            let ghost g0 = cs.gates@;
            let edge = &adj.0[i][j];
            let sender_in = &mask.0[i];
            let receiver_in = &mask.0[j];
            proof {
                assert(m[i as int] == adj.0@[i as int]@.map_values(|w: BoolWire| w.value()));
                assert(m[i as int][j as int] == edge.value());
                assert(s[i as int] == sender_in.value());
                assert(s[j as int] == receiver_in.value());
                assert(o[i as int] == topo.0@[i as int].value());
                assert(o[j as int] == topo.0@[j as int].value());
            }
            let receiver_out = receiver_in.not(cs);
            let leaves = edge.and(cs, sender_in);
            let bad_subgraph = leaves.and(cs, &receiver_out);
            bad_subgraph.enforce_equal(cs, &f);

            let wrong_order = topo.0[i].is_gt(cs, &topo.0[j]);
            let inside = edge.and(cs, sender_in);
            let inside = inside.and(cs, receiver_in);
            let backwards_edge = inside.and(cs, &wrong_order);
            backwards_edge.enforce_equal(cs, &f);
            proof {
                assert(edges_row(m, s, o, i as int, j as int + 1) == (edges_row(m, s, o, i as int, j as int) && edge_ok(m, s, o, i as int, j as int)));
                assert forall|asg: Seq<int>| #[trigger] satisfies(cs.gates@, asg) implies
                    distinct_ranks(order_at(asg, topo)) && edges_before(matrix_at(asg, adj), mask_at(asg, mask), order_at(asg, topo), i as int)
                    && edges_row(matrix_at(asg, adj), mask_at(asg, mask), order_at(asg, topo), i as int, j as int + 1) by {
                    assert(satisfies(g0, asg));
                    let ma = matrix_at(asg, adj);
                    let sa = mask_at(asg, mask);
                    let oa = order_at(asg, topo);
                    assert(ma[i as int] == bits_at(asg, adj.0@[i as int]@));
                    assert(ma[i as int][j as int] == bool_at(asg, *edge));
                    assert(sa[i as int] == bool_at(asg, *sender_in));
                    assert(sa[j as int] == bool_at(asg, *receiver_in));
                    assert(oa[i as int] == topo.0@[i as int].cmp_value_at(asg));
                    assert(oa[j as int] == topo.0@[j as int].cmp_value_at(asg));
                    assert(edges_row(ma, sa, oa, i as int, j as int + 1) == (edges_row(ma, sa, oa, i as int, j as int) && edge_ok(ma, sa, oa, i as int, j as int)));
                }
            }
            j = j + 1;
        }
        proof {
            assert forall|asg: Seq<int>| #[trigger] satisfies(cs.gates@, asg) implies
                distinct_ranks(order_at(asg, topo)) && edges_before(matrix_at(asg, adj), mask_at(asg, mask), order_at(asg, topo), i as int + 1) by {
                lemma_edges_step(matrix_at(asg, adj), mask_at(asg, mask), order_at(asg, topo), i as int);
            }
            assert(edges_before(m, s, o, i as int + 1) == (edges_before(m, s, o, i as int) && edges_row(m, s, o, i as int, n as int))) by {
                if edges_before(m, s, o, i as int) && edges_row(m, s, o, i as int, n as int) {
                    assert forall|a: int, b: int| 0 <= a < i + 1 && 0 <= b < s.len() implies #[trigger] edge_ok(m, s, o, a, b) by {
                        if a == i {
                            assert(edges_row(m, s, o, i as int, n as int));
                        }
                    }
                }
            }
        }
        i = i + 1;
    }
    proof {
        lemma_edges_all(m, s, o);
        assert forall|asg: Seq<int>| #[trigger] satisfies(cs.gates@, asg) implies
            subgraph_topo_ok(matrix_at(asg, adj), mask_at(asg, mask), order_at(asg, topo)) by {
            lemma_edges_all(matrix_at(asg, adj), mask_at(asg, mask), order_at(asg, topo));
        }
    }
    Ok(())
}

/// The union of a stack of relations over `n` nodes: an edge wherever
/// some table has one.
pub open spec fn entrywise_or(ms: Seq<Seq<Seq<bool>>>, n: nat) -> Seq<Seq<bool>> {
    Seq::new(n, |i: int| Seq::new(n, |j: int| exists|k: int| 0 <= k < ms.len() && #[trigger] ms[k][i][j]))
}

/// What the multi-relation check accepts: distinct ranks, and for every
/// relation, no edge leaves the subgraph and none inside it goes backwards.
pub open spec fn multi_subgraph_topo_ok(ms: Seq<Seq<Seq<bool>>>, mask: Seq<bool>, order: Seq<nat>) -> bool {
    &&& distinct_ranks(order)
    &&& forall|k: int, i: int, j: int| 0 <= k < ms.len() && 0 <= i < mask.len() && 0 <= j < mask.len() && #[trigger] ms[k][i][j] && mask[i] ==> mask[j]
    &&& forall|k: int, i: int, j: int| 0 <= k < ms.len() && 0 <= i < mask.len() && 0 <= j < mask.len() && #[trigger] ms[k][i][j] && mask[i] && mask[j] ==> order[i] <= order[j]
}

/// Checking several relations over one node set is checking their union:
/// the multi-relation check accepts exactly when the subgraph check on the
/// entrywise disjunction of the tables accepts.
pub proof fn lemma_multi_is_union(ms: Seq<Seq<Seq<bool>>>, mask: Seq<bool>, order: Seq<nat>)
    requires
        is_stack(ms, ms.len() as int, mask.len() as int),
    ensures
        multi_subgraph_topo_ok(ms, mask, order) == subgraph_topo_ok(entrywise_or(ms, mask.len()), mask, order),
{
    let n = mask.len();
    let u = entrywise_or(ms, n);
    if multi_subgraph_topo_ok(ms, mask, order) {
        assert forall|i: int, j: int| 0 <= i < n && 0 <= j < n && #[trigger] u[i][j] && mask[i] implies mask[j] by {
            let k = choose|k: int| 0 <= k < ms.len() && #[trigger] ms[k][i][j];
            assert(ms[k][i][j]);
        }
        assert forall|i: int, j: int| 0 <= i < n && 0 <= j < n && #[trigger] u[i][j] && mask[i] && mask[j] implies order[i] <= order[j] by {
            let k = choose|k: int| 0 <= k < ms.len() && #[trigger] ms[k][i][j];
            assert(ms[k][i][j]);
        }
    }
    if subgraph_topo_ok(u, mask, order) {
        assert forall|k: int, i: int, j: int| 0 <= k < ms.len() && 0 <= i < n && 0 <= j < n && #[trigger] ms[k][i][j] && mask[i] implies mask[j] by {
            assert(u[i][j]);
        }
        assert forall|k: int, i: int, j: int| 0 <= k < ms.len() && 0 <= i < n && 0 <= j < n && #[trigger] ms[k][i][j] && mask[i] && mask[j] implies order[i] <= order[j] by {
            assert(u[i][j]);
        }
    }
}

/// The disjunction of one entry over every table of the stack.
fn or_over_stack(cs: &mut ConstraintSystem, adjs: &Boolean3DArray, m: usize, n: usize, i: usize, j: usize) -> (r: BoolWire)
    requires
        adjs.shape_ok(m as int, n as int),
        i < n,
        j < n,
    ensures
        r.value() == exists|k: int| 0 <= k < adjs.values().len() && #[trigger] adjs.values()[k][i as int][j as int],
        final(cs).satisfied == old(cs).satisfied,
        keeps(old(cs).gates@, final(cs).gates@),
{
    let ghost ms = adjs.values();
    let mut acc = BoolWire::constant(false);
    let mut k: usize = 0;
    while k < m
        invariant
            adjs.shape_ok(m as int, n as int),
            ms == adjs.values(),
            i < n,
            j < n,
            k <= m,
            acc.value() == exists|q: int| 0 <= q < k && #[trigger] ms[q][i as int][j as int],
            cs.satisfied == old(cs).satisfied,
            keeps(old(cs).gates@, cs.gates@),
        decreases m - k,
    {
        let cell = &adjs.0[k][i][j];
        proof {
            assert(ms[k as int] == adjs.0@[k as int]@.map_values(|row: Vec<BoolWire>| row@.map_values(|w: BoolWire| w.value())));
            assert(ms[k as int][i as int] == adjs.0@[k as int]@[i as int]@.map_values(|w: BoolWire| w.value()));
            assert(ms[k as int][i as int][j as int] == cell.value());
        }
        acc = acc.or(cs, cell);
        proof {
            if acc.value() {
                if !ms[k as int][i as int][j as int] {
                    let q = choose|q: int| 0 <= q < k && #[trigger] ms[q][i as int][j as int];
                    assert(0 <= q < k + 1 && ms[q][i as int][j as int]);
                } else {
                    assert(0 <= k < k + 1 && ms[k as int][i as int][j as int]);
                }
            }
        }
        k = k + 1;
    }
    acc
}

/// Folds a stack of relations into one table by entrywise disjunction and
/// checks the claimed order against it.
pub fn check_multi_subgraph_topo_sort(cs: &mut ConstraintSystem, adjs: &Boolean3DArray, mask: &BooleanArray, topo: &Uint8Array) -> (r: Result<(), SynthesisError>)
    ensures
        r is Ok <==> adjs.shape_ok(adjs.0@.len() as int, topo.len()) && mask.len() == topo.len() && topo.wf(),
        r is Err ==> r == Err::<(), SynthesisError>(SynthesisError::ShapeMismatch) && *final(cs) == *old(cs),
        r is Ok ==> final(cs).satisfied == (old(cs).satisfied && multi_subgraph_topo_ok(adjs.values(), mask.values(), topo.values())),
        keeps(old(cs).gates@, final(cs).gates@),
{
    let m = adjs.0.len();
    let n = topo.0.len();
    if !stack_shape_exec(adjs, m, n) || mask.0.len() != n || !bytes_wf_exec(topo) {
        return Err(SynthesisError::ShapeMismatch);
    }
    let ghost ms = adjs.values();
    let ghost cs0 = *cs;
    let ghost s0 = cs.satisfied;
    let mut rows: Vec<Vec<BoolWire>> = Vec::new();
    let mut i: usize = 0;
    while i < n
        invariant
            adjs.shape_ok(m as int, n as int),
            ms == adjs.values(),
            i <= n,
            rows@.len() == i,
            forall|a: int| 0 <= a < i ==> (#[trigger] rows@[a])@.len() == n,
            forall|a: int, b: int| 0 <= a < i && 0 <= b < n ==> (#[trigger] rows@[a]@[b]).value() == entrywise_or(ms, n as nat)[a][b],
            cs.satisfied == s0,
            keeps(old(cs).gates@, cs.gates@),
        decreases n - i,
    {
        let mut row: Vec<BoolWire> = Vec::new();
        let mut j: usize = 0;
        while j < n
            invariant
                adjs.shape_ok(m as int, n as int),
                ms == adjs.values(),
                i < n,
                j <= n,
                row@.len() == j,
                forall|b: int| 0 <= b < j ==> (#[trigger] row@[b]).value() == entrywise_or(ms, n as nat)[i as int][b],
                cs.satisfied == s0,
                keeps(old(cs).gates@, cs.gates@),
            decreases n - j,
        {
            let w = or_over_stack(cs, adjs, m, n, i, j);
            row.push(w);
            j = j + 1;
        }
        rows.push(row);
        i = i + 1;
    }
    let combined = Boolean2DArray(rows);
    proof {
        let u = entrywise_or(ms, n as nat);
        assert forall|a: int| 0 <= a < n implies #[trigger] combined.values()[a] == u[a] by {
            assert(combined.values()[a] =~= u[a]);
        }
        assert(combined.values() =~= u);
        assert(is_stack(ms, m as int, n as int)) by {
            assert forall|k: int| 0 <= k < m implies is_square(#[trigger] ms[k], n as int) by {
                assert(ms[k] == adjs.0@[k]@.map_values(|row: Vec<BoolWire>| row@.map_values(|w: BoolWire| w.value())));
                assert forall|a: int| 0 <= a < n implies (#[trigger] ms[k][a]).len() == n by {
                    assert(ms[k][a] == adjs.0@[k]@[a]@.map_values(|w: BoolWire| w.value()));
                }
            }
        }
        lemma_multi_is_union(ms, mask.values(), topo.values());
        assert(shapes_agree(&combined, mask, topo));
    }
    check_subgraph_topo_sort(cs, &combined, mask, topo)
}

/// Tests that every byte of the order has eight bits.
fn bytes_wf_exec(topo: &Uint8Array) -> (r: bool)
    ensures
        r == topo.wf(),
{
    let mut i: usize = 0;
    while i < topo.0.len()
        invariant
            i <= topo.0@.len(),
            forall|k: int| 0 <= k < i ==> (#[trigger] topo.0@[k]).wf(),
        decreases topo.0@.len() - i,
    {
        if topo.0[i].bits.len() != 8 {
            return false;
        }
        i = i + 1;
    }
    true
}

/// Tests that a stack holds `m` tables of `n` by `n` entries.
fn stack_shape_exec(adjs: &Boolean3DArray, m: usize, n: usize) -> (r: bool)
    ensures
        r == adjs.shape_ok(m as int, n as int),
{
    if adjs.0.len() != m {
        return false;
    }
    let mut k: usize = 0;
    while k < m
        invariant
            adjs.0@.len() == m,
            k <= m,
            forall|q: int| 0 <= q < k ==> (#[trigger] adjs.0@[q])@.len() == n,
            forall|q: int, a: int| 0 <= q < k && 0 <= a < n ==> (#[trigger] adjs.0@[q]@[a])@.len() == n,
        decreases m - k,
    {
        if adjs.0[k].len() != n {
            return false;
        }
        let mut a: usize = 0;
        while a < n
            invariant
                adjs.0@.len() == m,
                k < m,
                adjs.0@[k as int]@.len() == n,
                a <= n,
                forall|b: int| 0 <= b < a ==> (#[trigger] adjs.0@[k as int]@[b])@.len() == n,
            decreases n - a,
        {
            if adjs.0[k][a].len() != n {
                return false;
            }
            a = a + 1;
        }
        k = k + 1;
    }
    true
}

/// A genuine topological order: distinct ranks, and every edge goes from a
/// lower rank to a higher one.
pub open spec fn is_topological_order(m: Seq<Seq<bool>>, order: Seq<nat>) -> bool {
    &&& distinct_ranks(order)
    &&& forall|i: int, j: int| 0 <= i < order.len() && 0 <= j < order.len() && #[trigger] m[i][j] ==> order[i] < order[j]
}

/// Every genuine topological order of a graph is accepted by the
/// whole-graph check.
pub proof fn lemma_topological_order_accepted(m: Seq<Seq<bool>>, order: Seq<nat>)
    requires
        is_square(m, order.len() as int),
        is_topological_order(m, order),
    ensures
        topo_sort_ok(m, order),
{
}

/// An edge between two distinct nodes whose source does not rank strictly
/// below its target makes the whole-graph check reject.
pub proof fn lemma_backward_edge_rejected(m: Seq<Seq<bool>>, order: Seq<nat>, i: int, j: int)
    requires
        is_square(m, order.len() as int),
        0 <= i < order.len(),
        0 <= j < order.len(),
        i != j,
        m[i][j],
        order[i] >= order[j],
    ensures
        !topo_sort_ok(m, order),
{
    if order[i] == order[j] {
        if i < j {
            assert(order[i] == order[j]);
        } else {
            assert(order[j] == order[i]);
        }
    }
}

/// Two nodes with the same rank make the whole-graph check reject,
/// whatever the edges.
pub proof fn lemma_duplicate_rank_rejected(m: Seq<Seq<bool>>, order: Seq<nat>, i: int, j: int)
    requires
        is_square(m, order.len() as int),
        0 <= i < order.len(),
        0 <= j < order.len(),
        i != j,
        order[i] == order[j],
    ensures
        !topo_sort_ok(m, order),
{
    if i < j {
        assert(order[i] == order[j]);
    } else {
        assert(order[j] == order[i]);
    }
}

/// An edge from a node in the mask to a node outside it makes the
/// subgraph check reject, whatever the order.
pub proof fn lemma_leaving_edge_rejected(m: Seq<Seq<bool>>, mask: Seq<bool>, order: Seq<nat>, i: int, j: int)
    requires
        is_square(m, mask.len() as int),
        0 <= i < mask.len(),
        0 <= j < mask.len(),
        m[i][j],
        mask[i],
        !mask[j],
    ensures
        !subgraph_topo_ok(m, mask, order),
{
    assert(m[i][j] && mask[i]);
}

} // verus!
