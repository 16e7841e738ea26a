//! Graphs for exercising the statement, drawn from a sequence of coin
//! flips supplied by the caller.
use vstd::prelude::*;
use crate::graph_checks::is_topological_order;

verus! {

/// Whether the generator may place an edge from `i` to `j`: any edge but a
/// self-loop where cycles are allowed, else only edges to a later node.
pub open spec fn edge_allowed(allow_cycles: bool, i: int, j: int) -> bool {
    (allow_cycles && i != j) || j > i
}

/// A graph on `n` nodes with an edge from `i` to `j` where it is allowed
/// and coin `i * n + j` came up true, and the order that ranks node `i` at
/// `i`. Without cycles that order is a genuine topological order.
pub fn generate_graph(n: usize, allow_cycles: bool, coins: &Vec<bool>) -> (r: (Vec<Vec<bool>>, Vec<u8>))
    requires
        n <= 256,
        coins@.len() == n * n,
    ensures
        r.0@.len() == n,
        r.1@.len() == n,
        forall|i: int| 0 <= i < n ==> (#[trigger] r.0@[i])@.len() == n,
        forall|i: int, j: int| 0 <= i < n && 0 <= j < n ==> (#[trigger] r.0@[i]@[j]) == (edge_allowed(allow_cycles, i, j) && coins@[i * n + j]),
        forall|i: int| 0 <= i < n ==> (#[trigger] r.1@[i]) as int == i,
        !allow_cycles ==> is_topological_order(r.0@.map_values(|row: Vec<bool>| row@), r.1@.map_values(|x: u8| x as nat)),
{
    let mut adj: Vec<Vec<bool>> = Vec::new();
    let mut topo: Vec<u8> = Vec::new();
    let mut i: usize = 0;
    let mut base: usize = 0;
    proof {
        assert(n * n <= 65536) by (nonlinear_arith)
            requires n <= 256;
    }
    while i < n
        invariant
            n <= 256,
            coins@.len() == n * n,
            n * n <= 65536,
            i <= n,
            base == i * n,
            adj@.len() == i,
            topo@.len() == i,
            forall|a: int| 0 <= a < i ==> (#[trigger] adj@[a])@.len() == n,
            forall|a: int, b: int| 0 <= a < i && 0 <= b < n ==> (#[trigger] adj@[a]@[b]) == (edge_allowed(allow_cycles, a, b) && coins@[a * n + b]),
            forall|a: int| 0 <= a < i ==> (#[trigger] topo@[a]) as int == a,
        decreases n - i,
    {
        let mut row: Vec<bool> = Vec::new();
        let mut j: usize = 0;
        while j < n
            invariant
                n <= 256,
                coins@.len() == n * n,
                n * n <= 65536,
                i < n,
                base == i * n,
                j <= n,
                row@.len() == j,
                forall|b: int| 0 <= b < j ==> (#[trigger] row@[b]) == (edge_allowed(allow_cycles, i as int, b) && coins@[i * n + b]),
            decreases n - j,
        {
            proof {
                assert(i * n + j < n * n) by (nonlinear_arith)
                    requires i < n, j < n;
            }
            let allowed = (allow_cycles && i != j) || j > i;
            row.push(allowed && coins[base + j]);
            j = j + 1;
        }
        adj.push(row);
        topo.push(i as u8);
        proof {
            assert((i + 1) * n == i * n + n) by (nonlinear_arith);
            assert((i + 1) * n <= n * n) by (nonlinear_arith)
                requires i < n;
        }
        base = base + n;
        i = i + 1;
    }
    proof {
        if !allow_cycles {
            let m = adj@.map_values(|row: Vec<bool>| row@);
            let o = topo@.map_values(|x: u8| x as nat);
            assert forall|a: int, b: int| 0 <= a < b < o.len() implies o[a] != o[b] by {
                assert(o[a] == topo@[a] as nat);
                assert(o[b] == topo@[b] as nat);
            }
            assert forall|a: int, b: int| 0 <= a < o.len() && 0 <= b < o.len() && #[trigger] m[a][b] implies o[a] < o[b] by {
                assert(m[a] == adj@[a]@);
                assert(adj@[a]@[b]);
                assert(o[a] == topo@[a] as nat);
                assert(o[b] == topo@[b] as nat);
            }
        }
    }
    (adj, topo)
}

} // verus!
