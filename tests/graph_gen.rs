use arkworks_cycle::arrays::{Boolean2DArray, Uint8Array};
use arkworks_cycle::circuit::ConstraintSystem;
use arkworks_cycle::graph_checks::check_topo_sort;
use arkworks_cycle::graph_gen::generate_graph;

fn accepted(adj: &Vec<Vec<bool>>, topo: &Vec<u8>) -> bool {
    let n = topo.len();
    let mut cs = ConstraintSystem::new();
    let a = Boolean2DArray::new_witness(&mut cs, n, Some(adj)).unwrap();
    let t = Uint8Array::new_witness(&mut cs, n, Some(topo)).unwrap();
    check_topo_sort(&mut cs, &a, &t).unwrap();
    cs.is_satisfied()
}

#[test]
fn generated_acyclic_graph_keeps_forward_edges_only() {
    let coins = vec![true; 9];
    let (adj, topo) = generate_graph(3, false, &coins);
    assert_eq!(
        adj,
        vec![vec![false, true, true], vec![false, false, true], vec![false, false, false]]
    );
    assert_eq!(topo, vec![0, 1, 2]);
    assert!(accepted(&adj, &topo));
}

#[test]
fn generated_cyclic_graph_skips_self_loops() {
    let coins = vec![true; 4];
    let (adj, topo) = generate_graph(2, true, &coins);
    assert_eq!(adj, vec![vec![false, true], vec![true, false]]);
    assert!(!accepted(&adj, &topo));
}

#[test]
fn generated_graph_follows_the_coins() {
    let coins = vec![false, true, false, true, false, false, true, true, true];
    let (adj, _) = generate_graph(3, false, &coins);
    assert_eq!(
        adj,
        vec![vec![false, true, false], vec![false, false, false], vec![false, false, false]]
    );
}

#[test]
fn generated_dags_are_accepted_with_identity_order() {
    let n = 12;
    let coins: Vec<bool> = (0..n * n).map(|k| (k * 7 + 3) % 5 < 2).collect();
    let (adj, topo) = generate_graph(n, false, &coins);
    assert!(accepted(&adj, &topo));
}
