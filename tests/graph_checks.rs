use arkworks_cycle::arrays::{Boolean2DArray, Boolean3DArray, BooleanArray, Uint8Array};
use arkworks_cycle::circuit::{AllocationMode, ConstraintSystem, SynthesisError};
use arkworks_cycle::graph_checks::{
    check_multi_subgraph_topo_sort, check_subgraph_topo_sort, check_topo_sort,
};

fn chain4() -> Vec<Vec<bool>> {
    vec![
        vec![false, true, true, false],
        vec![false, false, true, false],
        vec![false, false, false, true],
        vec![false, false, false, false],
    ]
}

fn topo_satisfied(adj: &Vec<Vec<bool>>, topo: &Vec<u8>) -> bool {
    let n = topo.len();
    let mut cs = ConstraintSystem::new();
    let adj_var = Boolean2DArray::new_witness(&mut cs, n, Some(adj)).unwrap();
    let topo_var = Uint8Array::new_witness(&mut cs, n, Some(topo)).unwrap();
    check_topo_sort(&mut cs, &adj_var, &topo_var).unwrap();
    cs.is_satisfied()
}

fn subgraph_satisfied(adj: &Vec<Vec<bool>>, mask: &Vec<bool>, topo: &Vec<u8>) -> bool {
    let n = topo.len();
    let mut cs = ConstraintSystem::new();
    let adj_var = Boolean2DArray::new_witness(&mut cs, n, Some(adj)).unwrap();
    let mask_var = BooleanArray::new_witness(&mut cs, n, Some(mask)).unwrap();
    let topo_var = Uint8Array::new_witness(&mut cs, n, Some(topo)).unwrap();
    check_subgraph_topo_sort(&mut cs, &adj_var, &mask_var, &topo_var).unwrap();
    cs.is_satisfied()
}

fn multi_satisfied(adjs: &Vec<Vec<Vec<bool>>>, mask: &Vec<bool>, topo: &Vec<u8>) -> bool {
    let n = topo.len();
    let mut cs = ConstraintSystem::new();
    let adjs_var =
        Boolean3DArray::new_variable(&mut cs, adjs.len(), n, Some(adjs), AllocationMode::Witness)
            .unwrap();
    let mask_var = BooleanArray::new_witness(&mut cs, n, Some(mask)).unwrap();
    let topo_var = Uint8Array::new_witness(&mut cs, n, Some(topo)).unwrap();
    check_multi_subgraph_topo_sort(&mut cs, &adjs_var, &mask_var, &topo_var).unwrap();
    cs.is_satisfied()
}

#[test]
fn valid_topo_sort() {
    assert!(topo_satisfied(&chain4(), &vec![0, 1, 2, 3]));
}

#[test]
fn invalid_topo_sort() {
    // bad because 0 -> 1
    assert!(!topo_satisfied(&chain4(), &vec![1, 0, 2, 3]));
}

#[test]
fn invalid_topo_sort_2() {
    let adj = vec![
        vec![false, true, true, false, false, false],
        vec![false, false, true, false, false, false],
        vec![false, false, false, true, false, true],
        vec![false, false, false, false, false, false],
        vec![true, false, false, false, false, false],
        vec![false, false, false, false, true, false],
    ];
    // bad because 4 -> 0
    assert!(!topo_satisfied(&adj, &vec![0, 1, 2, 3, 4, 5]));
}

#[test]
fn topo_sort_missing_nodes() {
    // bad because every node has the same rank
    assert!(!topo_satisfied(&chain4(), &vec![0, 0, 0, 0]));
}

#[test]
fn valid_subgraph_sort() {
    // node 0 is outside the subgraph, so its rank does not matter
    assert!(subgraph_satisfied(&chain4(), &vec![false, true, true, true], &vec![1, 0, 2, 3]));
}

#[test]
fn valid_subgraph_sort_ignores_cycle() {
    let adj = vec![
        vec![false, true, true, false, false, false],
        vec![false, false, true, false, false, false],
        vec![false, false, false, true, false, false],
        vec![false, false, false, false, false, false],
        vec![false, false, false, false, false, true],
        vec![false, false, false, false, true, false],
    ];
    let mask = vec![true, true, true, true, false, false];
    assert!(subgraph_satisfied(&adj, &mask, &vec![0, 1, 2, 3, 4, 5]));
}

#[test]
fn invalid_subgraph_topo() {
    let mask = vec![false, true, true, true];
    assert!(!subgraph_satisfied(&chain4(), &mask, &vec![0, 2, 1, 3]));
}

fn three_relations(third: Vec<Vec<bool>>) -> Vec<Vec<Vec<bool>>> {
    let m1 = vec![
        vec![false, true, true, false, false, false],
        vec![false, false, true, false, false, false],
        vec![false, false, false, false, false, false],
        vec![false, false, false, false, false, false],
        vec![false, false, false, false, false, false],
        vec![false, false, false, false, false, false],
    ];
    let m2 = vec![
        vec![false, false, false, false, false, false],
        vec![false, false, false, false, false, false],
        vec![false, false, false, true, false, false],
        vec![false, false, false, false, false, true],
        vec![false, false, false, false, false, false],
        vec![false, false, false, false, false, false],
    ];
    vec![m1, m2, third]
}

#[test]
fn valid_multi() {
    let m3 = vec![
        vec![false, false, false, false, false, false],
        vec![false, false, false, false, false, false],
        vec![false, false, false, false, false, false],
        vec![false, false, false, false, false, false],
        vec![false, false, false, false, false, false],
        vec![false, false, false, false, true, false],
    ];
    let mask = vec![true; 6];
    assert!(multi_satisfied(&three_relations(m3), &mask, &vec![0, 1, 2, 3, 5, 4]));
}

#[test]
fn invalid_multi_bad_topo() {
    let m3 = vec![
        vec![false, false, false, false, false, false],
        vec![false, false, true, false, false, false],
        vec![false, false, false, false, false, false],
        vec![false, false, false, false, false, false],
        vec![false, false, false, false, false, false],
        vec![true, false, false, false, true, false],
    ];
    let mask = vec![true; 6];
    // bad because 5 -> 0
    assert!(!multi_satisfied(&three_relations(m3), &mask, &vec![0, 1, 2, 3, 4, 5]));
}

#[test]
fn chain_scenario_all_three_orders() {
    assert!(topo_satisfied(&chain4(), &vec![0, 1, 2, 3]));
    assert!(!topo_satisfied(&chain4(), &vec![1, 0, 2, 3]));
    assert!(!topo_satisfied(&chain4(), &vec![0, 0, 0, 0]));
}

#[test]
fn genuine_order_of_random_dag_accepted() {
    // edges only from lower to higher index, ranks reversed twice
    let n = 7;
    let mut adj = vec![vec![false; n]; n];
    for i in 0..n {
        for j in (i + 1)..n {
            adj[i][j] = (i * 3 + j * 5) % 4 == 1;
        }
    }
    let topo: Vec<u8> = (0..n as u8).map(|i| 10 + 2 * i).collect();
    assert!(topo_satisfied(&adj, &topo));
}

#[test]
fn equal_ranks_on_an_edge_rejected() {
    let adj = vec![vec![false, true], vec![false, false]];
    assert!(!topo_satisfied(&adj, &vec![3, 3]));
}

#[test]
fn duplicate_rank_rejected_without_edges() {
    let adj = vec![vec![false; 3]; 3];
    assert!(!topo_satisfied(&adj, &vec![5, 9, 5]));
    assert!(topo_satisfied(&adj, &vec![5, 9, 7]));
}

#[test]
fn sparse_ranks_accepted() {
    // distinct but outside 0..n: still accepted
    assert!(topo_satisfied(&chain4(), &vec![10, 40, 200, 255]));
}

#[test]
fn self_loop_is_not_rejected() {
    let adj = vec![vec![true, false], vec![false, false]];
    assert!(topo_satisfied(&adj, &vec![0, 1]));
}

#[test]
fn leaving_edge_rejected_whatever_the_order() {
    let mask = vec![true, true, false, false];
    assert!(!subgraph_satisfied(&chain4(), &mask, &vec![0, 1, 2, 3]));
    assert!(!subgraph_satisfied(&chain4(), &mask, &vec![3, 2, 1, 0]));
}

#[test]
fn multi_matches_union() {
    let m3 = vec![
        vec![false, false, false, false, false, false],
        vec![false, false, true, false, false, false],
        vec![false, false, false, false, false, false],
        vec![false, false, false, false, false, false],
        vec![false, false, false, false, false, false],
        vec![true, false, false, false, true, false],
    ];
    let stack = three_relations(m3);
    let mut union = vec![vec![false; 6]; 6];
    for t in &stack {
        for i in 0..6 {
            for j in 0..6 {
                union[i][j] = union[i][j] || t[i][j];
            }
        }
    }
    let mask = vec![true, true, true, true, true, true];
    for topo in [vec![0u8, 1, 2, 3, 4, 5], vec![5u8, 0, 1, 2, 4, 3], vec![1u8, 2, 3, 4, 6, 0]] {
        assert_eq!(multi_satisfied(&stack, &mask, &topo), subgraph_satisfied(&union, &mask, &topo));
    }
}

#[test]
fn shape_mismatch_reported() {
    let mut cs = ConstraintSystem::new();
    let not_square = vec![vec![false, true], vec![false]];
    assert_eq!(
        Boolean2DArray::new_witness(&mut cs, 2, Some(&not_square)).err(),
        Some(SynthesisError::ShapeMismatch)
    );
    assert_eq!(
        Uint8Array::new_witness(&mut cs, 3, Some(&vec![1, 2])).err(),
        Some(SynthesisError::ShapeMismatch)
    );
    let adj = Boolean2DArray::new_witness(&mut cs, 2, Some(&vec![vec![false; 2]; 2])).unwrap();
    let topo = Uint8Array::new_witness(&mut cs, 3, Some(&vec![0, 1, 2])).unwrap();
    assert_eq!(check_topo_sort(&mut cs, &adj, &topo), Err(SynthesisError::ShapeMismatch));
}

#[test]
fn missing_assignment_reported() {
    let mut cs = ConstraintSystem::new();
    assert_eq!(
        BooleanArray::new_witness(&mut cs, 2, None).err(),
        Some(SynthesisError::AssignmentMissing)
    );
    assert_eq!(
        Boolean2DArray::new_witness(&mut cs, 2, None).err(),
        Some(SynthesisError::AssignmentMissing)
    );
    assert_eq!(
        Boolean3DArray::new_variable(&mut cs, 1, 2, None, AllocationMode::Input).err(),
        Some(SynthesisError::AssignmentMissing)
    );
    assert_eq!(cs.num_gates(), 0);
}
