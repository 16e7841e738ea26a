use ark_ff::{BigInteger, PrimeField};
use arkworks_cycle::arrays::Boolean2DArray;
use std::str::FromStr;
use arkworks_cycle::circuit::{AllocationMode, ConstraintSystem, FieldWire};
use arkworks_cycle::field::Fe;
use arkworks_cycle::hashing::{hasher, hasher_var, matrix_flattener};
use arkworks_cycle::params::poseidon_parameters_for_test;
use arkworks_cycle::statement::GraphCircuit;

fn hash_of(m: &Vec<Vec<bool>>) -> Vec<Fe> {
    let mut cs = ConstraintSystem::new();
    let adj = Boolean2DArray::new_witness(&mut cs, m.len(), Some(m)).unwrap();
    hasher(&adj, &poseidon_parameters_for_test())
}

fn gadget_hash_of(m: &Vec<Vec<bool>>) -> Fe {
    let mut cs = ConstraintSystem::new();
    let adj = Boolean2DArray::new_witness(&mut cs, m.len(), Some(m)).unwrap();
    let out = hasher_var(&mut cs, &adj, poseidon_parameters_for_test());
    assert!(cs.is_satisfied());
    out[0].get_value()
}

fn chain4() -> Vec<Vec<bool>> {
    vec![
        vec![false, true, true, false],
        vec![false, false, true, false],
        vec![false, false, false, true],
        vec![false, false, false, false],
    ]
}

fn modified_chain4() -> Vec<Vec<bool>> {
    vec![
        vec![true, true, false, false],
        vec![false, false, true, false],
        vec![false, false, false, true],
        vec![false, false, false, false],
    ]
}

fn large_identical(n: usize) -> Vec<Vec<bool>> {
    let mut m = vec![vec![false; n]; n];
    for i in 0..n {
        for j in 0..n {
            if i % 2 == 0 && j % 3 == 0 {
                m[i][j] = true;
            }
        }
    }
    m
}

fn diagonal(n: usize) -> Vec<Vec<bool>> {
    let mut m = vec![vec![false; n]; n];
    for i in 0..n {
        m[i][i] = true;
    }
    m
}

fn sparse(n: usize) -> Vec<Vec<bool>> {
    let mut m = vec![vec![false; n]; n];
    for i in (0..n).step_by(10) {
        for j in (0..n).step_by(15) {
            m[i][j] = true;
        }
    }
    m
}

fn inverted(m: &Vec<Vec<bool>>) -> Vec<Vec<bool>> {
    m.iter().map(|row| row.iter().map(|b| !b).collect()).collect()
}

#[test]
fn hashing_mod_gen_hash_test() {
    let hash1 = hash_of(&chain4());
    let hash2 = hash_of(&chain4());
    assert_eq!(hash1, hash2);
    assert_ne!(hash1, hash_of(&modified_chain4()));
}

#[test]
fn hashing_test_hashing_empty_matrix() {
    assert!(!hash_of(&vec![vec![false; 4]; 4]).is_empty());
}

#[test]
fn hashing_test_hashing_full_matrix() {
    assert!(!hash_of(&vec![vec![true; 4]; 4]).is_empty());
}

#[test]
fn hashing_test_hashing_different_matrices() {
    let m1 = vec![vec![false, true], vec![true, false]];
    let m2 = vec![vec![true, false], vec![false, true]];
    assert_ne!(hash_of(&m1), hash_of(&m2));
}

#[test]
fn hashing_test_hashing_one_changed_element() {
    let m1 = vec![vec![false; 3]; 3];
    let mut m2 = m1.clone();
    m2[1][1] = true;
    assert_ne!(hash_of(&m1), hash_of(&m2));
}

#[test]
fn hashing_test_hashing_inverted_matrices() {
    let m = vec![vec![true, false], vec![false, true]];
    assert_ne!(hash_of(&m), hash_of(&inverted(&m)));
}

#[test]
fn hashing_test_hashing_large_identical_matrices() {
    assert_eq!(hash_of(&large_identical(100)), hash_of(&large_identical(100)));
}

#[test]
fn hashing_test_hashing_large_diagonal_matrices() {
    assert_eq!(hash_of(&diagonal(50)), hash_of(&diagonal(50)));
}

#[test]
fn hashing_test_hashing_large_sparse_matrices() {
    assert_eq!(hash_of(&sparse(60)), hash_of(&sparse(60)));
}

#[test]
fn hash_test_mod_gen_hash_test() {
    let hash1 = hash_of(&chain4());
    assert_eq!(hash1, hash_of(&chain4()));
    assert_ne!(hash1, hash_of(&modified_chain4()));
}

#[test]
fn hash_test_test_hashing_empty_matrix() {
    assert!(!hash_of(&vec![vec![false; 4]; 4]).is_empty());
}

#[test]
fn hash_test_test_hashing_full_matrix() {
    assert!(!hash_of(&vec![vec![true; 4]; 4]).is_empty());
}

#[test]
fn hash_test_test_hashing_different_matrices() {
    let m1 = vec![vec![false, true], vec![true, false]];
    let m2 = vec![vec![true, false], vec![false, true]];
    assert_ne!(hash_of(&m1), hash_of(&m2));
}

#[test]
fn hash_test_test_hashing_one_changed_element() {
    let m1 = vec![vec![false; 3]; 3];
    let mut m2 = m1.clone();
    m2[1][1] = true;
    assert_ne!(hash_of(&m1), hash_of(&m2));
}

#[test]
fn hash_test_test_hashing_inverted_matrices() {
    let m = vec![vec![true, false], vec![false, true]];
    assert_ne!(hash_of(&m), hash_of(&inverted(&m)));
}

#[test]
fn hash_test_test_hashing_large_identical_matrices() {
    assert_eq!(hash_of(&large_identical(50)), hash_of(&large_identical(50)));
}

#[test]
fn hash_test_test_hashing_large_diagonal_matrices() {
    assert_eq!(hash_of(&diagonal(50)), hash_of(&diagonal(50)));
}

#[test]
fn hash_test_test_hashing_large_sparse_matrices() {
    assert_eq!(hash_of(&sparse(60)), hash_of(&sparse(60)));
}

#[test]
fn empty_and_full_matrices_differ() {
    assert_ne!(hash_of(&vec![vec![false; 4]; 4]), hash_of(&vec![vec![true; 4]; 4]));
}

#[test]
fn native_and_gadget_commitments_agree() {
    for m in [chain4(), modified_chain4(), vec![vec![true; 3]; 3], diagonal(5), vec![vec![false, true], vec![true, false]]] {
        assert_eq!(hash_of(&m)[0], gadget_hash_of(&m));
    }
}

#[test]
fn flattening_is_row_major() {
    let mut cs = ConstraintSystem::new();
    let m = vec![vec![true, false, false], vec![false, false, true], vec![false, true, false]];
    let adj = Boolean2DArray::new_witness(&mut cs, 3, Some(&m)).unwrap();
    assert_eq!(
        matrix_flattener(&adj),
        vec![true, false, false, false, false, true, false, true, false]
    );
}

#[test]
fn parameter_table_matches_decimal_constants() {
    let p = poseidon_parameters_for_test();
    assert_eq!(p.ark.len(), 37);
    assert_eq!(p.mds.len(), 3);
    let first = ark_bls12_381::Fr::from_str(
        "43228725308391137369947362226390319299014033584574058394339561338097152657858",
    )
    .unwrap();
    assert_eq!(p.mds[0][0].limbs, first.into_bigint().0);
    let last = ark_bls12_381::Fr::from_str(
        "36563542611079418454711392295126742705798573252480028863133394504154697924536",
    )
    .unwrap();
    assert_eq!(p.ark[36][2].limbs, last.into_bigint().0);
    assert!(!last.into_bigint().is_zero());
}

fn constant(limbs: [u64; 4]) -> FieldWire {
    FieldWire::Constant(Fe { limbs })
}

#[test]
fn field_operations_compute_in_the_field() {
    let mut cs = ConstraintSystem::new();
    let two = constant([2, 0, 0, 0]);
    let three = constant([3, 0, 0, 0]);
    assert_eq!(two.add(&mut cs, &three).get_value().limbs, [5, 0, 0, 0]);
    assert_eq!(two.mul(&mut cs, &three).get_value().limbs, [6, 0, 0, 0]);
    assert_eq!(two.pow_by_constant(&mut cs, 17).get_value().limbs, [131072, 0, 0, 0]);
    // p - 1 plus 2 wraps around to 1, and (p - 1) squared is 1
    let minus_one = constant([0xffffffff00000000, 0x53bda402fffe5bfe, 0x3339d80809a1d805, 0x73eda753299d7d48]);
    assert_eq!(minus_one.add(&mut cs, &two).get_value().limbs, [1, 0, 0, 0]);
    assert_eq!(minus_one.mul(&mut cs, &minus_one).get_value().limbs, [1, 0, 0, 0]);
    assert_eq!(cs.num_gates(), 0);
    assert!(Fe::from_limbs([0xffffffff00000000, 0x53bda402fffe5bfe, 0x3339d80809a1d805, 0x73eda753299d7d48]).is_some());
    assert!(Fe::from_limbs([0xffffffff00000001, 0x53bda402fffe5bfe, 0x3339d80809a1d805, 0x73eda753299d7d48]).is_none());
}

#[test]
fn field_equality_enforced() {
    let mut cs = ConstraintSystem::new();
    let a = FieldWire::new_variable(&mut cs, Fe { limbs: [7, 1, 0, 0] }, AllocationMode::Witness);
    let b = constant([7, 1, 0, 0]);
    a.enforce_equal(&mut cs, &b);
    assert!(cs.is_satisfied());
    let c = constant([7, 0, 0, 0]);
    a.enforce_equal(&mut cs, &c);
    assert!(!cs.is_satisfied());
}

#[test]
fn field_wires_fold_constants() {
    let mut cs = ConstraintSystem::new();
    let a = FieldWire::Constant(Fe { limbs: [4, 0, 0, 0] });
    let b = FieldWire::new_variable(&mut cs, Fe { limbs: [5, 0, 0, 0] }, AllocationMode::Witness);
    let c = a.mul(&mut cs, &a);
    assert_eq!(cs.num_gates(), 1);
    assert_eq!(c.get_value().limbs, [16, 0, 0, 0]);
    let d = c.add(&mut cs, &b);
    assert_eq!(cs.num_gates(), 2);
    assert_eq!(d.get_value().limbs, [21, 0, 0, 0]);
}

#[test]
fn statement_holds_only_with_the_right_commitment() {
    let adj = chain4();
    let commitment = hash_of(&adj)[0];
    let good = GraphCircuit { adj_matrix: adj.clone(), toposort: vec![0, 1, 2, 3], adj_hash: commitment };
    let mut cs = ConstraintSystem::new();
    good.generate_constraints(&mut cs, poseidon_parameters_for_test()).unwrap();
    assert!(cs.is_satisfied());

    let wrong_hash = GraphCircuit { adj_matrix: adj.clone(), toposort: vec![0, 1, 2, 3], adj_hash: Fe::zero() };
    let mut cs = ConstraintSystem::new();
    wrong_hash.generate_constraints(&mut cs, poseidon_parameters_for_test()).unwrap();
    assert!(!cs.is_satisfied());

    let wrong_order = GraphCircuit { adj_matrix: adj, toposort: vec![1, 0, 2, 3], adj_hash: commitment };
    let mut cs = ConstraintSystem::new();
    wrong_order.generate_constraints(&mut cs, poseidon_parameters_for_test()).unwrap();
    assert!(!cs.is_satisfied());
}

#[test]
fn same_shape_builds_same_structure() {
    let p = poseidon_parameters_for_test();
    let a = GraphCircuit { adj_matrix: chain4(), toposort: vec![0, 1, 2, 3], adj_hash: Fe::zero() };
    let b = GraphCircuit { adj_matrix: vec![vec![true; 4]; 4], toposort: vec![9, 9, 9, 9], adj_hash: Fe::one() };
    let mut cs1 = ConstraintSystem::new();
    let mut cs2 = ConstraintSystem::new();
    a.generate_constraints(&mut cs1, poseidon_parameters_for_test()).unwrap();
    b.generate_constraints(&mut cs2, p).unwrap();
    assert_eq!(cs1.num_gates(), cs2.num_gates());
}
