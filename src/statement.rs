//! The statement proved: the private graph hashes to the public commitment
//! and the private order is a topological order of it.
use vstd::prelude::*;
use crate::arrays::{Boolean2DArray, Uint8Array, is_square, rows_view};
use crate::circuit::{AllocationMode, ConstraintSystem, FieldWire, Gate, SynthesisError, alloc_gates, num_public, is_public, lemma_num_public_concat, lemma_num_public_alloc};
use crate::field::Fe;
use crate::graph_checks::{check_topo_sort, topo_sort_ok};
use crate::hashing::{commitment, hasher_var};
use crate::sponge::PoseidonParameters;

verus! {

/// The inputs of one proof: the graph and order stay private, the
/// commitment is public.
#[derive(Clone, Debug)]
pub struct GraphCircuit {
    pub adj_matrix: Vec<Vec<bool>>,
    pub toposort: Vec<u8>,
    pub adj_hash: Fe,
}

impl GraphCircuit {
    /// The number of nodes, given by the order.
    pub open spec fn num_nodes(&self) -> int {
        self.toposort@.len() as int
    }

    /// Allocates the graph and order as witnesses and the commitment as the
    /// one public input, recomputes the commitment in the circuit and
    /// enforces it equal to the input, then enforces the order.
    pub fn generate_constraints(&self, cs: &mut ConstraintSystem, parameters: PoseidonParameters) -> (r: Result<(), SynthesisError>)
        requires
            parameters.wf(),
        ensures
            r is Ok <==> is_square(rows_view(self.adj_matrix@), self.num_nodes()),
            r is Err ==> r == Err::<(), SynthesisError>(SynthesisError::ShapeMismatch) && *final(cs) == *old(cs),
            r is Ok ==> final(cs).satisfied == (old(cs).satisfied
                && commitment(parameters, rows_view(self.adj_matrix@)) == self.adj_hash.val()
                && topo_sort_ok(rows_view(self.adj_matrix@), self.toposort@.map_values(|x: u8| x as nat))),
            r is Ok ==> num_public(final(cs).gates@) == num_public(old(cs).gates@) + 1,
    {
        let ghost g0 = cs.gates@;
        let n = self.toposort.len();
        let adj = match Boolean2DArray::new_witness(cs, n, Some(&self.adj_matrix)) {
            Ok(a) => a,
            Err(e) => return Err(e),
        };
        proof {
            lemma_num_public_concat(g0, alloc_gates(crate::arrays::flat_values(self.adj_matrix@), AllocationMode::Witness));
            lemma_num_public_alloc(crate::arrays::flat_values(self.adj_matrix@), AllocationMode::Witness);
        }
        let ghost g1 = cs.gates@;
        let topo = match Uint8Array::new_witness(cs, n, Some(&self.toposort)) {
            Ok(t) => t,
            Err(e) => return Err(e),
        };
        proof {
            lemma_num_public_concat(g1, alloc_gates(topo.flat_bit_values(), AllocationMode::Witness));
            lemma_num_public_alloc(topo.flat_bit_values(), AllocationMode::Witness);
        }
        let ghost g2 = cs.gates@;
        let hash_claim = FieldWire::new_variable(cs, self.adj_hash, AllocationMode::Input);
        proof {
            assert(cs.gates@.drop_last() =~= g2);
            assert(is_public(Gate::AllocField(true, self.adj_hash)));
        }
        let hash_real = hasher_var(cs, &adj, parameters);
        hash_real[0].enforce_equal(cs, &hash_claim);
        check_topo_sort(cs, &adj, &topo)
    }
}

} // verus!
