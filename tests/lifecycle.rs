//! Key setup, proving and verification through arkworks' Groth16, with the circuit
//! built from the library's constraint plan the way the command-line front end
//! builds it.

use ark_bls12_381::{Bls12_381, Fr};
use ark_crypto_primitives::crh::poseidon::constraints::{CRHGadget, CRHParametersVar};
use ark_crypto_primitives::crh::CRHSchemeGadget;
use ark_crypto_primitives::snark::{CircuitSpecificSetupSNARK, SNARK};
use ark_crypto_primitives::sponge::poseidon::PoseidonConfig;
use ark_ff::PrimeField;
use ark_r1cs_std::fields::FieldVar;
use ark_groth16::{Groth16, Proof, ProvingKey, VerifyingKey};
use std::borrow::Borrow;

use ark_r1cs_std::alloc::{AllocVar, AllocationMode};
use ark_r1cs_std::boolean::Boolean;
use ark_r1cs_std::eq::EqGadget;
use ark_r1cs_std::fields::fp::FpVar;
use ark_r1cs_std::R1CSVar;
use ark_relations::r1cs::{ConstraintSynthesizer, ConstraintSystem, ConstraintSystemRef, Namespace, SynthesisError};
use ark_serialize::CanonicalSerialize;
use ark_std::rand::{rngs::StdRng, SeedableRng};

use sudoku_snark::snark::CheckError;
use sudoku_snark::{check_proof, constraint_plan, hash_puzzle, mk_poseidon_config, mk_sudoku, Constraint, Grid, HashParams, PuzSol, Puzzle, Solution, Sudoku};

struct Circuit(Sudoku);

fn to_poseidon_config(p: &HashParams) -> PoseidonConfig<Fr> {
    let field = |m: &Vec<Vec<Vec<u8>>>| -> Vec<Vec<Fr>> {
        m.iter()
            .map(|row| row.iter().map(|b| Fr::from_le_bytes_mod_order(b)).collect())
            .collect()
    };
    PoseidonConfig::new(p.full_rounds, p.partial_rounds, p.alpha, field(&p.mds), field(&p.ark), p.rate, p.capacity)
}
/// The puzzle's cells as private field variables.
pub struct PuzzleVar(pub Vec<Vec<FpVar<Fr>>>);

/// The solution's cells as private field variables.
pub struct SolutionVar(pub Vec<Vec<FpVar<Fr>>>);

fn allocate_grid(
    cs: impl Into<Namespace<Fr>>,
    g: &Grid,
    mode: AllocationMode,
) -> Result<Vec<Vec<FpVar<Fr>>>, SynthesisError> {
    let cs = cs.into().cs();
    g.iter()
        .map(|row| {
            row.iter()
                .map(|v| FpVar::new_variable(cs.clone(), || Ok(Fr::from(*v)), mode))
                .collect()
        })
        .collect()
}

impl AllocVar<Grid, Fr> for PuzzleVar {
    fn new_variable<T: Borrow<Grid>>(
        cs: impl Into<Namespace<Fr>>,
        f: impl FnOnce() -> Result<T, SynthesisError>,
        mode: AllocationMode,
    ) -> Result<Self, SynthesisError> {
        let value = f()?;
        allocate_grid(cs, value.borrow(), mode).map(PuzzleVar)
    }
}

impl AllocVar<Grid, Fr> for SolutionVar {
    fn new_variable<T: Borrow<Grid>>(
        cs: impl Into<Namespace<Fr>>,
        f: impl FnOnce() -> Result<T, SynthesisError>,
        mode: AllocationMode,
    ) -> Result<Self, SynthesisError> {
        let value = f()?;
        allocate_grid(cs, value.borrow(), mode).map(SolutionVar)
    }
}

impl ConstraintSynthesizer<Fr> for Circuit {
    fn generate_constraints(self, cs: ConstraintSystemRef<Fr>) -> Result<(), SynthesisError> {
        let s = self.0;
        let n = s.size;
        let (puzzle, solution) = s.assignment();
        let p = PuzzleVar::new_witness(cs.clone(), || Ok(puzzle))?.0;
        let q = SolutionVar::new_witness(cs.clone(), || Ok(solution))?.0;
        let zero = FpVar::<Fr>::zero();

        for c in constraint_plan(n) {
            match c {
                Constraint::InRange { row, col } => {
                    // (x - 1)(x - 2)...(x - n) vanishes exactly on 1..=n.
                    let mut acc = FpVar::<Fr>::one();
                    for k in 1..=n {
                        acc = acc * (&q[row][col] - FpVar::constant(Fr::from(k as u64)));
                    }
                    acc.enforce_equal(&zero)?;
                }
                Constraint::BlankOrEqual { row, col } => {
                    let agree = &p[row][col] * (&p[row][col] - &q[row][col]);
                    agree.enforce_equal(&zero)?;
                }
                Constraint::Distinct { row, left, right } => {
                    q[row][left].is_neq(&q[row][right])?.enforce_equal(&Boolean::TRUE)?;
                }
            }
        }

        let params = CRHParametersVar::<Fr>::new_constant(cs.clone(), to_poseidon_config(&s.poseidon_config))?;
        let cells: Vec<FpVar<Fr>> = p.into_iter().flatten().collect();
        let digest = CRHGadget::<Fr>::evaluate(&params, &cells)?;
        let hash = s.hash;
        let public = FpVar::new_input(cs, || {
            hash.as_ref()
                .map(|b| Fr::from_le_bytes_mod_order(b))
                .ok_or(SynthesisError::AssignmentMissing)
        })?;
        digest.enforce_equal(&public)
    }
}

fn keys(n: usize, params: &HashParams, seed: u64) -> (ProvingKey<Bls12_381>, VerifyingKey<Bls12_381>) {
    let mut rng = StdRng::seed_from_u64(seed);
    Groth16::<Bls12_381>::setup(Circuit(Sudoku::for_setup(n, params.clone())), &mut rng).unwrap()
}

fn bytes<T: CanonicalSerialize>(t: &T) -> Vec<u8> {
    let mut v = Vec::new();
    t.serialize_compressed(&mut v).unwrap();
    v
}

fn example() -> PuzSol {
    PuzSol {
        puzzle: Puzzle(vec![vec![1, 0], vec![0, 2]]),
        solution: Solution(vec![vec![1, 2], vec![1, 2]]),
    }
}

fn proof_of(pk: &ProvingKey<Bls12_381>, sudoku: &Sudoku, seed: u64) -> Proof<Bls12_381> {
    let mut rng = StdRng::seed_from_u64(seed);
    Groth16::<Bls12_381>::prove(pk, Circuit(sudoku.clone()), &mut rng).unwrap()
}

#[test]
fn test_prove_and_verify() {
    let params = mk_poseidon_config(2).unwrap();
    let (pk, vk) = keys(2, &params, 1);
    let sudoku = mk_sudoku(&params, &example()).unwrap();
    let proof = proof_of(&pk, &sudoku, 2);
    let hash = sudoku.hash.clone().unwrap();
    assert_eq!(check_proof(&bytes(&vk), &hash, &bytes(&proof)), Ok(true));
}

/// Whether the circuit's constraints hold of the witness. Building the constraints
/// never fails on a violation; the check finds it.
fn satisfied(s: Sudoku) -> bool {
    let cs = ConstraintSystem::<Fr>::new_ref();
    Circuit(s).generate_constraints(cs.clone()).unwrap();
    cs.is_satisfied().unwrap()
}

#[test]
fn circuit_is_satisfied_only_by_valid_witnesses() {
    let params = mk_poseidon_config(2).unwrap();
    let good = mk_sudoku(&params, &example()).unwrap();
    assert!(satisfied(good.clone()));

    let mut duplicate = good.clone();
    duplicate.solution = Some(Solution(vec![vec![1, 1], vec![2, 2]]));
    assert!(!satisfied(duplicate));

    let mut out_of_range = good.clone();
    out_of_range.solution = Some(Solution(vec![vec![1, 3], vec![1, 2]]));
    assert!(!satisfied(out_of_range));

    let mut zero = good.clone();
    zero.solution = Some(Solution(vec![vec![1, 0], vec![1, 2]]));
    assert!(!satisfied(zero));

    let mut wrong_hash = good.clone();
    wrong_hash.hash = Some(hash_puzzle(&params, &Puzzle(vec![vec![2, 0], vec![0, 1]])));
    assert!(!wrong_hash.accepts());
    assert!(!satisfied(wrong_hash));
    assert!(good.accepts());
}

#[test]
fn hash_of_another_puzzle_rejects() {
    let params = mk_poseidon_config(2).unwrap();
    let (pk, vk) = keys(2, &params, 3);
    let sudoku = mk_sudoku(&params, &example()).unwrap();
    let proof = proof_of(&pk, &sudoku, 4);
    let other = hash_puzzle(&params, &Puzzle(vec![vec![0, 2], vec![1, 0]]));
    assert_eq!(check_proof(&bytes(&vk), &other, &bytes(&proof)), Ok(false));
}

#[test]
fn key_for_another_size_rejects() {
    let params2 = mk_poseidon_config(2).unwrap();
    let params3 = mk_poseidon_config(3).unwrap();
    let (pk, _) = keys(2, &params2, 5);
    let (_, vk3) = keys(3, &params3, 6);
    let sudoku = mk_sudoku(&params2, &example()).unwrap();
    let proof = proof_of(&pk, &sudoku, 7);
    let hash = sudoku.hash.clone().unwrap();
    assert_eq!(check_proof(&bytes(&vk3), &hash, &bytes(&proof)), Ok(false));
}

#[test]
fn two_proofs_differ_and_both_verify() {
    let params = mk_poseidon_config(2).unwrap();
    let (pk, vk) = keys(2, &params, 8);
    let sudoku = mk_sudoku(&params, &example()).unwrap();
    let hash = sudoku.hash.clone().unwrap();
    let p1 = bytes(&proof_of(&pk, &sudoku, 9));
    let p2 = bytes(&proof_of(&pk, &sudoku, 10));
    assert_ne!(p1, p2);
    assert_eq!(check_proof(&bytes(&vk), &hash, &p1), Ok(true));
    assert_eq!(check_proof(&bytes(&vk), &hash, &p2), Ok(true));
}

#[test]
fn undecodable_artifacts_are_errors() {
    let params = mk_poseidon_config(2).unwrap();
    let (pk, vk) = keys(2, &params, 11);
    let sudoku = mk_sudoku(&params, &example()).unwrap();
    let proof = bytes(&proof_of(&pk, &sudoku, 12));
    let hash = sudoku.hash.clone().unwrap();
    assert_eq!(check_proof(&vec![1, 2, 3], &hash, &proof), Err(CheckError::Decode));
    assert_eq!(check_proof(&bytes(&vk), &hash, &vec![0u8; 5]), Err(CheckError::Decode));
}

#[test]
fn native_and_circuit_hashes_agree() {
    for n in [2usize, 3, 5] {
        let params = mk_poseidon_config(n).unwrap();
        let grid: Grid = (0..n).map(|r| (0..n).map(|c| ((r * n + c) % (n + 1)) as u8).collect()).collect();
        let native = hash_puzzle(&params, &Puzzle(grid.clone()));
        let cs = ConstraintSystem::<Fr>::new_ref();
        let cells = PuzzleVar::new_witness(cs.clone(), || Ok(grid.clone())).unwrap().0.into_iter().flatten().collect::<Vec<_>>();
        let pv = CRHParametersVar::<Fr>::new_constant(cs.clone(), to_poseidon_config(&params)).unwrap();
        let in_circuit = CRHGadget::<Fr>::evaluate(&pv, &cells).unwrap().value().unwrap();
        assert_eq!(Fr::from_le_bytes_mod_order(&native), in_circuit);
    }
}
