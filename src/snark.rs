use vstd::prelude::*;
use ark_bls12_381::{Bls12_381, Fr};
use ark_crypto_primitives::snark::SNARK;
use ark_ff::PrimeField;
use ark_groth16::{Groth16, Proof, VerifyingKey};
use ark_serialize::CanonicalDeserialize;

verus! {

/// How a verification call can fail before it reaches a verdict.
#[derive(Clone, Copy, Debug, PartialEq, Eq, Structural)]
pub enum VerifyFailure {
    /// The verifying key or the proof is not a canonical compressed encoding.
    Decode,
    /// The verifying key does not have one input commitment per public input, plus one.
    Malformed,
}

/// Why a proof could not be checked.
#[derive(Clone, Copy, Debug, PartialEq, Eq, Structural)]
pub enum CheckError {
    /// The verifying key or the proof could not be decoded.
    Decode,
}

/// What Groth16 verification over BLS12-381 says of a compressed verifying key, one
/// public input (little-endian bytes, reduced modulo the scalar field) and a
/// compressed proof.
pub uninterp spec fn groth16_verdict(vk: Seq<u8>, input: Seq<u8>, proof: Seq<u8>) -> Result<bool, VerifyFailure>;

/// Relies on ark-groth16's `Groth16::verify` over BLS12-381, on
/// `CanonicalDeserialize::deserialize_compressed` for the key and the proof, and on
/// `PrimeField::from_le_bytes_mod_order` for the input. The verdict depends on the
/// three byte strings alone.
#[verifier::external_body]
fn groth16_verify(vk: &Vec<u8>, input: &Vec<u8>, proof: &Vec<u8>) -> (r: Result<bool, VerifyFailure>)
    ensures
        r == groth16_verdict(vk@, input@, proof@),
{
    let vk = VerifyingKey::<Bls12_381>::deserialize_compressed(&vk[..]).map_err(|_| VerifyFailure::Decode)?;
    let proof = Proof::<Bls12_381>::deserialize_compressed(&proof[..]).map_err(|_| VerifyFailure::Decode)?;
    let x = Fr::from_le_bytes_mod_order(input);
    Groth16::<Bls12_381>::verify(&vk, &[x], &proof).map_err(|_| VerifyFailure::Malformed)
}

/// What a verifier reports for a verification outcome: a verdict stands; a key that
/// does not fit the single public input rejects, as any mismatched key does; only
/// undecodable bytes are an error.
pub open spec fn report_spec(v: Result<bool, VerifyFailure>) -> Result<bool, CheckError> {
    match v {
        Ok(b) => Ok(b),
        Err(VerifyFailure::Malformed) => Ok(false),
        Err(VerifyFailure::Decode) => Err(CheckError::Decode),
    }
}

/// What a verifier reports for a verification outcome.
pub fn report(v: Result<bool, VerifyFailure>) -> (r: Result<bool, CheckError>)
    ensures
        r == report_spec(v),
{
    match v {
        Ok(b) => Ok(b),
        Err(VerifyFailure::Malformed) => Ok(false),
        Err(VerifyFailure::Decode) => Err(CheckError::Decode),
    }
}

/// Checks a proof against a verifying key and the public commitment. Returns
/// `Ok(false)` for every proof that does not verify, whatever the reason, and an
/// error only for bytes that do not decode.
pub fn check_proof(vk: &Vec<u8>, hash: &Vec<u8>, proof: &Vec<u8>) -> (r: Result<bool, CheckError>)
    ensures
        r == report_spec(groth16_verdict(vk@, hash@, proof@)),
{
    report(groth16_verify(vk, hash, proof))
}

} // verus!
