use vstd::prelude::*;
use ark_bls12_381::Fr;
use ark_crypto_primitives::crh::poseidon::CRH;
use ark_crypto_primitives::crh::CRHScheme;
use ark_crypto_primitives::sponge::poseidon::PoseidonConfig;
use ark_ff::{BigInteger, PrimeField};
use crate::grid::{Grid, grid_view};
use crate::params::{HashParams, HashParamsModel};

verus! {

/// The Poseidon digest, as the little-endian bytes of a BLS12-381 scalar, of the
/// field elements `input` (one per byte) under parameters `params`.
pub uninterp spec fn sponge_digest(params: HashParamsModel, input: Seq<u8>) -> Seq<u8>;

/// Relies on ark-crypto-primitives' Poseidon `CRH::evaluate` over the BLS12-381
/// scalar field, which absorbs the elements and squeezes one; `PoseidonConfig::new`
/// panics unless the shape is well formed, and a rate of 0 never ends. The digest
/// depends on the parameters and input alone.
#[verifier::external_body]
fn poseidon_evaluate(params: &HashParams, input: &Vec<u8>) -> (r: Vec<u8>)
    requires
        params@.wf(),
    ensures
        r@ == sponge_digest(params@, input@),
{
    let mds = params.mds.iter().map(|r| r.iter().map(|b| Fr::from_le_bytes_mod_order(b)).collect()).collect();
    let ark = params.ark.iter().map(|r| r.iter().map(|b| Fr::from_le_bytes_mod_order(b)).collect()).collect();
    let config = PoseidonConfig::<Fr>::new(
        params.full_rounds, params.partial_rounds, params.alpha, mds, ark, params.rate, params.capacity,
    );
    let elements: Vec<Fr> = input.iter().map(|c| Fr::from(*c)).collect();
    CRH::<Fr>::evaluate(&config, elements).unwrap().into_bigint().to_bytes_le()
}

/// The cells of a grid in row-major order.
pub open spec fn row_major(g: Seq<Seq<u8>>) -> Seq<u8>
    decreases g.len(),
{
    if g.len() == 0 {
        Seq::empty()
    } else {
        row_major(g.drop_last()) + g.last()
    }
}

/// The cells of a grid in row-major order, the order in which they are hashed.
pub fn flatten(g: &Grid) -> (r: Vec<u8>)
    ensures
        r@ == row_major(grid_view(g)),
{
    let mut out: Vec<u8> = Vec::new();
    let mut i: usize = 0;
    while i < g.len()
        invariant
            0 <= i <= g@.len(),
            out@ == row_major(grid_view(g).take(i as int)),
        decreases g@.len() - i,
    {
        let row = &g[i];
        let ghost before = out@;
        let mut j: usize = 0;
        while j < row.len()
            invariant
                0 <= j <= row@.len(),
                row == g@[i as int],
                out@ == before + row@.take(j as int),
            decreases row@.len() - j,
        {
            out.push(row[j]);
            assert(out@ =~= before + row@.take(j + 1));
            j = j + 1;
        }
        assert(row@.take(j as int) =~= row@);
        assert(grid_view(g).take(i + 1).drop_last() =~= grid_view(g).take(i as int));
        i = i + 1;
    }
    assert(grid_view(g).take(i as int) =~= grid_view(g));
    out
}

/// The commitment to a grid: the digest of its cells in row-major order.
pub fn hash_grid(params: &HashParams, g: &Grid) -> (r: Vec<u8>)
    requires
        params@.wf(),
    ensures
        r@ == sponge_digest(params@, row_major(grid_view(g))),
{
    let cells = flatten(g);
    poseidon_evaluate(params, &cells)
}

/// Hashing one grid twice under the same parameters gives one commitment.
pub proof fn lemma_hash_deterministic(params: HashParamsModel, a: Seq<Seq<u8>>, b: Seq<Seq<u8>>)
    requires
        a == b,
    ensures
        sponge_digest(params, row_major(a)) == sponge_digest(params, row_major(b)),
{
}

} // verus!
