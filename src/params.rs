use vstd::prelude::*;
use ark_bls12_381::Fr;
use ark_ff::UniformRand;
use ark_ff::{BigInteger, PrimeField};

verus! {

/// Parameters of the Poseidon sponge hash. Field elements are held as the
/// little-endian bytes of their integer value.
#[derive(Clone, Debug)]
pub struct HashParams {
    pub full_rounds: usize,
    pub partial_rounds: usize,
    pub alpha: u64,
    pub mds: Vec<Vec<Vec<u8>>>,
    pub ark: Vec<Vec<Vec<u8>>>,
    pub rate: usize,
    pub capacity: usize,
}

/// The mathematical content of `HashParams`.
pub struct HashParamsModel {
    pub full_rounds: nat,
    pub partial_rounds: nat,
    pub alpha: u64,
    pub mds: Seq<Seq<Seq<u8>>>,
    pub ark: Seq<Seq<Seq<u8>>>,
    pub rate: nat,
    pub capacity: nat,
}

pub open spec fn matrix_view(m: Seq<Vec<Vec<u8>>>) -> Seq<Seq<Seq<u8>>> {
    Seq::new(m.len(), |i: int| Seq::new(m[i]@.len(), |j: int| m[i]@[j]@))
}

impl View for HashParams {
    type V = HashParamsModel;

    open spec fn view(&self) -> HashParamsModel {
        HashParamsModel {
            full_rounds: self.full_rounds as nat,
            partial_rounds: self.partial_rounds as nat,
            alpha: self.alpha,
            mds: matrix_view(self.mds@),
            ark: matrix_view(self.ark@),
            rate: self.rate as nat,
            capacity: self.capacity as nat,
        }
    }
}

impl HashParamsModel {
    /// The shape the sponge needs: a rate of at least one, one round-constant row of
    /// width `rate + capacity` per round, and a square MDS matrix of that width.
    pub open spec fn wf(self) -> bool {
        let w = self.rate + self.capacity;
        &&& self.rate >= 1
        &&& self.ark.len() == self.full_rounds + self.partial_rounds
        &&& forall|i: int| 0 <= i < self.ark.len() ==> #[trigger] self.ark[i].len() == w
        &&& self.mds.len() == w
        &&& forall|i: int| 0 <= i < self.mds.len() ==> #[trigger] self.mds[i].len() == w
    }
}

/// Whether every row of `m` has `w` entries.
fn rows_have_width(m: &Vec<Vec<Vec<u8>>>, w: usize) -> (r: bool)
    ensures
        r == forall|i: int| 0 <= i < m@.len() ==> #[trigger] matrix_view(m@)[i].len() == w,
{
    let mut i: usize = 0;
    while i < m.len()
        invariant
            0 <= i <= m@.len(),
            forall|k: int| 0 <= k < i ==> #[trigger] matrix_view(m@)[k].len() == w,
        decreases m@.len() - i,
    {
        if m[i].len() != w {
            assert(matrix_view(m@)[i as int].len() != w);
            return false;
        }
        i = i + 1;
    }
    true
}

fn copy_matrix(m: &Vec<Vec<Vec<u8>>>) -> (r: Vec<Vec<Vec<u8>>>)
    ensures
        matrix_view(r@) == matrix_view(m@),
{
    let mut out: Vec<Vec<Vec<u8>>> = Vec::new();
    let mut i: usize = 0;
    while i < m.len()
        invariant
            0 <= i <= m@.len(),
            out@.len() == i,
            forall|k: int| 0 <= k < i ==> #[trigger] matrix_view(out@)[k] == matrix_view(m@)[k],
        decreases m@.len() - i,
    {
        let mut row: Vec<Vec<u8>> = Vec::new();
        let mut j: usize = 0;
        while j < m[i].len()
            invariant
                0 <= i < m@.len(),
                0 <= j <= m@[i as int]@.len(),
                row@.len() == j,
                forall|k: int| 0 <= k < j ==> #[trigger] row@[k]@ == m@[i as int]@[k]@,
            decreases m@[i as int]@.len() - j,
        {
            let e = m[i][j].clone();
            assert(e@ =~= m@[i as int]@[j as int]@);
            row.push(e);
            j = j + 1;
        }
        let ghost before = out@;
        out.push(row);
        assert(matrix_view(out@)[i as int] =~= matrix_view(m@)[i as int]);
        assert forall|k: int| 0 <= k < i implies #[trigger] matrix_view(out@)[k] == matrix_view(m@)[k] by {
            assert(out@[k] == before[k]);
            assert(matrix_view(before)[k] == matrix_view(m@)[k]);
        }
        i = i + 1;
    }
    assert(matrix_view(out@) =~= matrix_view(m@));
    out
}

impl HashParams {
    /// A copy of the parameters.
    pub fn copy(&self) -> (r: HashParams)
        ensures
            r@ == self@,
    {
        HashParams {
            full_rounds: self.full_rounds,
            partial_rounds: self.partial_rounds,
            alpha: self.alpha,
            mds: copy_matrix(&self.mds),
            ark: copy_matrix(&self.ark),
            rate: self.rate,
            capacity: self.capacity,
        }
    }

    /// Whether the parameters have the shape the sponge needs.
    pub fn is_well_formed(&self) -> (r: bool)
        ensures
            r == self@.wf(),
    {
        let m = self.mds.len();
        let a = self.ark.len();
        if self.rate < 1 || self.capacity > usize::MAX - self.rate {
            return false;
        }
        if self.partial_rounds > usize::MAX - self.full_rounds {
            return false;
        }
        let w = self.rate + self.capacity;
        a == self.full_rounds + self.partial_rounds && rows_have_width(&self.ark, w) && m == w
            && rows_have_width(&self.mds, w)
    }
}

/// Why hash parameters could not be made.
#[derive(Clone, Copy, Debug, PartialEq, Eq, Structural)]
pub enum ParamsError {
    /// The grid size is below 2 (no positive rate) or above 255 (cells are bytes).
    UnsupportedSize,
}

pub const FULL_ROUNDS: usize = 8;

pub const PARTIAL_ROUNDS: usize = 24;

pub const ALPHA: u64 = 31;

/// Relies on `UniformRand::rand` for the BLS12-381 scalar field, drawn from
/// `ark_std::test_rng`, and on `BigInteger::to_bytes_le`: `count` elements come
/// back. Their values are random.
#[verifier::external_body]
fn random_field_elements(count: usize) -> (r: Vec<Vec<u8>>)
    ensures
        r@.len() == count,
{
    let mut rng = ark_std::test_rng();
    (0..count).map(|_| Fr::rand(&mut rng).into_bigint().to_bytes_le()).collect()
}

/// Hash parameters for grids of size `n`: 8 full and 24 partial rounds, S-box
/// exponent 31, rate `min(4, n - 1)` and capacity `n - rate`, with a random MDS
/// matrix and random round constants. The random source is not cryptographic:
/// these parameters are for experiments only.
pub fn mk_poseidon_config(n: usize) -> (r: Result<HashParams, ParamsError>)
    ensures
        r is Err <==> n < 2 || n > 255,
        r matches Ok(p) ==> {
            &&& p.full_rounds == FULL_ROUNDS
            &&& p.partial_rounds == PARTIAL_ROUNDS
            &&& p.alpha == ALPHA
            &&& p.rate == if n - 1 < 4 { n - 1 } else { 4 }
            &&& p.capacity == n - p.rate
            &&& p@.wf()
        },
{
    if n < 2 || n > 255 {
        return Err(ParamsError::UnsupportedSize);
    }
    let rate: usize = if n - 1 < 4 { n - 1 } else { 4 };
    let capacity: usize = n - rate;
    let rounds: usize = FULL_ROUNDS + PARTIAL_ROUNDS;
    assert(n * n <= 65025) by (nonlinear_arith)
        requires n <= 255;
    let draws = random_field_elements(n * n + rounds * n);
    let mut mds: Vec<Vec<Vec<u8>>> = Vec::new();
    let mut k: usize = 0;
    let mut i: usize = 0;
    while i < n
        invariant
            2 <= n <= 255,
            n * n <= 65025,
            0 <= i <= n,
            k == i * n,
            draws@.len() == n * n + rounds * n,
            rounds == 32,
            mds@.len() == i,
            forall|a: int| 0 <= a < i ==> #[trigger] mds@[a]@.len() == n,
        decreases n - i,
    {
        let mut row: Vec<Vec<u8>> = Vec::new();
        let mut j: usize = 0;
        while j < n
            invariant
                2 <= n <= 255,
                n * n <= 65025,
                0 <= i < n,
                0 <= j <= n,
                k == i * n + j,
                draws@.len() == n * n + rounds * n,
                row@.len() == j,
            decreases n - j,
        {
            proof {
                assert(i * n + j < n * n) by (nonlinear_arith)
                    requires 0 <= i < n, 0 <= j < n;
            }
            row.push(draws[k].clone());
            k = k + 1;
            j = j + 1;
        }
        mds.push(row);
        assert(k == (i + 1) * n) by (nonlinear_arith)
            requires k == i * n + n;
        i = i + 1;
    }
    let mut ark: Vec<Vec<Vec<u8>>> = Vec::new();
    i = 0;
    while i < rounds
        invariant
            2 <= n <= 255,
            n * n <= 65025,
            rounds == 32,
            0 <= i <= rounds,
            k == n * n + i * n,
            draws@.len() == n * n + rounds * n,
            ark@.len() == i,
            forall|a: int| 0 <= a < i ==> #[trigger] ark@[a]@.len() == n,
        decreases rounds - i,
    {
        let mut row: Vec<Vec<u8>> = Vec::new();
        let mut j: usize = 0;
        while j < n
            invariant
                2 <= n <= 255,
                n * n <= 65025,
                rounds == 32,
                0 <= i < rounds,
                0 <= j <= n,
                k == n * n + i * n + j,
                draws@.len() == n * n + rounds * n,
                row@.len() == j,
            decreases n - j,
        {
            proof {
                assert(i * n + j < rounds * n) by (nonlinear_arith)
                    requires 0 <= i < rounds, 0 <= j < n;
            }
            row.push(draws[k].clone());
            k = k + 1;
            j = j + 1;
        }
        ark.push(row);
        assert(k == n * n + (i + 1) * n) by (nonlinear_arith)
            requires k == n * n + i * n + n;
        i = i + 1;
    }
    let p = HashParams {
        full_rounds: FULL_ROUNDS,
        partial_rounds: PARTIAL_ROUNDS,
        alpha: ALPHA,
        mds,
        ark,
        rate,
        capacity,
    };
    assert(p@.wf());
    Ok(p)
}

} // verus!
