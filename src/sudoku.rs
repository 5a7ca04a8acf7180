use vstd::prelude::*;
use crate::circuit::{is_satisfied, valid_instance};
use crate::grid::{Grid, grid_view, is_square, read_grid, write_grid, lemma_grid_round_trip};
use crate::hash::{hash_grid, row_major, sponge_digest};
use crate::params::HashParams;

verus! {

/// The public puzzle: cell 0 is blank.
#[derive(Clone, Debug)]
pub struct Puzzle(pub Grid);

/// A solution of a puzzle, known to the prover only.
#[derive(Clone, Debug)]
pub struct Solution(pub Grid);

/// A puzzle with its solution.
#[derive(Clone, Debug)]
pub struct PuzSol {
    pub puzzle: Puzzle,
    pub solution: Solution,
}

/// The circuit's inputs for grids of size `size`: hash parameters, and, when proving,
/// the public commitment and the two grids. Key setup leaves the last three out.
#[derive(Clone, Debug)]
pub struct Sudoku {
    pub size: usize,
    pub poseidon_config: HashParams,
    pub hash: Option<Vec<u8>>,
    pub puzzle: Option<Puzzle>,
    pub solution: Option<Solution>,
}

/// Why an assignment could not be built.
#[derive(Clone, Copy, Debug, PartialEq, Eq, Structural)]
pub enum ProveError {
    /// The hash parameters do not have the shape the sponge needs.
    InvalidParams,
}

/// Whether two byte strings are equal.
fn bytes_equal(a: &Vec<u8>, b: &Vec<u8>) -> (r: bool)
    ensures
        r == (a@ == b@),
{
    if a.len() != b.len() {
        return false;
    }
    let mut i: usize = 0;
    while i < a.len()
        invariant
            0 <= i <= a@.len(),
            a@.len() == b@.len(),
            forall|k: int| 0 <= k < i ==> a@[k] == b@[k],
        decreases a@.len() - i,
    {
        if a[i] != b[i] {
            return false;
        }
        i = i + 1;
    }
    assert(a@ =~= b@);
    true
}

/// A copy of a grid.
pub fn copy_grid(g: &Grid) -> (r: Grid)
    ensures
        grid_view(&r) == grid_view(g),
{
    let mut out: Grid = Vec::new();
    let mut i: usize = 0;
    while i < g.len()
        invariant
            0 <= i <= g@.len(),
            out@.len() == i,
            forall|k: int| 0 <= k < i ==> #[trigger] out@[k]@ == g@[k]@,
        decreases g@.len() - i,
    {
        let row = g[i].clone();
        assert(row@ =~= g@[i as int]@);
        out.push(row);
        i = i + 1;
    }
    assert(grid_view(&out) =~= grid_view(g));
    out
}

/// An `n` by `n` grid of zeros.
pub fn zero_grid(n: usize) -> (r: Grid)
    ensures
        is_square(grid_view(&r), n as nat),
        forall|i: int, j: int| 0 <= i < n && 0 <= j < n ==> #[trigger] grid_view(&r)[i][j] == 0,
{
    let mut out: Grid = Vec::new();
    let mut i: usize = 0;
    while i < n
        invariant
            0 <= i <= n,
            out@.len() == i,
            forall|k: int| 0 <= k < i ==> #[trigger] out@[k]@.len() == n,
            forall|k: int, j: int| 0 <= k < i && 0 <= j < n ==> #[trigger] out@[k]@[j] == 0,
        decreases n - i,
    {
        let mut row: Vec<u8> = Vec::new();
        let mut j: usize = 0;
        while j < n
            invariant
                0 <= j <= n,
                row@.len() == j,
                forall|m: int| 0 <= m < j ==> #[trigger] row@[m] == 0,
            decreases n - j,
        {
            row.push(0u8);
            j = j + 1;
        }
        out.push(row);
        i = i + 1;
    }
    out
}

impl Sudoku {
    /// The grids the circuit's variables take: the puzzle and the solution where
    /// given, and grids of zeros of the circuit's size where not (during key setup).
    pub fn assignment(&self) -> (r: (Grid, Grid))
        ensures
            match self.puzzle {
                Some(p) => grid_view(&r.0) == grid_view(&p.0),
                None => is_square(grid_view(&r.0), self.size as nat)
                    && forall|i: int, j: int| 0 <= i < self.size && 0 <= j < self.size ==> #[trigger] grid_view(&r.0)[i][j] == 0,
            },
            match self.solution {
                Some(q) => grid_view(&r.1) == grid_view(&q.0),
                None => is_square(grid_view(&r.1), self.size as nat)
                    && forall|i: int, j: int| 0 <= i < self.size && 0 <= j < self.size ==> #[trigger] grid_view(&r.1)[i][j] == 0,
            },
    {
        let p = match &self.puzzle {
            Some(p) => copy_grid(&p.0),
            None => zero_grid(self.size),
        };
        let q = match &self.solution {
            Some(q) => copy_grid(&q.0),
            None => zero_grid(self.size),
        };
        (p, q)
    }

    /// Whether the circuit's constraints hold of this assignment: a puzzle, a solution
    /// and a public input are all given, the solution is valid for the puzzle at the
    /// circuit's size, and the public input is the puzzle's commitment.
    pub fn accepts(&self) -> (r: bool)
        requires
            self.poseidon_config@.wf(),
        ensures
            r == match (self.puzzle, self.solution, self.hash) {
                (Some(p), Some(q), Some(h)) => {
                    &&& valid_instance(grid_view(&p.0), grid_view(&q.0), self.size as nat)
                    &&& h@ == sponge_digest(self.poseidon_config@, row_major(grid_view(&p.0)))
                },
                _ => false,
            },
    {
        match (&self.puzzle, &self.solution, &self.hash) {
            (Some(p), Some(q), Some(h)) => {
                if p.0.len() != self.size || !is_satisfied(&p.0, &q.0) {
                    return false;
                }
                let digest = hash_grid(&self.poseidon_config, &p.0);
                bytes_equal(h, &digest)
            },
            _ => false,
        }
    }

    /// The circuit without a witness, from which keys for size `size` are made.
    pub fn for_setup(size: usize, poseidon_config: HashParams) -> (r: Sudoku)
        ensures
            r.size == size,
            r.poseidon_config == poseidon_config,
            r.hash is None,
            r.puzzle is None,
            r.solution is None,
    {
        Sudoku { size, poseidon_config, hash: None, puzzle: None, solution: None }
    }
}

/// The circuit's full assignment for a puzzle and its solution: the size is the
/// puzzle's number of rows and the public input is the puzzle's commitment. Only
/// malformed hash parameters are refused: whether the solution satisfies the
/// constraints is decided when the assignment is checked, at proving time.
pub fn mk_sudoku(poseidon_config: &HashParams, example: &PuzSol) -> (r: Result<Sudoku, ProveError>)
    ensures
        r is Err <==> !poseidon_config@.wf(),
        r is Err ==> r == Err::<Sudoku, ProveError>(ProveError::InvalidParams),
        r matches Ok(s) ==> {
            &&& s.size == example.puzzle.0@.len()
            &&& s.poseidon_config@ == poseidon_config@
            &&& s.hash matches Some(h) && h@ == sponge_digest(poseidon_config@, row_major(grid_view(&example.puzzle.0)))
            &&& s.puzzle matches Some(p) && grid_view(&p.0) == grid_view(&example.puzzle.0)
            &&& s.solution matches Some(q) && grid_view(&q.0) == grid_view(&example.solution.0)
        },
{
    if !poseidon_config.is_well_formed() {
        return Err(ProveError::InvalidParams);
    }
    let hash = hash_grid(poseidon_config, &example.puzzle.0);
    let config = poseidon_config.copy();
    Ok(Sudoku {
        size: example.puzzle.0.len(),
        poseidon_config: config,
        hash: Some(hash),
        puzzle: Some(Puzzle(copy_grid(&example.puzzle.0))),
        solution: Some(Solution(copy_grid(&example.solution.0))),
    })
}


/// The public commitment to a puzzle.
pub fn hash_puzzle(poseidon_config: &HashParams, puzzle: &Puzzle) -> (r: Vec<u8>)
    requires
        poseidon_config@.wf(),
    ensures
        r@ == sponge_digest(poseidon_config@, row_major(grid_view(&puzzle.0))),
{
    hash_grid(poseidon_config, &puzzle.0)
}

pub open spec fn example_puzzle() -> Seq<Seq<u8>> {
    seq![seq![1u8, 0u8], seq![0u8, 2u8]]
}

pub open spec fn example_solution() -> Seq<Seq<u8>> {
    seq![seq![1u8, 2u8], seq![1u8, 2u8]]
}

/// The two by two example: puzzle `[[1, 0], [0, 2]]`, passed once through its text
/// form, and solution `[[1, 2], [1, 2]]`.
pub fn example_2() -> (r: PuzSol)
    ensures
        grid_view(&r.puzzle.0) == example_puzzle(),
        grid_view(&r.solution.0) == example_solution(),
{
    let original: Grid = vec![vec![1u8, 0u8], vec![0u8, 2u8]];
    assert(grid_view(&original) =~= example_puzzle());
    let text = write_grid(&original);
    proof {
        lemma_grid_round_trip(grid_view(&original), 2);
    }
    let puzzle = match read_grid(&text, 2) {
        Ok(g) => g,
        Err(_) => original,
    };
    let solution: Grid = vec![vec![1u8, 2u8], vec![1u8, 2u8]];
    assert(grid_view(&solution) =~= example_solution());
    PuzSol { puzzle: Puzzle(puzzle), solution: Solution(solution) }
}

} // verus!
