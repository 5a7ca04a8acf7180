use vstd::prelude::*;
use crate::grid::{Grid, grid_view, is_square};

verus! {

/// One constraint of the puzzle-solution circuit, over the cell grids.
#[derive(Clone, Copy, Debug, PartialEq, Eq, Structural)]
pub enum Constraint {
    /// The solution cell lies in `1..=n`.
    InRange { row: usize, col: usize },
    /// The puzzle cell is blank (0) or equals the solution cell.
    BlankOrEqual { row: usize, col: usize },
    /// Two cells of one solution row differ (`left < right`).
    Distinct { row: usize, left: usize, right: usize },
}

/// The constraints of the circuit for grids of size `n`: both cell constraints of
/// every cell, and one inequality for every pair of cells within a row. Columns and
/// boxes are not constrained.
pub open spec fn in_plan(c: Constraint, n: nat) -> bool {
    match c {
        Constraint::InRange { row, col } => row < n && col < n,
        Constraint::BlankOrEqual { row, col } => row < n && col < n,
        Constraint::Distinct { row, left, right } => row < n && left < right && right < n,
    }
}

/// Whether constraint `c` holds of puzzle `p` and solution `s` of size `n`.
pub open spec fn holds(c: Constraint, p: Seq<Seq<u8>>, s: Seq<Seq<u8>>, n: nat) -> bool {
    match c {
        Constraint::InRange { row, col } => 1 <= s[row as int][col as int] <= n,
        Constraint::BlankOrEqual { row, col } =>
            p[row as int][col as int] == 0 || p[row as int][col as int] == s[row as int][col as int],
        Constraint::Distinct { row, left, right } =>
            s[row as int][left as int] != s[row as int][right as int],
    }
}

/// A solution `s` is valid for puzzle `p`: both are `n` by `n`, every solution cell is
/// in `1..=n`, every puzzle cell is blank or agrees with the solution, and the cells
/// of each solution row are pairwise distinct.
pub open spec fn valid_instance(p: Seq<Seq<u8>>, s: Seq<Seq<u8>>, n: nat) -> bool {
    &&& is_square(p, n)
    &&& is_square(s, n)
    &&& forall|r: int, c: int| 0 <= r < n && 0 <= c < n ==> 1 <= #[trigger] s[r][c] <= n
    &&& forall|r: int, c: int|
        0 <= r < n && 0 <= c < n ==> p[r][c] == 0 || #[trigger] p[r][c] == s[r][c]
    &&& forall|r: int, i: int, j: int|
        0 <= r < n && 0 <= i < j < n ==> #[trigger] s[r][i] != #[trigger] s[r][j]
}

/// Every constraint of `plan` holds of `p` and `s`.
pub open spec fn all_hold(plan: Seq<Constraint>, p: Seq<Seq<u8>>, s: Seq<Seq<u8>>, n: nat) -> bool {
    forall|k: int| 0 <= k < plan.len() ==> holds(#[trigger] plan[k], p, s, n)
}

/// `0 + 1 + ... + (j - 1)`: the number of pairs among `j` cells.
pub open spec fn tri(j: nat) -> nat
    decreases j,
{
    if j == 0 {
        0
    } else {
        tri((j - 1) as nat) + (j - 1) as nat
    }
}

/// The number of constraints for size `n`: two per cell, one per pair within a row.
pub open spec fn plan_len(n: nat) -> nat {
    2 * n * n + n * tri(n)
}

/// A cell constraint at a cell before `(i, j)` in row-major order.
spec fn cell_placed(c: Constraint, i: nat, j: nat) -> bool {
    match c {
        Constraint::InRange { row, col } => row < i || (row == i && col < j),
        Constraint::BlankOrEqual { row, col } => row < i || (row == i && col < j),
        Constraint::Distinct { .. } => false,
    }
}

/// A cell constraint, or a pair before `(r, j, i)`: rows first, then the right cell,
/// then the left one.
spec fn pair_placed(c: Constraint, r: nat, j: nat, i: nat) -> bool {
    match c {
        Constraint::Distinct { row, left, right } =>
            row < r || (row == r && right < j) || (row == r && right == j && left < i),
        _ => true,
    }
}

proof fn lemma_push_fresh(s: Seq<Constraint>, x: Constraint)
    requires
        s.no_duplicates(),
        !s.contains(x),
    ensures
        s.push(x).no_duplicates(),
        forall|c: Constraint| s.contains(c) ==> s.push(x).contains(c),
        s.push(x).contains(x),
{
    let t = s.push(x);
    assert(t[s.len() as int] == x);
    assert forall|a: int, b: int| 0 <= a < t.len() && 0 <= b < t.len() && a != b implies t[a] != t[b] by {
        if a < s.len() && b < s.len() {
            assert(t[a] == s[a] && t[b] == s[b]);
        } else if a < s.len() {
            assert(t[a] == s[a]);
            if s[a] == x {
                assert(s.contains(x));
            }
        } else {
            assert(t[b] == s[b]);
            if s[b] == x {
                assert(s.contains(x));
            }
        }
    }
    assert forall|c: Constraint| s.contains(c) implies t.contains(c) by {
        let k = choose|k: int| 0 <= k < s.len() && s[k] == c;
        assert(t[k] == c);
    }
}

/// The constraints of the circuit for size `n`, in the order they are added: the two
/// cell constraints of each cell in row-major order, then, row by row, the
/// inequalities of each cell with the cells before it. Each constraint comes once.
pub fn constraint_plan(n: usize) -> (r: Vec<Constraint>)
    ensures
        forall|k: int| 0 <= k < r@.len() ==> in_plan(#[trigger] r@[k], n as nat),
        forall|c: Constraint| in_plan(c, n as nat) ==> r@.contains(c),
        r@.no_duplicates(),
        r@.len() == plan_len(n as nat),
{
    let mut out: Vec<Constraint> = Vec::new();
    let mut i: usize = 0;
    while i < n
        invariant
            0 <= i <= n,
            forall|k: int| 0 <= k < out@.len() ==> in_plan(#[trigger] out@[k], n as nat) && cell_placed(out@[k], i as nat, 0),
            forall|c: Constraint| in_plan(c, n as nat) && cell_placed(c, i as nat, 0) ==> out@.contains(c),
            out@.no_duplicates(),
            out@.len() == 2 * (i * n),
        decreases n - i,
    {
        let mut j: usize = 0;
        while j < n
            invariant
                0 <= i < n,
                0 <= j <= n,
                forall|k: int| 0 <= k < out@.len() ==> in_plan(#[trigger] out@[k], n as nat) && cell_placed(out@[k], i as nat, j as nat),
                forall|c: Constraint| in_plan(c, n as nat) && cell_placed(c, i as nat, j as nat) ==> out@.contains(c),
                out@.no_duplicates(),
                out@.len() == 2 * (i * n + j),
            decreases n - j,
        {
            let ghost before = out@;
            let x = Constraint::InRange { row: i, col: j };
            let y = Constraint::BlankOrEqual { row: i, col: j };
            proof {
                if before.contains(x) {
                    let k = choose|k: int| 0 <= k < before.len() && before[k] == x;
                    assert(cell_placed(before[k], i as nat, j as nat));
                }
                lemma_push_fresh(before, x);
                if before.push(x).contains(y) {
                    let k = choose|k: int| 0 <= k < before.push(x).len() && before.push(x)[k] == y;
                    if k < before.len() {
                        assert(before.push(x)[k] == before[k]);
                        assert(cell_placed(before[k], i as nat, j as nat));
                    }
                }
                lemma_push_fresh(before.push(x), y);
            }
            out.push(x);
            out.push(y);
            assert(out@ == before.push(x).push(y));
            j = j + 1;
        }
        assert(2 * (i * n + n) == 2 * ((i + 1) * n)) by (nonlinear_arith);
        i = i + 1;
    }
    assert forall|k: int| 0 <= k < out@.len() implies in_plan(#[trigger] out@[k], n as nat) && pair_placed(out@[k], 0, 0, 0) by {
        assert(cell_placed(out@[k], n as nat, 0));
    }
    assert forall|c: Constraint| in_plan(c, n as nat) && pair_placed(c, 0, 0, 0) implies out@.contains(c) by {
        assert(cell_placed(c, n as nat, 0));
    }
    assert(2 * (n * n) == 2 * n * n) by (nonlinear_arith);
    let mut r: usize = 0;
    while r < n
        invariant
            0 <= r <= n,
            forall|k: int| 0 <= k < out@.len() ==> in_plan(#[trigger] out@[k], n as nat) && pair_placed(out@[k], r as nat, 0, 0),
            forall|c: Constraint| in_plan(c, n as nat) && pair_placed(c, r as nat, 0, 0) ==> out@.contains(c),
            out@.no_duplicates(),
            out@.len() == 2 * n * n + r * tri(n as nat),
        decreases n - r,
    {
        let mut j: usize = 0;
        while j < n
            invariant
                0 <= r < n,
                0 <= j <= n,
                forall|k: int| 0 <= k < out@.len() ==> in_plan(#[trigger] out@[k], n as nat) && pair_placed(out@[k], r as nat, j as nat, 0),
                forall|c: Constraint| in_plan(c, n as nat) && pair_placed(c, r as nat, j as nat, 0) ==> out@.contains(c),
                out@.no_duplicates(),
                out@.len() == 2 * n * n + r * tri(n as nat) + tri(j as nat),
            decreases n - j,
        {
            let mut i: usize = 0;
            while i < j
                invariant
                    0 <= r < n,
                    0 <= i <= j < n,
                    forall|k: int| 0 <= k < out@.len() ==> in_plan(#[trigger] out@[k], n as nat) && pair_placed(out@[k], r as nat, j as nat, i as nat),
                    forall|c: Constraint| in_plan(c, n as nat) && pair_placed(c, r as nat, j as nat, i as nat) ==> out@.contains(c),
                    out@.no_duplicates(),
                    out@.len() == 2 * n * n + r * tri(n as nat) + tri(j as nat) + i,
                decreases j - i,
            {
                let ghost before = out@;
                let x = Constraint::Distinct { row: r, left: i, right: j };
                proof {
                    if before.contains(x) {
                        let k = choose|k: int| 0 <= k < before.len() && before[k] == x;
                        assert(pair_placed(before[k], r as nat, j as nat, i as nat));
                    }
                    lemma_push_fresh(before, x);
                }
                out.push(x);
                i = i + 1;
            }
            assert(tri((j + 1) as nat) == tri(j as nat) + j);
            j = j + 1;
        }
        assert(r * tri(n as nat) + tri(n as nat) == (r + 1) * tri(n as nat)) by (nonlinear_arith);
        r = r + 1;
    }
    assert(2 * n * n + n * tri(n as nat) == plan_len(n as nat));
    out
}

/// Every plan that holds exactly the constraints of size `n` holds of two `n` by `n`
/// grids if and only if the solution is valid for the puzzle.
pub proof fn lemma_plan_matches_validity(plan: Seq<Constraint>, p: Seq<Seq<u8>>, s: Seq<Seq<u8>>, n: nat)
    requires
        forall|k: int| 0 <= k < plan.len() ==> in_plan(#[trigger] plan[k], n),
        forall|c: Constraint| in_plan(c, n) ==> plan.contains(c),
        n <= usize::MAX,
        is_square(p, n),
        is_square(s, n),
    ensures
        all_hold(plan, p, s, n) <==> valid_instance(p, s, n),
{
    if all_hold(plan, p, s, n) {
        assert forall|r: int, c: int| 0 <= r < n && 0 <= c < n implies 1 <= #[trigger] s[r][c] <= n by {
            let x = Constraint::InRange { row: r as usize, col: c as usize };
            assert(in_plan(x, n));
            let k = choose|k: int| 0 <= k < plan.len() && plan[k] == x;
            assert(holds(plan[k], p, s, n));
        }
        assert forall|r: int, c: int| 0 <= r < n && 0 <= c < n implies p[r][c] == 0 || #[trigger] p[r][c] == s[r][c] by {
            let x = Constraint::BlankOrEqual { row: r as usize, col: c as usize };
            assert(in_plan(x, n));
            let k = choose|k: int| 0 <= k < plan.len() && plan[k] == x;
            assert(holds(plan[k], p, s, n));
        }
        assert forall|r: int, i: int, j: int| 0 <= r < n && 0 <= i < j < n implies #[trigger] s[r][i] != #[trigger] s[r][j] by {
            let x = Constraint::Distinct { row: r as usize, left: i as usize, right: j as usize };
            assert(in_plan(x, n));
            let k = choose|k: int| 0 <= k < plan.len() && plan[k] == x;
            assert(holds(plan[k], p, s, n));
        }
    }
    if valid_instance(p, s, n) {
        assert forall|k: int| 0 <= k < plan.len() implies holds(#[trigger] plan[k], p, s, n) by {
            assert(in_plan(plan[k], n));
            match plan[k] {
                Constraint::InRange { row, col } => {
                    assert(1 <= s[row as int][col as int] <= n);
                },
                Constraint::BlankOrEqual { row, col } => {
                    assert(p[row as int][col as int] == 0 || p[row as int][col as int] == s[row as int][col as int]);
                },
                Constraint::Distinct { row, left, right } => {
                    assert(s[row as int][left as int] != s[row as int][right as int]);
                },
            }
        }
    }
}

/// A solution cell of 0 or above `n` makes the instance invalid, whatever the rest holds.
pub proof fn lemma_out_of_range_rejects(p: Seq<Seq<u8>>, s: Seq<Seq<u8>>, n: nat, r: int, c: int)
    requires
        0 <= r < n,
        0 <= c < n,
        s[r][c] == 0 || s[r][c] > n,
    ensures
        !valid_instance(p, s, n),
{
}

/// Checks one constraint on concrete grids.
pub fn check_constraint(c: Constraint, puzzle: &Grid, solution: &Grid, n: usize) -> (r: bool)
    requires
        in_plan(c, n as nat),
        is_square(grid_view(puzzle), n as nat),
        is_square(grid_view(solution), n as nat),
    ensures
        r == holds(c, grid_view(puzzle), grid_view(solution), n as nat),
{
    let ghost p = grid_view(puzzle);
    let ghost s = grid_view(solution);
    match c {
        Constraint::InRange { row, col } => {
            assert(p[row as int].len() == n && s[row as int].len() == n);
            let v = solution[row][col];
            1 <= v && v as usize <= n
        },
        Constraint::BlankOrEqual { row, col } => {
            assert(p[row as int].len() == n && s[row as int].len() == n);
            let a = puzzle[row][col];
            a == 0 || a == solution[row][col]
        },
        Constraint::Distinct { row, left, right } => {
            assert(s[row as int].len() == n);
            solution[row][left] != solution[row][right]
        },
    }
}

/// Whether a grid is `n` by `n`.
pub fn is_square_grid(g: &Grid, n: usize) -> (r: bool)
    ensures
        r == is_square(grid_view(g), n as nat),
{
    if g.len() != n {
        return false;
    }
    let mut i: usize = 0;
    while i < n
        invariant
            0 <= i <= n,
            g@.len() == n,
            forall|k: int| 0 <= k < i ==> #[trigger] grid_view(g)[k].len() == n,
        decreases n - i,
    {
        if g[i].len() != n {
            assert(grid_view(g)[i as int].len() != n);
            return false;
        }
        i = i + 1;
    }
    true
}

/// Whether `solution` satisfies every constraint of the circuit for `puzzle`, the
/// size being the puzzle's number of rows. `Sudoku::accepts` adds the commitment check.
pub fn is_satisfied(puzzle: &Grid, solution: &Grid) -> (r: bool)
    ensures
        r == valid_instance(grid_view(puzzle), grid_view(solution), puzzle@.len()),
{
    let n = puzzle.len();
    if !is_square_grid(puzzle, n) || !is_square_grid(solution, n) {
        return false;
    }
    let plan = constraint_plan(n);
    let mut k: usize = 0;
    while k < plan.len()
        invariant
            0 <= k <= plan@.len(),
            n == puzzle@.len(),
            is_square(grid_view(puzzle), n as nat),
            is_square(grid_view(solution), n as nat),
            forall|m: int| 0 <= m < plan@.len() ==> in_plan(#[trigger] plan@[m], n as nat),
            forall|c: Constraint| in_plan(c, n as nat) ==> plan@.contains(c),
            forall|m: int| 0 <= m < k ==> holds(#[trigger] plan@[m], grid_view(puzzle), grid_view(solution), n as nat),
        decreases plan@.len() - k,
    {
        if !check_constraint(plan[k], puzzle, solution, n) {
            proof {
                lemma_plan_matches_validity(plan@, grid_view(puzzle), grid_view(solution), n as nat);
            }
            return false;
        }
        k = k + 1;
    }
    proof {
        lemma_plan_matches_validity(plan@, grid_view(puzzle), grid_view(solution), n as nat);
    }
    true
}

} // verus!
