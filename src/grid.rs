use vstd::prelude::*;

verus! {

/// A square grid of small integers, one inner vector per row.
pub type Grid = Vec<Vec<u8>>;

/// Why a grid text could not be read.
#[derive(Clone, Copy, Debug, PartialEq, Eq, Structural)]
pub enum GridError {
    /// A byte that is neither a decimal digit nor a separator, or a cell above 255.
    InvalidCell,
    /// The text does not hold exactly `n` rows of `n` cells.
    WrongShape,
}

/// The rows of a grid as sequences of cells.
pub open spec fn grid_view(g: &Grid) -> Seq<Seq<u8>> {
    Seq::new(g@.len(), |i: int| g@[i]@)
}

pub open spec fn is_square(g: Seq<Seq<u8>>, n: nat) -> bool {
    &&& g.len() == n
    &&& forall|i: int| 0 <= i < g.len() ==> #[trigger] g[i].len() == n
}

pub open spec fn is_digit(b: u8) -> bool {
    48 <= b <= 57
}

/// ASCII whitespace other than the newline: it separates cells within a line.
pub open spec fn is_blank(b: u8) -> bool {
    b == 32 || b == 9 || b == 11 || b == 12 || b == 13
}

/// The decimal digits of `v`, most significant first.
pub open spec fn digits(v: nat) -> Seq<u8>
    decreases v,
{
    if v < 10 {
        seq![(48 + v) as u8]
    } else {
        digits(v / 10).push((48 + v % 10) as u8)
    }
}

/// The cells of one row, separated by single spaces.
pub open spec fn render_cells(r: Seq<u8>) -> Seq<u8>
    decreases r.len(),
{
    if r.len() == 0 {
        Seq::empty()
    } else if r.len() == 1 {
        digits(r[0] as nat)
    } else {
        render_cells(r.drop_last()) + seq![32u8] + digits(r.last() as nat)
    }
}

/// One line per row, each line ended by a newline.
pub open spec fn render_rows(g: Seq<Seq<u8>>) -> Seq<u8>
    decreases g.len(),
{
    if g.len() == 0 {
        Seq::empty()
    } else {
        render_rows(g.drop_last()) + render_cells(g.last()).push(10u8)
    }
}

/// The text of a grid: its rows, one line each, or a single newline for a grid
/// without rows.
pub open spec fn render(g: Seq<Seq<u8>>) -> Seq<u8> {
    if g.len() == 0 {
        seq![10u8]
    } else {
        render_rows(g)
    }
}

/// What a reader has gathered after a prefix of the text: the finished rows, the
/// cells of the row being read, the digits of the cell being read, and whether a
/// bad byte or an oversized cell has been met.
pub struct ReadState {
    pub rows: Seq<Seq<u8>>,
    pub row: Seq<u8>,
    pub cur: Option<nat>,
    pub bad: bool,
}

pub open spec fn initial_state() -> ReadState {
    ReadState { rows: Seq::empty(), row: Seq::empty(), cur: None, bad: false }
}

pub open spec fn end_cell(st: ReadState) -> Seq<u8> {
    match st.cur {
        Some(v) => st.row.push(v as u8),
        None => st.row,
    }
}

/// One byte of the text read in state `st`.
pub open spec fn step(st: ReadState, b: u8) -> ReadState {
    if st.bad {
        st
    } else if is_digit(b) {
        let v = match st.cur {
            Some(v) => v,
            None => 0,
        } * 10 + (b - 48) as nat;
        if v > 255 {
            ReadState { bad: true, ..st }
        } else {
            ReadState { cur: Some(v), ..st }
        }
    } else if is_blank(b) {
        ReadState { row: end_cell(st), cur: None, ..st }
    } else if b == 10 {
        let r = end_cell(st);
        ReadState {
            rows: if r.len() > 0 { st.rows.push(r) } else { st.rows },
            row: Seq::empty(),
            cur: None,
            bad: false,
        }
    } else {
        ReadState { bad: true, ..st }
    }
}

/// The state after reading all of `s` from `st`.
pub open spec fn read_from(st: ReadState, s: Seq<u8>) -> ReadState
    decreases s.len(),
{
    if s.len() == 0 {
        st
    } else {
        step(read_from(st, s.drop_last()), s.last())
    }
}

/// What reading the whole text gives: its rows of cells (blank lines skipped), or
/// the error. A missing final newline is allowed.
pub open spec fn read_spec(s: Seq<u8>, n: nat) -> Result<Seq<Seq<u8>>, GridError> {
    let st = step(read_from(initial_state(), s), 10u8);
    if st.bad {
        Err(GridError::InvalidCell)
    } else if !is_square(st.rows, n) {
        Err(GridError::WrongShape)
    } else {
        Ok(st.rows)
    }
}


pub open spec fn cur_view(c: Option<u16>) -> Option<nat> {
    match c {
        Some(v) => Some(v as nat),
        None => None,
    }
}

proof fn lemma_read_concat(st: ReadState, a: Seq<u8>, b: Seq<u8>)
    ensures
        read_from(st, a + b) == read_from(read_from(st, a), b),
    decreases b.len(),
{
    if b.len() == 0 {
        assert(a + b =~= a);
    } else {
        assert((a + b).drop_last() =~= a + b.drop_last());
        lemma_read_concat(st, a, b.drop_last());
    }
}

proof fn lemma_bad_stays(st: ReadState, s: Seq<u8>)
    requires
        st.bad,
    ensures
        read_from(st, s) == st,
    decreases s.len(),
{
    if s.len() > 0 {
        lemma_bad_stays(st, s.drop_last());
    }
}

/// Reads a grid of `n` rows of `n` cells from its text: decimal cells separated by
/// spaces, tabs, vertical tabs, form feeds or carriage returns, rows separated by
/// newlines; blank lines are skipped.
pub fn read_grid(text: &Vec<u8>, n: usize) -> (r: Result<Grid, GridError>)
    ensures
        match r {
            Ok(g) => read_spec(text@, n as nat) == Ok::<Seq<Seq<u8>>, GridError>(grid_view(&g)),
            Err(e) => read_spec(text@, n as nat) == Err::<Seq<Seq<u8>>, GridError>(e),
        },
{
    let mut rows: Vec<Vec<u8>> = Vec::new();
    let mut row: Vec<u8> = Vec::new();
    let mut cur: Option<u16> = None;
    let mut i: usize = 0;
    while i < text.len()
        invariant
            0 <= i <= text.len(),
            read_from(initial_state(), text@.take(i as int)).rows =~= grid_view(&rows),
            read_from(initial_state(), text@.take(i as int)).row =~= row@,
            read_from(initial_state(), text@.take(i as int)).cur == cur_view(cur),
            !read_from(initial_state(), text@.take(i as int)).bad,
            match cur {
                Some(v) => v <= 255,
                None => true,
            },
        decreases text.len() - i,
    {
        let ghost prev = read_from(initial_state(), text@.take(i as int));
        let b = text[i];
        assert(text@.take(i + 1).drop_last() =~= text@.take(i as int));
        assert(text@.take(i + 1).last() == b);
        if 48 <= b && b <= 57 {
            let base: u16 = match cur {
                Some(v) => v,
                None => 0,
            };
            let v: u16 = base * 10 + (b - 48) as u16;
            if v > 255 {
                proof {
                    lemma_read_concat(initial_state(), text@.take(i + 1), text@.skip(i + 1));
                    assert(text@.take(i + 1) + text@.skip(i + 1) =~= text@);
                    lemma_bad_stays(read_from(initial_state(), text@.take(i + 1)), text@.skip(i + 1));
                }
                return Err(GridError::InvalidCell);
            }
            cur = Some(v);
        } else if b == 32 || b == 9 || b == 11 || b == 12 || b == 13 {
            if let Some(v) = cur {
                row.push(v as u8);
            }
            cur = None;
        } else if b == 10 {
            if let Some(v) = cur {
                row.push(v as u8);
            }
            cur = None;
            if row.len() > 0 {
                let ghost old_rows = grid_view(&rows);
                rows.push(row);
                assert(grid_view(&rows) =~= old_rows.push(end_cell(prev)));
            }
            row = Vec::new();
        } else {
            proof {
                lemma_read_concat(initial_state(), text@.take(i + 1), text@.skip(i + 1));
                assert(text@.take(i + 1) + text@.skip(i + 1) =~= text@);
                lemma_bad_stays(read_from(initial_state(), text@.take(i + 1)), text@.skip(i + 1));
            }
            return Err(GridError::InvalidCell);
        }
        i = i + 1;
    }
    assert(text@.take(text.len() as int) =~= text@);
    let ghost prev = read_from(initial_state(), text@);
    if let Some(v) = cur {
        row.push(v as u8);
    }
    if row.len() > 0 {
        let ghost old_rows = grid_view(&rows);
        rows.push(row);
        assert(grid_view(&rows) =~= old_rows.push(end_cell(prev)));
    }
    let ghost fin = step(prev, 10u8);
    assert(fin.rows =~= grid_view(&rows));
    if rows.len() != n {
        return Err(GridError::WrongShape);
    }
    let mut k: usize = 0;
    while k < rows.len()
        invariant
            0 <= k <= rows.len(),
            rows.len() == n,
            fin.rows =~= grid_view(&rows),
            !fin.bad,
            fin == step(read_from(initial_state(), text@), 10u8),
            forall|j: int| 0 <= j < k ==> #[trigger] rows@[j]@.len() == n,
        decreases rows.len() - k,
    {
        if rows[k].len() != n {
            assert(fin.rows[k as int].len() != n);
            return Err(GridError::WrongShape);
        }
        k = k + 1;
    }
    assert(is_square(fin.rows, n as nat));
    Ok(rows)
}


fn push_digits(out: &mut Vec<u8>, v: u8)
    ensures
        final(out)@ == old(out)@ + digits(v as nat),
{
    let ghost start = out@;
    if v >= 100 {
        out.push(48 + v / 100);
        out.push(48 + (v / 10) % 10);
        out.push(48 + v % 10);
        assert(digits(v as nat / 100) =~= seq![(48 + v / 100) as u8]);
        assert(digits(v as nat / 10) =~= digits(v as nat / 100).push((48 + (v / 10) % 10) as u8));
    } else if v >= 10 {
        out.push(48 + v / 10);
        out.push(48 + v % 10);
        assert(digits(v as nat / 10) =~= seq![(48 + v / 10) as u8]);
    } else {
        out.push(48 + v);
    }
    assert(out@ =~= start + digits(v as nat));
}

/// Writes a grid as text: the cells of a row in decimal separated by single
/// spaces, each row ended by a newline.
pub fn write_grid(grid: &Grid) -> (r: Vec<u8>)
    ensures
        r@ == render(grid_view(grid)),
{
    let mut out: Vec<u8> = Vec::new();
    let mut i: usize = 0;
    while i < grid.len()
        invariant
            0 <= i <= grid.len(),
            out@ == render_rows(grid_view(grid).take(i as int)),
        decreases grid.len() - i,
    {
        let row = &grid[i];
        let ghost before = out@;
        let mut j: usize = 0;
        while j < row.len()
            invariant
                0 <= j <= row.len(),
                row == grid@[i as int],
                out@ == before + render_cells(row@.take(j as int)),
            decreases row.len() - j,
        {
            let ghost mid = out@;
            if j > 0 {
                out.push(32u8);
            }
            push_digits(&mut out, row[j]);
            assert(row@.take(j + 1).drop_last() =~= row@.take(j as int));
            assert(out@ =~= before + render_cells(row@.take(j + 1)));
            j = j + 1;
        }
        out.push(10u8);
        assert(row@.take(j as int) =~= row@);
        assert(grid_view(grid).take(i + 1).drop_last() =~= grid_view(grid).take(i as int));
        assert(out@ =~= render_rows(grid_view(grid).take(i + 1)));
        i = i + 1;
    }
    assert(grid_view(grid).take(i as int) =~= grid_view(grid));
    if grid.len() == 0 {
        out.push(10u8);
        assert(out@ =~= seq![10u8]);
    }
    out
}

proof fn lemma_read_digits(st: ReadState, v: nat)
    requires
        !st.bad,
        st.cur is None,
        v <= 255,
    ensures
        read_from(st, digits(v)) == (ReadState { cur: Some(v), ..st }),
    decreases v,
{
    if v < 10 {
        assert(digits(v).drop_last() =~= Seq::<u8>::empty());
        assert(digits(v).last() == (48 + v) as u8);
        assert(read_from(st, Seq::<u8>::empty()) == st);
    } else {
        lemma_read_digits(st, v / 10);
        assert(digits(v).drop_last() =~= digits(v / 10));
        assert(digits(v).last() == (48 + v % 10) as u8);
        assert((v / 10) * 10 + v % 10 == v);
    }
}

proof fn lemma_read_cells(st: ReadState, r: Seq<u8>)
    requires
        !st.bad,
        st.cur is None,
        r.len() > 0,
    ensures
        read_from(st, render_cells(r)).rows == st.rows,
        read_from(st, render_cells(r)).row =~= st.row + r.drop_last(),
        read_from(st, render_cells(r)).cur == Some(r.last() as nat),
        !read_from(st, render_cells(r)).bad,
    decreases r.len(),
{
    if r.len() == 1 {
        lemma_read_digits(st, r[0] as nat);
        assert(r.drop_last() =~= Seq::<u8>::empty());
    } else {
        let p = r.drop_last();
        lemma_read_cells(st, p);
        let mid = read_from(st, render_cells(p));
        let a = render_cells(p) + seq![32u8];
        lemma_read_concat(st, render_cells(p), seq![32u8]);
        assert(seq![32u8].drop_last() =~= Seq::<u8>::empty());
        let sp = read_from(st, a);
        assert(read_from(mid, Seq::<u8>::empty()) == mid);
        assert(read_from(mid, seq![32u8]) == step(mid, 32u8));
        assert(p =~= p.drop_last().push(p.last()));
        assert(sp.row =~= st.row + p);
        lemma_read_concat(st, a, digits(r.last() as nat));
        lemma_read_digits(sp, r.last() as nat);
    }
}

proof fn lemma_read_render(g: Seq<Seq<u8>>)
    requires
        forall|i: int| 0 <= i < g.len() ==> #[trigger] g[i].len() > 0,
    ensures
        read_from(initial_state(), render_rows(g)).rows =~= g,
        read_from(initial_state(), render_rows(g)).row =~= Seq::<u8>::empty(),
        read_from(initial_state(), render_rows(g)).cur is None,
        !read_from(initial_state(), render_rows(g)).bad,
    decreases g.len(),
{
    if g.len() > 0 {
        let p = g.drop_last();
        lemma_read_render(p);
        let st = read_from(initial_state(), render_rows(p));
        let c = render_cells(g.last());
        lemma_read_concat(initial_state(), render_rows(p), c.push(10u8));
        assert(c.push(10u8).drop_last() =~= c);
        lemma_read_cells(st, g.last());
        assert(g.last().drop_last().push(g.last().last()) =~= g.last());
    }
}

/// Writing a square grid as text and reading that text back gives the same grid.
pub proof fn lemma_grid_round_trip(g: Seq<Seq<u8>>, n: nat)
    requires
        is_square(g, n),
    ensures
        read_spec(render(g), n) == Ok::<Seq<Seq<u8>>, GridError>(g),
{
    if n > 0 {
        assert forall|i: int| 0 <= i < g.len() implies #[trigger] g[i].len() > 0 by {
            assert(g[i].len() == n);
        }
        lemma_read_render(g);
        let st = read_from(initial_state(), render(g));
        assert(end_cell(st) =~= Seq::<u8>::empty());
    } else {
        let nl = seq![10u8];
        assert(nl.drop_last() =~= Seq::<u8>::empty());
        assert(read_from(initial_state(), Seq::<u8>::empty()) == initial_state());
        assert(end_cell(initial_state()) =~= Seq::<u8>::empty());
        let st = read_from(initial_state(), nl);
        assert(st == step(initial_state(), 10u8));
        assert(st.rows =~= Seq::<Seq<u8>>::empty());
        assert(end_cell(st) =~= Seq::<u8>::empty());
        assert(g =~= Seq::<Seq<u8>>::empty());
    }
}

} // verus!
