use vstd::prelude::*;

use crate::simple::Error;

verus! {

/// A grid of character cells with a cursor position.
#[derive(Clone, Copy, Debug)]
pub struct CellGrid {
    /// Number of columns.
    pub width: usize,
    /// Number of rows.
    pub height: usize,
    /// Current column position in grid.
    pub x: usize,
    /// Current row position in grid.
    pub y: usize,
    /// Whether to consume a newline or not.
    pub deferred_wrap: bool,
}

impl CellGrid {
    /// A grid with no cell at all.
    pub open spec fn is_empty(self) -> bool {
        self.width == 0 || self.height == 0
    }

    /// The cell count fits in a `usize`, and the cursor of a non-empty grid
    /// stands on a cell.
    pub open spec fn wf(self) -> bool {
        &&& self.width * self.height <= usize::MAX
        &&& !self.is_empty() ==> self.x < self.width && self.y < self.height
    }

    /// The cursor stands on the last cell of the grid.
    pub open spec fn at_last_cell(self) -> bool {
        self.x + 1 == self.width && self.y + 1 == self.height
    }

    pub fn cell_count(&self) -> (r: usize)
        requires
            self.width * self.height <= usize::MAX,
        ensures
            r == self.width * self.height,
    {
        self.width * self.height
    }

    pub fn cell_index(&self) -> (r: usize)
        requires
            self.y * self.width + self.x <= usize::MAX,
        ensures
            r == self.y * self.width + self.x,
    {
        self.y * self.width + self.x
    }

    pub fn new(width: usize, height: usize) -> (r: Self)
        ensures
            r == (CellGrid { width, height, x: 0, y: 0, deferred_wrap: false }),
    {
        Self { width, height, x: 0, y: 0, deferred_wrap: false }
    }
}

/// What a `CellWriter` draws on: it locates cells, writes characters into
/// them and scrolls its contents up by one row.
///
/// The spec functions say, over the backend's view, what each operation
/// does; an implementation proves that its operations do exactly that.
pub trait CellBackend: Sized + View {
    /// The backend can draw every cell of a grid of this size.
    spec fn fits(v: Self::V, width: usize, height: usize) -> bool;

    /// Where the cell under the cursor of `grid` is, as `get_index` reports it.
    spec fn index_of(v: Self::V, grid: CellGrid) -> usize;

    /// The backend after writing `ch` into the cell at `index`, and the result.
    spec fn write_cell_outcome(v: Self::V, grid: CellGrid, index: usize, ch: u8) -> (Self::V, Result<(), Error>);

    /// The backend after scrolling its contents up by one row, and the result.
    spec fn scroll_outcome(v: Self::V, grid: CellGrid) -> (Self::V, Result<(), Error>);

    /// The backend can draw byte `ch` in a cell.
    spec fn can_draw(v: Self::V, ch: u8) -> bool;

    /// The index of a cell depends on where the cell is, not on whether a
    /// wrap is deferred.
    proof fn lemma_index_ignores_wrap(v: Self::V, grid: CellGrid)
        ensures
            Self::index_of(v, grid) == Self::index_of(v, CellGrid { deferred_wrap: false, ..grid }),
    ;

    fn get_index(&self, grid: &CellGrid) -> (r: usize)
        requires
            Self::fits(self@, grid.width, grid.height),
            grid.x < grid.width,
            grid.y < grid.height,
        ensures
            r == Self::index_of(self@, *grid),
    ;

    fn write_cell(&mut self, grid: &CellGrid, index: usize, ch: u8) -> (r: Result<(), Error>)
        requires
            Self::fits(old(self)@, grid.width, grid.height),
            grid.x < grid.width,
            grid.y < grid.height,
            index == Self::index_of(old(self)@, *grid),
            Self::can_draw(old(self)@, ch),
        ensures
            (final(self)@, r) == Self::write_cell_outcome(old(self)@, *grid, index, ch),
            Self::fits(final(self)@, grid.width, grid.height),
            forall|g: CellGrid| #[trigger] Self::index_of(final(self)@, g) == Self::index_of(old(self)@, g),
            forall|c: u8| #[trigger] Self::can_draw(final(self)@, c) == Self::can_draw(old(self)@, c),
    ;

    fn scroll(&mut self, grid: &CellGrid) -> (r: Result<(), Error>)
        requires
            Self::fits(old(self)@, grid.width, grid.height),
            grid.height > 0,
        ensures
            (final(self)@, r) == Self::scroll_outcome(old(self)@, *grid),
            Self::fits(final(self)@, grid.width, grid.height),
            forall|g: CellGrid| #[trigger] Self::index_of(final(self)@, g) == Self::index_of(old(self)@, g),
            forall|c: u8| #[trigger] Self::can_draw(final(self)@, c) == Self::can_draw(old(self)@, c),
    ;
}

/// The grid after the cursor moves past a cell just written: to the next
/// column, to the start of the next row (deferring the wrap), or, on the
/// last cell, nowhere, with the wrap deferred.
pub open spec fn advance(g: CellGrid) -> CellGrid {
    if g.x + 1 < g.width {
        CellGrid { x: (g.x + 1) as usize, ..g }
    } else if g.y + 1 < g.height {
        CellGrid { x: 0, y: (g.y + 1) as usize, deferred_wrap: true, ..g }
    } else {
        CellGrid { deferred_wrap: true, ..g }
    }
}

/// What writing one byte does to a non-empty grid and its backend.
///
/// Backspace (8) moves back one cell, across row starts, and stops at the
/// first cell. Newline (10) moves to the start of the next row, scrolling
/// on the last row; right after an automatic wrap (a deferred wrap) it is
/// consumed instead, the wrap having already moved the cursor.
/// Carriage return (13) moves to the row start. Any other byte is written
/// at the cursor, after a scroll when the previous byte filled the last
/// cell, and the cursor advances. A failed backend call ends the step with
/// its error.
pub open spec fn write_step<B: CellBackend>(b: B::V, g: CellGrid, ch: u8) -> (B::V, CellGrid, Result<(), Error>) {
    let d = g.deferred_wrap;
    let g0 = CellGrid { deferred_wrap: false, ..g };
    if ch == 8 {
        if g.x == 0 && g.y == 0 {
            (b, g0, Ok(()))
        } else if g.x > 0 {
            (b, CellGrid { x: (g.x - 1) as usize, ..g0 }, Ok(()))
        } else {
            (b, CellGrid { x: (g.width - 1) as usize, y: (g.y - 1) as usize, ..g0 }, Ok(()))
        }
    } else if ch == 10 {
        if d {
            (b, g0, Ok(()))
        } else if g.y + 1 == g.height {
            let g1 = CellGrid { x: 0, ..g0 };
            let (b1, r) = B::scroll_outcome(b, g1);
            (b1, g1, r)
        } else {
            (b, CellGrid { x: 0, y: (g.y + 1) as usize, ..g0 }, Ok(()))
        }
    } else if ch == 13 {
        (b, CellGrid { x: 0, ..g0 }, Ok(()))
    } else {
        let (b1, g1, r1) = if d && g.at_last_cell() {
            let g1 = CellGrid { x: 0, ..g0 };
            let (b1, r) = B::scroll_outcome(b, g1);
            (b1, g1, r)
        } else {
            (b, g0, Ok(()))
        };
        if r1 is Err {
            (b1, g1, r1)
        } else {
            let (b2, r2) = B::write_cell_outcome(b1, g1, B::index_of(b1, g1), ch);
            if r2 is Err {
                (b2, g1, r2)
            } else {
                (b2, advance(g1), Ok(()))
            }
        }
    }
}

/// Writing the bytes of `s` in order, stopping at the first failed step.
pub open spec fn write_run<B: CellBackend>(b: B::V, g: CellGrid, s: Seq<u8>) -> (B::V, CellGrid, Result<(), Error>)
    decreases s.len(),
{
    if s.len() == 0 {
        (b, g, Ok(()))
    } else {
        let (b1, g1, r1) = write_run::<B>(b, g, s.drop_last());
        if r1 is Err {
            (b1, g1, r1)
        } else {
            write_step::<B>(b1, g1, s.last())
        }
    }
}

/// The result a write reports for a run that ended with `res`.
pub open spec fn write_result(res: Result<(), Error>, len: usize) -> Result<usize, Error> {
    match res {
        Ok(_) => Ok(len),
        Err(e) => Err(e),
    }
}

/// For a cursor on a cell of a non-empty grid: the cell index is below
/// the cell count, is zero exactly at the first cell, and is the last index
/// exactly at the last cell.
pub proof fn lemma_cell_index_facts(g: CellGrid)
    requires
        g.wf(),
        !g.is_empty(),
    ensures
        g.y * g.width + g.x < g.width * g.height,
        (g.y * g.width + g.x == 0) <==> (g.x == 0 && g.y == 0),
        (g.y * g.width + g.x == g.width * g.height - 1) <==> g.at_last_cell(),
        g.y * g.width <= g.y * g.width + g.x,
        (g.height - 1) * g.width < g.width * g.height,
{
    let w = g.width as int;
    let h = g.height as int;
    let x = g.x as int;
    let y = g.y as int;
    assert(y * w + x < w * h) by (nonlinear_arith)
        requires
            0 <= x < w,
            0 <= y < h,
    ;
    assert((y * w + x == 0) <==> (x == 0 && y == 0)) by (nonlinear_arith)
        requires
            0 <= x < w,
            0 <= y < h,
    ;
    assert((y * w + x == w * h - 1) <==> (x + 1 == w && y + 1 == h)) by (nonlinear_arith)
        requires
            0 <= x < w,
            0 <= y < h,
    ;
    assert((h - 1) * w < w * h) by (nonlinear_arith)
        requires
            0 < w,
            0 < h,
    ;
}

/// The start of any row lies at or before the start of the last row.
proof fn lemma_row_start_bound(y: int, w: int, h: int)
    requires
        0 <= y < h,
        0 <= w,
    ensures
        y * w <= (h - 1) * w,
{
    assert(y * w <= (h - 1) * w) by (nonlinear_arith)
        requires
            0 <= y < h,
            0 <= w,
    ;
}

/// Once a write has failed on a prefix of the bytes, the bytes after it
/// change nothing: the write stops at its first error.
pub proof fn lemma_run_stops<B: CellBackend>(b: B::V, g: CellGrid, s: Seq<u8>, k: int)
    requires
        0 <= k <= s.len(),
        write_run::<B>(b, g, s.take(k)).2 is Err,
    ensures
        write_run::<B>(b, g, s) == write_run::<B>(b, g, s.take(k)),
    decreases s.len() - k,
{
    if k < s.len() {
        let s1 = s.take(k + 1);
        assert(s1.drop_last() =~= s.take(k));
        assert(s1.take(k) =~= s.take(k));
        assert(write_run::<B>(b, g, s1) == write_run::<B>(b, g, s.take(k)));
        lemma_run_stops::<B>(b, g, s, k + 1);
    } else {
        assert(s.take(k) =~= s);
    }
}

/// Distributing the row product over a step of one row.
proof fn lemma_row_step(y: int, w: int)
    ensures
        (y - 1) * w == y * w - w,
        (y + 1) * w == y * w + w,
{
    assert((y - 1) * w == y * w - w) by (nonlinear_arith);
    assert((y + 1) * w == y * w + w) by (nonlinear_arith);
}

/// Every step of a write keeps the grid's size and its cursor on a cell,
/// whatever the backend does.
pub proof fn lemma_run_keeps_grid<B: CellBackend>(b: B::V, g: CellGrid, s: Seq<u8>)
    requires
        g.wf(),
        !g.is_empty(),
    ensures
        write_run::<B>(b, g, s).1.wf(),
        write_run::<B>(b, g, s).1.width == g.width,
        write_run::<B>(b, g, s).1.height == g.height,
    decreases s.len(),
{
    if s.len() > 0 {
        lemma_run_keeps_grid::<B>(b, g, s.drop_last());
    }
}

/// Backspace moves the cursor back one cell and changes nothing else: to
/// the previous column, or from the start of a row to the end of the row
/// above; at the first cell it stays. It never draws, never scrolls, never
/// fails, and cancels a deferred wrap.
pub proof fn lemma_backspace_steps_back<B: CellBackend>(b: B::V, g: CellGrid)
    requires
        g.wf(),
        !g.is_empty(),
    ensures
        write_step::<B>(b, g, 8).0 == b,
        write_step::<B>(b, g, 8).2 is Ok,
        g.x > 0 ==> write_step::<B>(b, g, 8).1 == (CellGrid { x: (g.x - 1) as usize, deferred_wrap: false, ..g }),
        g.x == 0 && g.y > 0 ==> write_step::<B>(b, g, 8).1 == (CellGrid {
            x: (g.width - 1) as usize,
            y: (g.y - 1) as usize,
            deferred_wrap: false,
            ..g
        }),
        g.x == 0 && g.y == 0 ==> write_step::<B>(b, g, 8).1 == (CellGrid { deferred_wrap: false, ..g }),
        !(g.x == 0 && g.y == 0) ==> ({
            let g1 = write_step::<B>(b, g, 8).1;
            g1.y * g.width + g1.x == g.y * g.width + g.x - 1
        }),
{
    lemma_row_step(g.y as int, g.width as int);
}

/// Newline: right after an automatic wrap it is consumed, leaving the
/// cursor where the wrap put it; otherwise it moves the cursor to the start
/// of the next row, and on the last row scrolls instead, the cursor going
/// to the start of that row. Only the scroll touches the backend.
pub proof fn lemma_newline_moves_down<B: CellBackend>(b: B::V, g: CellGrid)
    requires
        g.wf(),
        !g.is_empty(),
    ensures
        g.deferred_wrap ==> write_step::<B>(b, g, 10) == (b, CellGrid { deferred_wrap: false, ..g }, Ok::<(), Error>(())),
        !g.deferred_wrap && g.y + 1 < g.height ==> write_step::<B>(b, g, 10) == (
            b,
            CellGrid { x: 0, y: (g.y + 1) as usize, deferred_wrap: false, ..g },
            Ok::<(), Error>(()),
        ),
        !g.deferred_wrap && g.y + 1 == g.height ==> ({
            let moved = CellGrid { x: 0, deferred_wrap: false, ..g };
            write_step::<B>(b, g, 10) == (B::scroll_outcome(b, moved).0, moved, B::scroll_outcome(b, moved).1)
        }),
{
}

/// Carriage return moves the cursor to the start of its row and changes
/// nothing else.
pub proof fn lemma_carriage_return_to_row_start<B: CellBackend>(b: B::V, g: CellGrid)
    requires
        g.wf(),
        !g.is_empty(),
    ensures
        write_step::<B>(b, g, 13) == (b, CellGrid { x: 0, deferred_wrap: false, ..g }, Ok::<(), Error>(())),
{
}

/// A printable byte, unless it follows the filling of the last cell, is
/// drawn in the cell under the cursor, and the cursor moves one column
/// right; at the end of a row it moves to the start of the next one with
/// the wrap deferred, and on the last cell it stays with the wrap deferred.
pub proof fn lemma_printable_draws_at_cursor<B: CellBackend>(b: B::V, g: CellGrid, ch: u8)
    requires
        g.wf(),
        !g.is_empty(),
        is_printable(ch),
        !(g.deferred_wrap && g.at_last_cell()),
    ensures
        ({
            let g0 = CellGrid { deferred_wrap: false, ..g };
            let drawn = B::write_cell_outcome(b, g0, B::index_of(b, g0), ch);
            let step = write_step::<B>(b, g, ch);
            &&& step.0 == drawn.0
            &&& drawn.1 is Err ==> step.1 == g0 && step.2 == drawn.1
            &&& drawn.1 is Ok ==> step.2 is Ok && {
                ||| g.x + 1 < g.width && step.1 == (CellGrid { x: (g.x + 1) as usize, ..g0 })
                ||| g.x + 1 == g.width && g.y + 1 < g.height && step.1 == (CellGrid {
                    x: 0,
                    y: (g.y + 1) as usize,
                    deferred_wrap: true,
                    ..g
                })
                ||| g.at_last_cell() && step.1 == (CellGrid { deferred_wrap: true, ..g })
            }
        }),
{
}

/// A printable byte followed by a backspace, away from the end of a row,
/// puts the cursor back where it was: the backspace undoes the advance.
pub proof fn lemma_backspace_undoes_advance<B: CellBackend>(b: B::V, g: CellGrid, ch: u8)
    requires
        g.wf(),
        !g.is_empty(),
        g.x + 1 < g.width,
        is_printable(ch),
        !(g.deferred_wrap && g.at_last_cell()),
    ensures
        ({
            let run = write_run::<B>(b, g, seq![ch, 8u8]);
            run.2 is Ok ==> run.1.x == g.x && run.1.y == g.y && !run.1.deferred_wrap
        }),
{
    let s = seq![ch, 8u8];
    assert(s.drop_last() =~= seq![ch]);
    assert(seq![ch].drop_last() =~= Seq::<u8>::empty());
    assert(write_run::<B>(b, g, Seq::<u8>::empty()) == (b, g, Ok::<(), Error>(())));
    assert(write_run::<B>(b, g, seq![ch]) == write_step::<B>(b, g, ch));
    let (b1, g1, r1) = write_run::<B>(b, g, seq![ch]);
    if r1 is Ok {
        assert(g1 == CellGrid { x: (g.x + 1) as usize, deferred_wrap: false, ..g });
        assert(write_run::<B>(b, g, s) == write_step::<B>(b1, g1, 8u8));
        lemma_backspace_steps_back::<B>(b1, g1);
    }
}

/// Writing `s` and then `t` is writing `s + t`: the second write starts
/// from where the first one left the backend and the grid, and nothing
/// after a failure is written.
pub proof fn lemma_run_concat<B: CellBackend>(b: B::V, g: CellGrid, s: Seq<u8>, t: Seq<u8>)
    ensures
        write_run::<B>(b, g, s + t) == ({
            let first = write_run::<B>(b, g, s);
            if first.2 is Err {
                first
            } else {
                write_run::<B>(first.0, first.1, t)
            }
        }),
    decreases t.len(),
{
    if t.len() == 0 {
        assert(s + t =~= s);
        let first = write_run::<B>(b, g, s);
        if first.2 is Ok {
            assert(first.2->Ok_0 == ());
            assert(first.2 == Ok::<(), Error>(()));
        }
    } else {
        lemma_run_concat::<B>(b, g, s, t.drop_last());
        assert((s + t).drop_last() =~= s + t.drop_last());
        assert((s + t).last() == t.last());
    }
}

/// A byte that is drawn in a cell: not backspace, newline or carriage return.
pub open spec fn is_printable(ch: u8) -> bool {
    ch != 8 && ch != 10 && ch != 13
}

/// Writing only printable bytes moves the cursor one cell per byte, from
/// the end of a row to the start of the next one, as long as the text does
/// not reach the last cell of the grid and the backend does not fail.
pub proof fn lemma_printable_advances<B: CellBackend>(b: B::V, g: CellGrid, s: Seq<u8>)
    requires
        g.wf(),
        !g.is_empty(),
        forall|i: int| 0 <= i < s.len() ==> is_printable(#[trigger] s[i]),
        g.y * g.width + g.x + s.len() < g.width * g.height,
    ensures
        ({
            let run = write_run::<B>(b, g, s);
            run.2 is Ok ==> run.1.y * g.width + run.1.x == g.y * g.width + g.x + s.len()
        }),
    decreases s.len(),
{
    if s.len() > 0 {
        let s0 = s.drop_last();
        assert forall|i: int| 0 <= i < s0.len() implies is_printable(#[trigger] s0[i]) by {
            assert(s0[i] == s[i]);
        }
        lemma_printable_advances::<B>(b, g, s0);
        lemma_run_keeps_grid::<B>(b, g, s0);
        let (b1, g1, r1) = write_run::<B>(b, g, s0);
        if r1 is Ok {
            lemma_cell_index_facts(g1);
            lemma_row_step(g1.y as int, g.width as int);
            assert(is_printable(s[s.len() - 1]));
        }
    }
}

/// Writes bytes into a cell grid through a `CellBackend`, keeping the
/// backend's index of the cell under the cursor.
#[derive(Debug)]
pub struct CellWriter {
    pub index: usize,
}

impl CellWriter {
    pub fn new() -> (r: Self)
        ensures
            r.index == 0,
    {
        Self { index: 0 }
    }

    /// Writes `s` at the cursor of `cell_grid`, interpreting backspace,
    /// newline and carriage return, and scrolling as needed. Returns the
    /// number of bytes consumed, which is all of them, or the first error
    /// of the backend.
    pub fn write<B: CellBackend>(&mut self, backend: &mut B, cell_grid: &mut CellGrid, s: &[u8]) -> (r: Result<usize, Error>)
        requires
            old(cell_grid).wf(),
            !old(cell_grid).is_empty() ==> B::fits(old(backend)@, old(cell_grid).width, old(cell_grid).height),
            forall|i: int| 0 <= i < s@.len() && is_printable(#[trigger] s@[i]) ==> B::can_draw(old(backend)@, s@[i]),
        ensures
            final(cell_grid).wf(),
            final(cell_grid).width == old(cell_grid).width,
            final(cell_grid).height == old(cell_grid).height,
            old(cell_grid).is_empty() ==> {
                &&& r == Ok::<usize, Error>(s@.len() as usize)
                &&& final(backend)@ == old(backend)@
                &&& *final(cell_grid) == *old(cell_grid)
                &&& *final(self) == *old(self)
            },
            !old(cell_grid).is_empty() ==> {
                let run = write_run::<B>(old(backend)@, *old(cell_grid), s@);
                &&& final(backend)@ == run.0
                &&& *final(cell_grid) == run.1
                &&& r == write_result(run.2, s@.len() as usize)
                &&& B::fits(final(backend)@, old(cell_grid).width, old(cell_grid).height)
                &&& forall|c: u8| #[trigger] B::can_draw(final(backend)@, c) == B::can_draw(old(backend)@, c)
                &&& r is Ok ==> final(self).index == B::index_of(final(backend)@, *final(cell_grid))
            },
    {
        let len = s.len();
        let width = cell_grid.width;
        let height = cell_grid.height;

        if width == 0 || height == 0 {
            return Ok(len);
        }

        let ghost b0 = backend@;
        let ghost g0 = *cell_grid;

        let cell_count = cell_grid.cell_count();
        proof {
            lemma_cell_index_facts(*cell_grid);
        }
        let reset_index = (height - 1) * width;
        let mut cell_index = cell_grid.cell_index();
        let mut i: usize = 0;

        self.index = backend.get_index(cell_grid);

        assert(s@.take(0) =~= Seq::<u8>::empty());

        while i < len
            invariant
                0 <= i <= len,
                len == s@.len(),
                b0 == old(backend)@,
                g0 == *old(cell_grid),
                width == g0.width,
                height == g0.height,
                width > 0,
                height > 0,
                cell_grid.width == width,
                cell_grid.height == height,
                cell_grid.wf(),
                cell_count == width * height,
                reset_index == (height - 1) * width,
                cell_index == cell_grid.y * width + cell_grid.x,
                B::fits(backend@, width, height),
                forall|j: int| 0 <= j < s@.len() && is_printable(#[trigger] s@[j]) ==> B::can_draw(backend@, s@[j]),
                forall|c: u8| #[trigger] B::can_draw(backend@, c) == B::can_draw(b0, c),
                self.index == B::index_of(backend@, *cell_grid),
                write_run::<B>(b0, g0, s@.take(i as int)).0 == backend@,
                write_run::<B>(b0, g0, s@.take(i as int)).1 == *cell_grid,
                write_run::<B>(b0, g0, s@.take(i as int)).2 is Ok,
            decreases len - i,
        {
            let ch = s[i];
            let ghost bi = backend@;
            let ghost gi = *cell_grid;
            proof {
                B::lemma_index_ignores_wrap(bi, gi);
                assert(s@.take(i + 1).drop_last() =~= s@.take(i as int));
                assert(s@.take(i + 1).last() == ch);
                lemma_cell_index_facts(gi);
                lemma_row_step(gi.y as int, width as int);
            }
            assert(write_run::<B>(b0, g0, s@.take(i + 1)) == write_step::<B>(bi, gi, ch));
            i += 1;

            let deferred_wrap = cell_grid.deferred_wrap;

            if deferred_wrap {
                cell_grid.deferred_wrap = false;
            }

            if ch == 8 {
                if cell_index == 0 {
                    continue;
                }
                if cell_grid.x > 0 {
                    cell_grid.x -= 1;
                } else {
                    cell_grid.x = width - 1;
                    cell_grid.y -= 1;
                }
                cell_index -= 1;
                self.index = backend.get_index(cell_grid);
                continue;
            } else if ch == 10 {
                if deferred_wrap {
                    continue;
                }
                cell_grid.x = 0;
                cell_grid.y += 1;
                if cell_grid.y == height {
                    cell_grid.y = height - 1;
                    let res = backend.scroll(cell_grid);
                    if let Err(e) = res {
                        proof {
                            lemma_run_stops::<B>(b0, g0, s@, i as int);
                        }
                        return Err(e);
                    }
                }
                proof {
                    lemma_row_start_bound(cell_grid.y as int, width as int, height as int);
                }
                cell_index = cell_grid.y * width;
                self.index = backend.get_index(cell_grid);
                continue;
            } else if ch == 13 {
                proof {
                    lemma_row_start_bound(cell_grid.y as int, width as int, height as int);
                }
                cell_grid.x = 0;
                cell_index = cell_grid.y * width;
                self.index = backend.get_index(cell_grid);
                continue;
            }

            if deferred_wrap && cell_index == cell_count - 1 {
                // Printable character after the last cell was filled: scroll first.
                cell_grid.x = 0;
                cell_index = reset_index;
                self.index = backend.get_index(cell_grid);
                let res = backend.scroll(cell_grid);
                if let Err(e) = res {
                    proof {
                        lemma_run_stops::<B>(b0, g0, s@, i as int);
                    }
                    return Err(e);
                }
            }

            let res = backend.write_cell(cell_grid, self.index, ch);
            if let Err(e) = res {
                proof {
                    lemma_run_stops::<B>(b0, g0, s@, i as int);
                }
                return Err(e);
            }

            cell_grid.x += 1;
            if cell_grid.x == width {
                cell_grid.x = 0;
                cell_grid.y += 1;
                cell_grid.deferred_wrap = true;
            }
            cell_index += 1;

            if cell_grid.y < height {
                self.index = backend.get_index(cell_grid);
            }
            if cell_index == cell_count {
                // The cursor logically floats at the last cell.
                cell_grid.x = width - 1;
                cell_grid.y = height - 1;
                cell_index -= 1;
                self.index = backend.get_index(cell_grid);
            }
        }
        assert(s@.take(len as int) =~= s@);
        Ok(len)
    }
}

} // verus!
