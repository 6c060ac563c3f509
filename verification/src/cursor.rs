use vstd::prelude::*;

use crate::cell_grid::CellGrid;

verus! {

/// The state of a text cursor.
#[derive(Clone, Copy)]
pub struct Cursor {
    pub enabled: bool,
    pub visible: bool,
}

impl Cursor {
    /// An enabled cursor that is not drawn yet.
    pub fn new() -> (r: Self)
        ensures
            r.enabled,
            !r.visible,
    {
        Self { enabled: true, visible: false }
    }
}

/// Something on which a cursor can be drawn and erased, by toggling it at
/// the cursor position of a grid; described over its view.
pub trait CursorContext: Sized + View {
    /// Toggling the cursor is safe for this grid.
    spec fn blink_allowed(v: Self::V, grid: CellGrid) -> bool;

    /// The context after toggling the cursor at the cursor position of `grid`.
    spec fn blinked(v: Self::V, grid: CellGrid) -> Self::V;

    fn blink(&mut self, grid: &CellGrid)
        requires
            Self::blink_allowed(old(self)@, *grid),
        ensures
            final(self)@ == Self::blinked(old(self)@, *grid),
    ;
}

/// An operation on a context and its cell grid, run once.
pub trait CellOp<C: View>: Sized {
    type Output;

    /// The operation may run on this context and grid.
    spec fn allowed(&self, ctx: C::V, grid: CellGrid) -> bool;

    /// The context, the grid and the result after the operation.
    spec fn outcome(&self, ctx: C::V, grid: CellGrid) -> (C::V, CellGrid, Self::Output);

    fn run(self, ctx: &mut C, grid: &mut CellGrid) -> (r: Self::Output)
        requires
            self.allowed(old(ctx)@, *old(grid)),
        ensures
            (final(ctx)@, *final(grid), r) == self.outcome(old(ctx)@, *old(grid)),
    ;
}

/// The context with the cursor toggled at the cursor of `grid` when
/// `visible`, and unchanged otherwise.
pub open spec fn toggled_if<C: CursorContext>(ctx: C::V, grid: CellGrid, visible: bool) -> C::V {
    if visible {
        C::blinked(ctx, grid)
    } else {
        ctx
    }
}

/// What `with_cursor_hidden` does: erase a visible cursor, run the
/// operation, and draw the cursor again where the operation left it.
pub open spec fn hidden_outcome<C: CursorContext, Op: CellOp<C>>(ctx: C::V, grid: CellGrid, visible: bool, op: Op) -> (C::V, CellGrid, Op::Output) {
    let c1 = toggled_if::<C>(ctx, grid, visible);
    let (c2, g2, r) = op.outcome(c1, grid);
    (toggled_if::<C>(c2, g2, visible), g2, r)
}

/// Runs `op` with the cursor hidden: when `cursor` says the cursor is
/// visible, it is toggled off before the operation and toggled on again
/// after it, at the new cursor position.
pub fn with_cursor_hidden<C: CursorContext, Op: CellOp<C>>(
    ctx: &mut C,
    cell_grid: &mut CellGrid,
    cursor: Cursor,
    op: Op,
) -> (r: Op::Output)
    requires
        cursor.visible ==> C::blink_allowed(old(ctx)@, *old(cell_grid)),
        op.allowed(toggled_if::<C>(old(ctx)@, *old(cell_grid), cursor.visible), *old(cell_grid)),
        cursor.visible ==> {
            let o = op.outcome(toggled_if::<C>(old(ctx)@, *old(cell_grid), cursor.visible), *old(cell_grid));
            C::blink_allowed(o.0, o.1)
        },
    ensures
        (final(ctx)@, *final(cell_grid), r) == hidden_outcome::<C, Op>(old(ctx)@, *old(cell_grid), cursor.visible, op),
{
    let visible = cursor.visible;
    if visible {
        ctx.blink(cell_grid);
    }
    let r = op.run(ctx, cell_grid);
    if visible {
        ctx.blink(cell_grid);
    }
    r
}

} // verus!
