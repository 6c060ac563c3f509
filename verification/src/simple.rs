//! "Simple" consoles: basic consoles that only support write-through to
//! the memory they draw on. They are useful for constrained or early boot
//! environments.

use vstd::prelude::*;

use crate::cell_grid::CellGrid;
use crate::color::Color;

pub mod fb;
pub mod pixels;
pub mod vga;

verus! {

/// Why a console operation failed.
#[derive(Clone, Copy, Debug, PartialEq, Eq, Structural)]
pub enum Error {
    Unsupported,
    Invalid,
    /// A write is no longer making progress.
    Progress,
    /// The implementation is buggy.
    Implementation,
}

/// A console that text can be written to.
pub trait Console: Sized {
    /// The console's state is consistent.
    spec fn wf(&self) -> bool;

    /// The console can draw every byte of `s` that it would draw.
    spec fn can_write(&self, s: Seq<u8>) -> bool;

    /// Clears any remnant text.
    fn clear(&mut self) -> (r: Result<(), Error>)
        requires
            old(self).wf(),
        ensures
            final(self).wf(),
    ;

    /// Implementation-defined synchronization. Should be called by consumers after some number of batched writes.
    /// Examples:
    /// - Hardware cursor syncing.
    /// - Flushing write-combining memory of a framebuffer.
    /// - A no-op.
    fn flush(&mut self) -> (r: Result<(), Error>)
        requires
            old(self).wf(),
        ensures
            final(self).wf(),
    ;

    /// Character encoding is implementation-defined. In most cases it will either be ASCII or UTF-8.
    /// On success, returns how many bytes of `s` were consumed.
    fn write(&mut self, s: &[u8]) -> (r: Result<usize, Error>)
        requires
            old(self).wf(),
            old(self).can_write(s@),
        ensures
            final(self).wf(),
            r matches Ok(n) ==> n <= s@.len(),
    ;
}

/// A console defined to use a visual representation
/// that is a grid. It has a width, height, x, and y.
pub trait CellConsole: Console {
    /// The grid of the console.
    spec fn grid(&self) -> CellGrid;

    /// Scrolling is safe in this state.
    spec fn can_scroll(&self) -> bool;

    fn cell_grid(&self) -> (r: &CellGrid)
        ensures
            *r == self.grid(),
    ;

    /// Move the cursor to a new x and y.
    /// Fails with `Error::Invalid`, changing nothing, when the position is
    /// outside the grid.
    fn position(&mut self, x: usize, y: usize) -> (r: Result<(), Error>)
        requires
            old(self).wf(),
        ensures
            final(self).wf(),
            r is Ok <==> (x < old(self).grid().width && y < old(self).grid().height),
            r is Ok ==> final(self).grid() == (CellGrid { x, y, ..old(self).grid() }),
            r is Err ==> r == Err::<(), Error>(Error::Invalid) && *final(self) == *old(self),
    ;

    /// Scrolls the console down one row. The cursor does not move.
    fn scroll(&mut self) -> (r: Result<(), Error>)
        requires
            old(self).wf(),
            old(self).can_scroll(),
        ensures
            final(self).wf(),
            final(self).grid() == old(self).grid(),
    ;
}

/// A console that supports enabling or disabling a cursor.
pub trait CursorConsole: CellConsole {
    /// The cursor is enabled.
    spec fn cursor_enabled(&self) -> bool;

    /// Enable or disable the cursor.
    fn enable(&mut self, enable: bool) -> (r: Result<(), Error>)
        requires
            old(self).wf(),
        ensures
            final(self).wf(),
            final(self).cursor_enabled() == enable,
            final(self).grid() == old(self).grid(),
    ;
}

/// A cursor console that supports manual blinking of the cursor.
pub trait BlinkConsole: CursorConsole {
    /// The cursor is currently drawn.
    spec fn cursor_visible(&self) -> bool;

    /// Blinking is safe in this state.
    spec fn can_blink(&self) -> bool;

    /// Toggle blink state of the cursor. This operation is not failable.
    /// A disabled cursor stays as it is.
    fn blink(&mut self)
        requires
            old(self).wf(),
            old(self).can_blink(),
        ensures
            final(self).wf(),
            final(self).grid() == old(self).grid(),
            final(self).cursor_enabled() == old(self).cursor_enabled(),
            final(self).cursor_visible() == (old(self).cursor_visible() != old(self).cursor_enabled()),
    ;

    /// Whether the cursor is currently visible or not.
    fn visible(&self) -> (r: bool)
        ensures
            r == self.cursor_visible(),
    ;
}

/// A console that supports a visual foreground and background
/// for text.
pub trait ColorConsole: Console {
    /// The foreground color.
    spec fn foreground(&self) -> Color;

    /// The background color.
    spec fn background(&self) -> Color;

    fn fg(&self) -> (r: Color)
        ensures
            r == self.foreground(),
    ;

    fn bg(&self) -> (r: Color)
        ensures
            r == self.background(),
    ;

    /// Sets the foreground; on failure nothing changes.
    fn set_fg(&mut self, fg: Color) -> (r: Result<(), Error>)
        requires
            old(self).wf(),
        ensures
            final(self).wf(),
            r is Ok ==> final(self).foreground() == fg && final(self).background() == old(self).background(),
            r is Err ==> *final(self) == *old(self),
    ;

    /// Sets the background; on failure nothing changes.
    fn set_bg(&mut self, bg: Color) -> (r: Result<(), Error>)
        requires
            old(self).wf(),
        ensures
            final(self).wf(),
            r is Ok ==> final(self).background() == bg && final(self).foreground() == old(self).foreground(),
            r is Err ==> *final(self) == *old(self),
    ;
}

} // verus!
