//! A console for VGA text mode: 80 columns by 25 rows of 16-bit cells,
//! each holding a character in its low byte and its attribute (foreground
//! color in the low nibble, background color in the high nibble) in its
//! high byte.
//!
//! The console draws into a cell buffer that it owns. Putting that buffer
//! at the VGA text memory and programming the CRT controller is the
//! caller's part: `hardware_cursor_writes` and `cursor_start_update` say
//! which register values that takes.

use vstd::prelude::*;

use crate::cell_grid::{is_printable, write_run, write_step, CellBackend, CellGrid, CellWriter};
use crate::color::{Color, Palette};
use crate::cursor::Cursor;
use crate::simple::{CellConsole, ColorConsole, Console, CursorConsole, Error};

verus! {

/// I/O port of the CRT controller's address register.
pub const CRTC_ADDRESS_REG: u16 = 0x3D4;
/// I/O port of the CRT controller's data register.
pub const CRTC_DATA_REG: u16 = 0x3D5;
/// CRT controller register that holds the cursor-disable bit (0x20).
pub const CRTC_CURSOR_START_REG: u8 = 0xA;
/// CRT controller register that holds the high byte of the cursor location.
pub const CRTC_CURSOR_HIGH_REG: u8 = 0xE;
/// CRT controller register that holds the low byte of the cursor location.
pub const CRTC_CURSOR_LOW_REG: u8 = 0xF;

/// Rows of the VGA text screen.
pub const VGA_ROWS: usize = 25;
/// Columns of the VGA text screen.
pub const VGA_COLS: usize = 80;

/// The VGA code of a palette color.
pub open spec fn vga_code(p: Palette) -> u8 {
    match p {
        Palette::Black => 0,
        Palette::Red => 4,
        Palette::Green => 2,
        Palette::Brown => 6,
        Palette::Blue => 1,
        Palette::Magenta => 5,
        Palette::Cyan => 3,
        Palette::LightGray => 7,
        Palette::DarkGray => 8,
        Palette::LightRed => 12,
        Palette::LightGreen => 10,
        Palette::Yellow => 14,
        Palette::LightBlue => 9,
        Palette::LightMagenta => 13,
        Palette::LightCyan => 11,
        Palette::White => 15,
    }
}

/// Distinct palette colors have distinct VGA codes, all below 16.
pub proof fn lemma_vga_code_distinct(a: Palette, b: Palette)
    ensures
        vga_code(a) < 16,
        vga_code(a) == vga_code(b) <==> a == b,
{
}

/// The VGA text-mode color numbers: bit 0 blue, bit 1 green, bit 2 red,
/// bit 3 bright.
pub proof fn lemma_vga_code_values()
    ensures
        vga_code(Palette::Black) == 0,
        vga_code(Palette::Blue) == 1,
        vga_code(Palette::Green) == 2,
        vga_code(Palette::Cyan) == 3,
        vga_code(Palette::Red) == 4,
        vga_code(Palette::Magenta) == 5,
        vga_code(Palette::Brown) == 6,
        vga_code(Palette::LightGray) == 7,
        vga_code(Palette::DarkGray) == 8,
        vga_code(Palette::LightBlue) == 9,
        vga_code(Palette::LightGreen) == 10,
        vga_code(Palette::LightCyan) == 11,
        vga_code(Palette::LightRed) == 12,
        vga_code(Palette::LightMagenta) == 13,
        vga_code(Palette::Yellow) == 14,
        vga_code(Palette::White) == 15,
{
}

/// The attribute byte holds the foreground's code in its low nibble and
/// the background's code in its high nibble.
pub proof fn lemma_attribute_nibbles(fg: Palette, bg: Palette)
    ensures
        attribute_byte(fg, bg) % 16 == vga_code(fg),
        attribute_byte(fg, bg) / 16 == vga_code(bg),
{
}

/// The attribute byte for text in `fg` on `bg`.
pub open spec fn attribute_byte(fg: Palette, bg: Palette) -> u8 {
    (vga_code(fg) + 16 * vga_code(bg)) as u8
}

/// The 16-bit cell holding `ch` with attribute `attributes`.
pub open spec fn cell_word(ch: u8, attributes: u8) -> u16 {
    (ch + 256 * attributes) as u16
}

/// A cell holds its character in the low byte and its attribute in the
/// high byte.
pub proof fn lemma_cell_word_bytes(ch: u8, attributes: u8)
    ensures
        cell_word(ch, attributes) % 256 == ch,
        cell_word(ch, attributes) / 256 == attributes,
{
}

/// The cells after clearing the first `count` of them to `blank`.
pub open spec fn cleared_cells(cells: Seq<u16>, count: int, blank: u16) -> Seq<u16> {
    Seq::new(cells.len(), |i: int| if i < count { blank } else { cells[i] })
}

/// The cells after scrolling the first `count` of them up by `width`: each
/// takes the value `width` cells further on, and the last `width` of them
/// become `blank`.
pub open spec fn scrolled_cells(cells: Seq<u16>, count: int, width: int, blank: u16) -> Seq<u16> {
    Seq::new(
        cells.len(),
        |i: int|
            if i + width < count {
                cells[i + width]
            } else if i < count {
                blank
            } else {
                cells[i]
            },
    )
}

#[derive(Clone, Copy)]
struct VgaCell {
    ch: u8,
    attributes: u8,
}

impl VgaCell {
    /// The cell as it is laid out in memory, character first.
    fn word(self) -> (r: u16)
        ensures
            r == cell_word(self.ch, self.attributes),
    {
        (self.attributes as u16) * 256 + (self.ch as u16)
    }
}

/// The cell buffer of a VGA console with its colors.
pub struct VgaBackend {
    pub cells: Vec<u16>,
    pub fg: Color,
    pub bg: Color,
}

/// What a `VgaBackend` holds.
pub struct VgaView {
    pub cells: Seq<u16>,
    pub fg: Color,
    pub bg: Color,
}

impl View for VgaBackend {
    type V = VgaView;

    open spec fn view(&self) -> VgaView {
        VgaView { cells: self.cells@, fg: self.fg, bg: self.bg }
    }
}

impl VgaView {
    /// Both colors are palette colors, the only ones VGA text mode has.
    pub open spec fn wf(self) -> bool {
        &&& self.fg is Palette
        &&& self.bg is Palette
    }

    /// The attribute byte for the current colors.
    pub open spec fn attributes(self) -> u8 {
        attribute_byte(self.fg->Palette_0, self.bg->Palette_0)
    }

    /// A blank cell in the current colors.
    pub open spec fn blank(self) -> u16 {
        cell_word(32, self.attributes())
    }
}

impl VgaBackend {
    fn attributes(&self) -> (r: u8)
        requires
            self@.wf(),
        ensures
            r == self@.attributes(),
    {
        let f = self.vga_color(self.fg);
        let b = self.vga_color(self.bg);
        let r = (f & 0xF) | ((b & 0xF) << 4);
        assert(r == f + 16 * b) by (bit_vector)
            requires
                f < 16,
                b < 16,
                r == (f & 0xF) | ((b & 0xF) << 4),
        ;
        r
    }

    fn clear(&mut self, cell_grid: &CellGrid) -> (r: Result<(), Error>)
        requires
            old(self)@.wf(),
            cell_grid.width * cell_grid.height <= old(self).cells@.len(),
        ensures
            r is Ok,
            final(self)@ == (VgaView {
                cells: cleared_cells(old(self).cells@, cell_grid.width * cell_grid.height, old(self)@.blank()),
                ..old(self)@
            }),
    {
        let blank_cell = VgaCell { ch: 32u8, attributes: self.attributes() };
        let blank = blank_cell.word();
        assert(self.cells.len() == self.cells@.len());
        let count = cell_grid.cell_count();
        let ghost old_cells = self.cells@;
        let mut i: usize = 0;
        while i < count
            invariant
                i <= count,
                count == cell_grid.width * cell_grid.height,
                count <= old_cells.len(),
                self.cells@.len() == old_cells.len(),
                self.fg == old(self).fg,
                self.bg == old(self).bg,
                old_cells == old(self).cells@,
                blank == old(self)@.blank(),
                forall|j: int|
                    0 <= j < old_cells.len() ==> #[trigger] self.cells@[j] == (if j < i { blank } else { old_cells[j] }),
            decreases count - i,
        {
            self.cells.set(i, blank);
            i += 1;
        }
        assert(self.cells@ =~= cleared_cells(old_cells, count as int, blank));
        Ok(())
    }

    fn new(cells: Vec<u16>) -> (r: Self)
        ensures
            r@ == (VgaView { cells: cells@, fg: Color::Palette(Palette::White), bg: Color::Palette(Palette::Black) }),
    {
        Self { cells, fg: Color::Palette(Palette::White), bg: Color::Palette(Palette::Black) }
    }

    fn vga_color(&self, color: Color) -> (r: u8)
        requires
            color is Palette,
        ensures
            r == vga_code(color->Palette_0),
            r < 16,
    {
        match color {
            Color::Rgb(_, _, _) => vstd::pervasive::unreached(),
            Color::Palette(color) => match color {
                Palette::Black => 0,
                Palette::Red => 4,
                Palette::Green => 2,
                Palette::Brown => 6,
                Palette::Blue => 1,
                Palette::Magenta => 5,
                Palette::Cyan => 3,
                Palette::LightGray => 7,
                Palette::DarkGray => 8,
                Palette::LightRed => 12,
                Palette::LightGreen => 10,
                Palette::Yellow => 14,
                Palette::LightBlue => 9,
                Palette::LightMagenta => 13,
                Palette::LightCyan => 11,
                Palette::White => 15,
            },
        }
    }
}

impl CellBackend for VgaBackend {
    open spec fn fits(v: VgaView, width: usize, height: usize) -> bool {
        &&& v.wf()
        &&& width * height <= v.cells.len()
    }

    open spec fn index_of(v: VgaView, grid: CellGrid) -> usize {
        (grid.y * grid.width + grid.x) as usize
    }

    open spec fn write_cell_outcome(v: VgaView, grid: CellGrid, index: usize, ch: u8) -> (VgaView, Result<(), Error>) {
        (VgaView { cells: v.cells.update(index as int, cell_word(ch, v.attributes())), ..v }, Ok(()))
    }

    open spec fn scroll_outcome(v: VgaView, grid: CellGrid) -> (VgaView, Result<(), Error>) {
        (
            VgaView {
                cells: scrolled_cells(v.cells, grid.width * grid.height, grid.width as int, v.blank()),
                ..v
            },
            Ok(()),
        )
    }

    open spec fn can_draw(v: VgaView, ch: u8) -> bool {
        true
    }

    proof fn lemma_index_ignores_wrap(v: VgaView, grid: CellGrid) {
    }

    fn get_index(&self, grid: &CellGrid) -> (r: usize) {
        proof {
            assert(self.cells.len() == self.cells@.len());
            lemma_cell_inside(grid.x as int, grid.y as int, grid.width as int, grid.height as int);
        }
        grid.cell_index()
    }

    fn write_cell(&mut self, grid: &CellGrid, index: usize, ch: u8) -> (r: Result<(), Error>) {
        proof {
            lemma_cell_inside(grid.x as int, grid.y as int, grid.width as int, grid.height as int);
        }
        let vga_cell = VgaCell { ch, attributes: self.attributes() };
        let word = vga_cell.word();
        self.cells.set(index, word);
        Ok(())
    }

    fn scroll(&mut self, grid: &CellGrid) -> (r: Result<(), Error>) {
        proof {
            assert(self.cells.len() == self.cells@.len());
        }
        let cell_count = grid.cell_count();
        let clear = grid.width;
        let blank_cell = VgaCell { ch: 32u8, attributes: self.attributes() };
        let blank = blank_cell.word();
        proof {
            assert(clear <= cell_count) by (nonlinear_arith)
                requires
                    clear == grid.width,
                    cell_count == grid.width * grid.height,
                    grid.height > 0,
            ;
        }
        let ghost old_cells = self.cells@;
        let mut i: usize = 0;
        while i < cell_count - clear
            invariant
                i <= cell_count - clear,
                clear <= cell_count,
                clear == grid.width,
                cell_count == grid.width * grid.height,
                self.fg == old(self).fg,
                self.bg == old(self).bg,
                old_cells == old(self).cells@,
                blank == old(self)@.blank(),
                cell_count <= old_cells.len(),
                self.cells@.len() == old_cells.len(),
                forall|j: int|
                    0 <= j < old_cells.len() ==> #[trigger] self.cells@[j] == (if j < i { old_cells[j + clear] } else { old_cells[j] }),
            decreases cell_count - clear - i,
        {
            let v = self.cells[i + clear];
            self.cells.set(i, v);
            i += 1;
        }
        while i < cell_count
            invariant
                cell_count - clear <= i <= cell_count,
                clear <= cell_count,
                clear == grid.width,
                cell_count == grid.width * grid.height,
                self.fg == old(self).fg,
                self.bg == old(self).bg,
                old_cells == old(self).cells@,
                blank == old(self)@.blank(),
                cell_count <= old_cells.len(),
                self.cells@.len() == old_cells.len(),
                forall|j: int|
                    0 <= j < old_cells.len() ==> #[trigger] self.cells@[j] == (if j < cell_count - clear {
                        old_cells[j + clear]
                    } else if j < i {
                        blank
                    } else {
                        old_cells[j]
                    }),
            decreases cell_count - i,
        {
            self.cells.set(i, blank);
            i += 1;
        }
        assert(self.cells@ =~= scrolled_cells(old_cells, cell_count as int, clear as int, blank));
        Ok(())
    }
}

/// Scrolling a VGA grid moves every row up by one and fills the last row
/// with blanks in the current colors, the same cell `clear` writes: a space
/// with the attribute of the foreground on the background. Cells past the
/// grid are kept.
pub proof fn lemma_vga_scroll_rows(v: VgaView, g: CellGrid)
    requires
        v.wf(),
        g.width * g.height <= v.cells.len(),
        g.height > 0,
    ensures
        ({
            let after = VgaBackend::scroll_outcome(v, g).0;
            let w = g.width as int;
            let h = g.height as int;
            &&& after.cells.len() == v.cells.len()
            &&& after.fg == v.fg && after.bg == v.bg
            &&& forall|i: int| 0 <= i < w * (h - 1) ==> after.cells[i] == v.cells[i + w]
            &&& forall|i: int|
                w * (h - 1) <= i < w * h ==> after.cells[i] == cleared_cells(v.cells, w * h, v.blank())[i]
                    && after.cells[i] % 256 == 32 && (after.cells[i] / 256) % 16 == vga_code(v.fg->Palette_0)
                    && after.cells[i] / 4096 == vga_code(v.bg->Palette_0)
            &&& forall|i: int| w * h <= i < v.cells.len() ==> after.cells[i] == v.cells[i]
        }),
{
    let w = g.width as int;
    let h = g.height as int;
    assert(w * (h - 1) + w == w * h) by (nonlinear_arith);
    lemma_vga_code_distinct(v.fg->Palette_0, v.fg->Palette_0);
    lemma_vga_code_distinct(v.bg->Palette_0, v.bg->Palette_0);
}

/// A cell inside a grid has an index below the cell count.
proof fn lemma_cell_inside(x: int, y: int, w: int, h: int)
    requires
        0 <= x < w,
        0 <= y < h,
    ensures
        y * w + x < w * h,
{
    assert(y * w + x < w * h) by (nonlinear_arith)
        requires
            0 <= x < w,
            0 <= y < h,
    ;
}

/// A console for VGA text mode, drawing into its own buffer of cells.
pub struct VgaConsole {
    pub backend: VgaBackend,
    pub cell_grid: CellGrid,
    pub cursor: Cursor,
}

/// The register writes that put the hardware cursor on cell `index`:
/// the low byte of the index, then its high byte.
pub open spec fn cursor_writes(index: int) -> Seq<(u16, u8)> {
    seq![
        (CRTC_ADDRESS_REG, CRTC_CURSOR_LOW_REG),
        (CRTC_DATA_REG, (index % 256) as u8),
        (CRTC_ADDRESS_REG, CRTC_CURSOR_HIGH_REG),
        (CRTC_DATA_REG, ((index / 256) % 256) as u8),
    ]
}

/// The two data bytes of the cursor writes are the low and the high byte
/// of the cell index, so they give the index back.
pub proof fn lemma_cursor_writes_encode(index: int)
    requires
        0 <= index < 65536,
    ensures
        cursor_writes(index)[1].1 + 256 * cursor_writes(index)[3].1 == index,
{
}

/// The cursor start register value for `enable`, from its current value:
/// the cursor-disable bit (0x20) cleared or set, the other bits kept.
pub open spec fn cursor_start_value(old_value: u8, enable: bool) -> u8 {
    if enable {
        old_value & !0x20u8
    } else {
        old_value | 0x20u8
    }
}

/// Enabling the cursor clears the cursor-disable bit (0x20) of the cursor
/// start register, disabling sets it, and the other bits are kept.
pub proof fn lemma_cursor_start_bits(old_value: u8, enable: bool)
    ensures
        (cursor_start_value(old_value, enable) & 0x20u8 == 0u8) == enable,
        cursor_start_value(old_value, enable) & !0x20u8 == old_value & !0x20u8,
{
    let n = cursor_start_value(old_value, enable);
    if enable {
        assert(n & 0x20u8 == 0u8 && n & !0x20u8 == old_value & !0x20u8) by (bit_vector)
            requires
                n == old_value & !0x20u8,
        ;
    } else {
        assert(n & 0x20u8 != 0u8 && n & !0x20u8 == old_value & !0x20u8) by (bit_vector)
            requires
                n == old_value | 0x20u8,
        ;
    }
}

impl VgaConsole {
    /// A console over a fresh buffer of 80 × 25 zeroed cells.
    pub fn new() -> (r: Self)
        ensures
            r.wf(),
            r.backend@ == (VgaView {
                cells: Seq::new(2000, |i: int| 0u16),
                fg: Color::Palette(Palette::White),
                bg: Color::Palette(Palette::Black),
            }),
            r.cell_grid == (CellGrid { width: 80, height: 25, x: 0, y: 0, deferred_wrap: false }),
            r.cursor.enabled,
            !r.cursor.visible,
    {
        let mut cells: Vec<u16> = Vec::new();
        let mut i: usize = 0;
        while i < VGA_ROWS * VGA_COLS
            invariant
                i <= 2000,
                cells@ == Seq::new(i as nat, |j: int| 0u16),
            decreases 2000 - i,
        {
            cells.push(0);
            i += 1;
        }
        Self::new_with_ptr(cells)
    }

    /// A console drawing into `buffer`, whose first 80 × 25 cells are the
    /// screen.
    pub fn new_with_ptr(buffer: Vec<u16>) -> (r: Self)
        requires
            buffer@.len() >= 2000,
        ensures
            r.wf(),
            r.backend@ == (VgaView {
                cells: buffer@,
                fg: Color::Palette(Palette::White),
                bg: Color::Palette(Palette::Black),
            }),
            r.cell_grid == (CellGrid { width: 80, height: 25, x: 0, y: 0, deferred_wrap: false }),
            r.cursor.enabled,
            !r.cursor.visible,
    {
        Self {
            backend: VgaBackend::new(buffer),
            cell_grid: CellGrid::new(VGA_COLS, VGA_ROWS),
            cursor: Cursor::new(),
        }
    }

    /// The register writes, as (port, value) pairs in order, that move the
    /// hardware cursor to the cursor of the grid.
    pub fn hardware_cursor_writes(&self) -> (r: [(u16, u8); 4])
        requires
            self.wf(),
        ensures
            r@ == cursor_writes(self.cell_grid.y * self.cell_grid.width + self.cell_grid.x),
    {
        proof {
            lemma_cell_inside(self.cell_grid.x as int, self.cell_grid.y as int, 80, 25);
        }
        let cell_index = self.cell_grid.cell_index();
        let low = (cell_index & 0xFF) as u8;
        let high = ((cell_index >> 8) & 0xFF) as u8;
        assert(low == cell_index % 256 && high == (cell_index / 256) % 256) by (bit_vector)
            requires
                low == (cell_index & 0xFF) as u8,
                high == ((cell_index >> 8) & 0xFF) as u8,
        ;
        [
            (CRTC_ADDRESS_REG, CRTC_CURSOR_LOW_REG),
            (CRTC_DATA_REG, low),
            (CRTC_ADDRESS_REG, CRTC_CURSOR_HIGH_REG),
            (CRTC_DATA_REG, high),
        ]
    }
}

/// The new value of the cursor start register when the cursor is enabled
/// or disabled and the register holds `old_value`: `None` when it already
/// holds the right value and need not be written.
pub fn cursor_start_update(old_value: u8, enable: bool) -> (r: Option<u8>)
    ensures
        r == (if cursor_start_value(old_value, enable) == old_value {
            None
        } else {
            Some(cursor_start_value(old_value, enable))
        }),
{
    let new_value = if enable {
        old_value & !0x20
    } else {
        old_value | 0x20
    };
    if new_value != old_value {
        Some(new_value)
    } else {
        None
    }
}

impl VgaConsole {
    /// The screen is the first 80 × 25 cells of the buffer, the cursor
    /// stands on it, and the colors are palette colors.
    pub open spec fn wf(&self) -> bool {
        &&& self.cell_grid.width == 80
        &&& self.cell_grid.height == 25
        &&& self.cell_grid.wf()
        &&& self.backend.cells@.len() >= 2000
        &&& self.backend@.wf()
    }
}

/// A printable byte written at the cursor (not right after the last cell
/// was filled) lands in the cell under the cursor, in the current colors,
/// and no other cell changes.
pub proof fn lemma_vga_byte_lands_at_cursor(v: VgaView, g: CellGrid, ch: u8)
    requires
        VgaBackend::fits(v, g.width, g.height),
        g.wf(),
        g.x < g.width,
        g.y < g.height,
        is_printable(ch),
        !(g.deferred_wrap && g.at_last_cell()),
    ensures
        ({
            let i = g.y * g.width + g.x;
            let after = write_step::<VgaBackend>(v, g, ch).0.cells;
            &&& after[i] == cell_word(ch, v.attributes())
            &&& forall|j: int| 0 <= j < v.cells.len() && j != i ==> after[j] == v.cells[j]
            &&& after.len() == v.cells.len()
        }),
{
    lemma_cell_inside(g.x as int, g.y as int, g.width as int, g.height as int);
}

/// Nothing written to a VGA console fails: every run of bytes ends with `Ok`.
pub proof fn lemma_vga_write_never_fails(v: VgaView, g: CellGrid, s: Seq<u8>)
    ensures
        write_run::<VgaBackend>(v, g, s).2 is Ok,
    decreases s.len(),
{
    if s.len() > 0 {
        lemma_vga_write_never_fails(v, g, s.drop_last());
        let (v1, g1, r1) = write_run::<VgaBackend>(v, g, s.drop_last());
        assert(write_step::<VgaBackend>(v1, g1, s.last()).2 is Ok);
    }
}

impl Console for VgaConsole {
    open spec fn wf(&self) -> bool {
        VgaConsole::wf(self)
    }

    /// VGA cells hold any byte.
    open spec fn can_write(&self, s: Seq<u8>) -> bool {
        true
    }

    /// Blanks the whole screen in the current colors.
    fn clear(&mut self) -> (r: Result<(), Error>)
        ensures
            r is Ok,
            final(self).backend@ == (VgaView {
                cells: cleared_cells(old(self).backend.cells@, 2000, old(self).backend@.blank()),
                ..old(self).backend@
            }),
            final(self).cell_grid == old(self).cell_grid,
            final(self).cursor == old(self).cursor,
    {
        self.backend.clear(&self.cell_grid)
    }

    /// The buffer needs no synchronization; the hardware cursor is moved
    /// with the writes that `hardware_cursor_writes` gives.
    fn flush(&mut self) -> (r: Result<(), Error>)
        ensures
            r is Ok,
            *final(self) == *old(self),
    {
        Ok(())
    }

    /// Writes `s` at the cursor; never fails, and consumes all of `s`.
    fn write(&mut self, s: &[u8]) -> (r: Result<usize, Error>)
        ensures
            r == Ok::<usize, Error>(s@.len() as usize),
            final(self).backend@ == write_run::<VgaBackend>(old(self).backend@, old(self).cell_grid, s@).0,
            final(self).cell_grid == write_run::<VgaBackend>(old(self).backend@, old(self).cell_grid, s@).1,
            final(self).cursor == old(self).cursor,
    {
        proof {
            lemma_vga_write_never_fails(self.backend@, self.cell_grid, s@);
        }
        let mut cell_writer = CellWriter::new();
        cell_writer.write(&mut self.backend, &mut self.cell_grid, s)
    }
}

impl CellConsole for VgaConsole {
    open spec fn grid(&self) -> CellGrid {
        self.cell_grid
    }

    open spec fn can_scroll(&self) -> bool {
        true
    }

    fn cell_grid(&self) -> (r: &CellGrid) {
        &self.cell_grid
    }

    fn position(&mut self, x: usize, y: usize) -> (r: Result<(), Error>)
        ensures
            final(self).backend@ == old(self).backend@,
            final(self).cursor == old(self).cursor,
    {
        if x >= self.cell_grid.width || y >= self.cell_grid.height {
            return Err(Error::Invalid);
        }
        self.cell_grid.x = x;
        self.cell_grid.y = y;
        Ok(())
    }

    /// Moves every row of the screen up by one and blanks the last row.
    fn scroll(&mut self) -> (r: Result<(), Error>)
        ensures
            r is Ok,
            final(self).backend@ == VgaBackend::scroll_outcome(old(self).backend@, old(self).cell_grid).0,
            final(self).cursor == old(self).cursor,
    {
        self.backend.scroll(&self.cell_grid)
    }
}

impl CursorConsole for VgaConsole {
    open spec fn cursor_enabled(&self) -> bool {
        self.cursor.enabled
    }

    /// Records whether the cursor is enabled; the hardware cursor is
    /// switched with the value that `cursor_start_update` gives.
    fn enable(&mut self, enable: bool) -> (r: Result<(), Error>)
        ensures
            r is Ok,
            final(self).backend@ == old(self).backend@,
            final(self).cursor == (Cursor { enabled: enable, ..old(self).cursor }),
    {
        self.cursor.enabled = enable;
        Ok(())
    }
}

impl ColorConsole for VgaConsole {
    open spec fn foreground(&self) -> Color {
        self.backend.fg
    }

    open spec fn background(&self) -> Color {
        self.backend.bg
    }

    fn fg(&self) -> (r: Color) {
        self.backend.fg
    }

    fn bg(&self) -> (r: Color) {
        self.backend.bg
    }

    /// Fails with `Error::Unsupported` for an RGB color.
    fn set_fg(&mut self, fg: Color) -> (r: Result<(), Error>)
        ensures
            r is Err <==> fg is Rgb,
            r is Err ==> r == Err::<(), Error>(Error::Unsupported),
            r is Ok ==> final(self).backend@ == (VgaView { fg, ..old(self).backend@ }),
            final(self).cell_grid == old(self).cell_grid,
            final(self).cursor == old(self).cursor,
    {
        match fg {
            Color::Rgb(_, _, _) => return Err(Error::Unsupported),
            Color::Palette(_) => {},
        }
        self.backend.fg = fg;
        Ok(())
    }

    /// Fails with `Error::Unsupported` for an RGB color.
    fn set_bg(&mut self, bg: Color) -> (r: Result<(), Error>)
        ensures
            r is Err <==> bg is Rgb,
            r is Err ==> r == Err::<(), Error>(Error::Unsupported),
            r is Ok ==> final(self).backend@ == (VgaView { bg, ..old(self).backend@ }),
            final(self).cell_grid == old(self).cell_grid,
            final(self).cursor == old(self).cursor,
    {
        match bg {
            Color::Rgb(_, _, _) => return Err(Error::Unsupported),
            Color::Palette(_) => {},
        }
        self.backend.bg = bg;
        Ok(())
    }
}

} // verus!
