//! A console drawn with a bitmap font into a linear pixel framebuffer.
//!
//! The console draws into the framebuffer's buffer, which it owns. Making
//! that buffer visible (mapping it, or copying it to video memory, and
//! fencing write-combining memory) is the caller's part.

use vstd::prelude::*;

use vstd::arithmetic::div_mod::{lemma_fundamental_div_mod, lemma_fundamental_div_mod_converse};

use crate::cell_grid::{is_printable, write_result, write_run, CellBackend, CellGrid, CellWriter};
use crate::color::{palette_position, Color, Palette};
use crate::cursor::{hidden_outcome, toggled_if, with_cursor_hidden, CellOp, Cursor, CursorContext};
use crate::fb::{Framebuffer, Mask};
use crate::font::{bytes_per_glyph, default_font, glyph_pixel, BitmapFont};
use crate::simple::pixels::{copy_rows_up, fill_fn, lemma_locate, paint, painted, Fill, Pattern};
use crate::simple::{BlinkConsole, CellConsole, ColorConsole, Console, CursorConsole, Error};

verus! {

/// Bits per pixel that the console can draw with.
pub open spec fn valid_bpp(bpp: usize) -> bool {
    bpp == 8 || bpp == 16 || bpp == 24 || bpp == 32
}

/// The framebuffer console accepts this framebuffer: its pixels are whole
/// bytes, its color components start within 32 bits, and its rows hold
/// its pixels.
pub open spec fn fb_accepted(fb: &Framebuffer) -> bool {
    &&& valid_bpp(fb.bpp)
    &&& fb.red_mask.shift <= 31
    &&& fb.green_mask.shift <= 31
    &&& fb.blue_mask.shift <= 31
    &&& fb.width * (fb.bpp / 8) <= fb.pitch
}

/// Whether the framebuffer console can draw on `fb` (see `fb_accepted`).
pub fn supports(fb: &Framebuffer) -> (r: bool)
    requires
        valid_bpp(fb.bpp) ==> fb.width * (fb.bpp / 8) <= usize::MAX,
    ensures
        r == fb_accepted(fb),
{
    if (fb.bpp != 8 && fb.bpp != 16 && fb.bpp != 24 && fb.bpp != 32) || fb.red_mask.shift > 31
        || fb.green_mask.shift > 31 || fb.blue_mask.shift > 31 {
        return false;
    }

    let min_row_size = fb.width * (fb.bpp / 8);
    fb.pitch >= min_row_size
}

/// How many of a component's top bits a pixel keeps: its size, at most 8.
pub open spec fn kept_bits(size: u16) -> u16 {
    if size < 8 {
        size
    } else {
        8
    }
}

/// An 8-bit component value placed in its mask: its top bits kept, shifted
/// to the mask's position.
pub open spec fn channel(v: u8, m: Mask) -> u32 {
    ((v as u32) >> ((8 - kept_bits(m.size)) as u32)) << (m.shift as u32)
}

/// The four bytes of `v`, least significant first when `little_endian`,
/// most significant first otherwise.
pub open spec fn color_bytes(v: u32, little_endian: bool) -> Seq<u8> {
    let b0 = (v & 0xff) as u8;
    let b1 = ((v >> 8u32) & 0xff) as u8;
    let b2 = ((v >> 16u32) & 0xff) as u8;
    let b3 = ((v >> 24u32) & 0xff) as u8;
    if little_endian {
        seq![b0, b1, b2, b3]
    } else {
        seq![b3, b2, b1, b0]
    }
}

/// The RGB values of the sixteen palette colors, in declaration order.
pub open spec fn default_palette() -> Seq<(u8, u8, u8)> {
    seq![
        (0u8, 0u8, 0u8),
        (128u8, 0u8, 0u8),
        (0u8, 128u8, 0u8),
        (128u8, 128u8, 0u8),
        (0u8, 0u8, 128u8),
        (128u8, 0u8, 128u8),
        (0u8, 128u8, 128u8),
        (192u8, 192u8, 192u8),
        (128u8, 128u8, 128u8),
        (255u8, 0u8, 0u8),
        (0u8, 255u8, 0u8),
        (255u8, 255u8, 0u8),
        (0u8, 0u8, 255u8),
        (255u8, 0u8, 255u8),
        (0u8, 255u8, 255u8),
        (255u8, 255u8, 255u8),
    ]
}

/// What a backend or a framebuffer console needs of its arguments: row
/// sizes that fit in a `usize`, a buffer that holds every row, and a font
/// with a size.
pub open spec fn backend_args_ok(fb: &Framebuffer, font: &Option<BitmapFont>) -> bool {
    &&& valid_bpp(fb.bpp) ==> fb.width * (fb.bpp / 8) <= usize::MAX
    &&& fb_accepted(fb) ==> fb.pitch * fb.height <= fb.buffer@.len()
    &&& fb_accepted(fb) ==> match *font {
        Some(f) => f.wf() && f.width * (fb.bpp / 8) <= usize::MAX && f.height * fb.pitch <= usize::MAX,
        None => 16 * fb.pitch <= usize::MAX,
    }
}

/// `b` is the backend made from `fb` and `font` (the default font when
/// none is given), apart from its byte order.
pub open spec fn backend_made(fb: &Framebuffer, font: &Option<BitmapFont>, b: &Backend) -> bool {
    &&& b@.wf()
    &&& b.fb == *fb
    &&& match *font {
        Some(f) => b.font == f,
        None => b.font.width == 8 && b.font.height == 16 && b.font.data@ == Seq::new(4096, |i: int| 0u8),
    }
    &&& b.cursor == Cursor { enabled: true, visible: false }
    &&& b.fg == Color::Palette(Palette::White)
    &&& b.bg == Color::Palette(Palette::Black)
    &&& b.palette@ == default_palette()
    &&& b.glyph_advance == b.font.width * (fb.bpp / 8)
    &&& b.glyph_pitch == b.font.height * fb.pitch
}

/// `c` is the console made from `fb` and `font`, apart from its byte
/// order: its backend is the one `Backend::new` makes, and its grid has as
/// many cells as whole glyphs fit, with the cursor at the origin.
pub open spec fn console_made(fb: &Framebuffer, font: &Option<BitmapFont>, c: &FbConsole) -> bool {
    &&& c.wf()
    &&& backend_made(fb, font, &c.backend)
    &&& c.cell_grid == (CellGrid {
        width: (fb.width / c.backend.font.width) as usize,
        height: (fb.height / c.backend.font.height) as usize,
        x: 0,
        y: 0,
        deferred_wrap: false,
    })
}

/// `u32::to_ne_bytes`: the bytes of `v` in the byte order of the machine,
/// which is either little-endian or big-endian. Which one is not stated.
#[verifier::external_body]
fn native_bytes(v: u32) -> (r: [u8; 4])
    ensures
        r@ == color_bytes(v, true) || r@ == color_bytes(v, false),
{
    v.to_ne_bytes()
}

/// The state behind a framebuffer console: the framebuffer, the font, the
/// cursor and the colors.
pub struct Backend {
    pub fb: Framebuffer,
    pub font: BitmapFont,
    pub cursor: Cursor,
    pub fg: Color,
    pub bg: Color,
    pub palette: [(u8, u8, u8); 16],
    /// Glyph width in bytes.
    pub glyph_advance: usize,
    /// Bytes to get the next row's glyph.
    pub glyph_pitch: usize,
    /// Pixels are stored least significant byte first (the machine's byte order).
    pub little_endian: bool,
}

/// What a `Backend` holds, with the pixels as a sequence.
pub struct BackendView {
    pub pixels: Seq<u8>,
    pub width: usize,
    pub height: usize,
    pub pitch: usize,
    pub bpp: usize,
    pub red_mask: Mask,
    pub green_mask: Mask,
    pub blue_mask: Mask,
    pub font: BitmapFont,
    pub cursor: Cursor,
    pub fg: Color,
    pub bg: Color,
    pub palette: Seq<(u8, u8, u8)>,
    pub glyph_advance: usize,
    pub glyph_pitch: usize,
    pub little_endian: bool,
}

impl View for Backend {
    type V = BackendView;

    open spec fn view(&self) -> BackendView {
        BackendView {
            pixels: self.fb.buffer@,
            width: self.fb.width,
            height: self.fb.height,
            pitch: self.fb.pitch,
            bpp: self.fb.bpp,
            red_mask: self.fb.red_mask,
            green_mask: self.fb.green_mask,
            blue_mask: self.fb.blue_mask,
            font: self.font,
            cursor: self.cursor,
            fg: self.fg,
            bg: self.bg,
            palette: self.palette@,
            glyph_advance: self.glyph_advance,
            glyph_pitch: self.glyph_pitch,
            little_endian: self.little_endian,
        }
    }
}

impl BackendView {
    /// Bytes per pixel.
    pub open spec fn bpb(self) -> int {
        (self.bpp / 8) as int
    }

    /// The geometry is one the console accepts, the buffer holds every
    /// row, the font is usable, and the glyph steps match font and pitch.
    pub open spec fn wf(self) -> bool {
        &&& valid_bpp(self.bpp)
        &&& self.red_mask.shift <= 31
        &&& self.green_mask.shift <= 31
        &&& self.blue_mask.shift <= 31
        &&& self.width * self.bpb() <= self.pitch
        &&& self.pitch * self.height <= self.pixels.len()
        &&& self.font.wf()
        &&& self.glyph_advance == self.font.width * self.bpb()
        &&& self.glyph_pitch == self.font.height * self.pitch
        &&& self.palette.len() == 16
    }

    /// The RGB value of a color.
    pub open spec fn rgb(self, c: Color) -> (u8, u8, u8) {
        match c {
            Color::Rgb(r, g, b) => (r, g, b),
            Color::Palette(p) => self.palette[palette_position(p) as int],
        }
    }

    /// The pixel value of a color.
    pub open spec fn pixel_value(self, c: Color) -> u32 {
        let (r, g, b) = self.rgb(c);
        channel(r, self.red_mask) | channel(g, self.green_mask) | channel(b, self.blue_mask)
    }

    /// The bytes of one pixel of a color.
    pub open spec fn pixel_bytes(self, c: Color) -> Seq<u8> {
        color_bytes(self.pixel_value(c), self.little_endian)
    }

    /// The byte at which the cell under the cursor of `g` starts.
    pub open spec fn cell_start(self, g: CellGrid) -> int {
        g.y * self.glyph_pitch + g.x * self.glyph_advance
    }

    /// The same state with other pixels.
    pub open spec fn with_pixels(self, pixels: Seq<u8>) -> BackendView {
        BackendView { pixels, ..self }
    }

    /// The pixels after painting the visible part of every row in the
    /// background color; the padding after each row is kept.
    pub open spec fn cleared_pixels(self) -> Seq<u8> {
        painted(
            self.pixels,
            0,
            self.height as int,
            self.width * self.bpb(),
            self.pitch as int,
            fill_fn(Pattern::Solid(self.pixel_bytes(self.bg)), self.font, self.bpb()),
        )
    }

    /// The pixels after scrolling up by one text row: each pixel row takes
    /// the row a glyph height below, and the last glyph height of rows is
    /// painted in the background color.
    pub open spec fn scrolled_pixels(self) -> Seq<u8> {
        let clear = self.font.height as int;
        let kept = self.height - clear;
        let row_bytes = self.width * self.bpb();
        let moved = painted(
            self.pixels,
            0,
            kept,
            row_bytes,
            self.pitch as int,
            |r: int, c: int| self.pixels[(r + clear) * self.pitch + c],
        );
        painted(
            moved,
            kept * self.pitch,
            clear,
            row_bytes,
            self.pitch as int,
            fill_fn(Pattern::Solid(self.pixel_bytes(self.bg)), self.font, self.bpb()),
        )
    }

    /// The pixels after drawing glyph `ch` in the foreground color on the
    /// background color, in the cell starting at `index`.
    pub open spec fn glyph_pixels(self, index: int, ch: u8) -> Seq<u8> {
        painted(
            self.pixels,
            index,
            self.font.height as int,
            self.font.width * self.bpb(),
            self.pitch as int,
            fill_fn(
                Pattern::Glyph(ch, self.pixel_bytes(self.fg), self.pixel_bytes(self.bg)),
                self.font,
                self.bpb(),
            ),
        )
    }

    /// The pixels after painting the first pixel column of the cell
    /// starting at `index` in color `c`: the cursor.
    pub open spec fn cursor_pixels(self, index: int, c: Color) -> Seq<u8> {
        painted(
            self.pixels,
            index,
            self.font.height as int,
            self.bpb(),
            self.pitch as int,
            fill_fn(Pattern::Solid(self.pixel_bytes(c)), self.font, self.bpb()),
        )
    }
}

/// The four bytes of a pixel value give the value back, least significant
/// first in little-endian order; big-endian order is the same bytes
/// reversed.
pub proof fn lemma_color_bytes_value(v: u32)
    ensures
        color_bytes(v, true).len() == 4,
        color_bytes(v, true)[0] + 256 * color_bytes(v, true)[1] + 65536 * color_bytes(v, true)[2] + 16777216
            * color_bytes(v, true)[3] == v,
        color_bytes(v, false) == color_bytes(v, true).reverse(),
{
    let b0 = (v & 0xff) as u8;
    let b1 = ((v >> 8u32) & 0xff) as u8;
    let b2 = ((v >> 16u32) & 0xff) as u8;
    let b3 = ((v >> 24u32) & 0xff) as u8;
    assert(b0 as u32 + 256 * (b1 as u32) + 65536 * (b2 as u32) + 16777216 * (b3 as u32) == v) by (bit_vector)
        requires
            b0 == (v & 0xff) as u8,
            b1 == ((v >> 8u32) & 0xff) as u8,
            b2 == ((v >> 16u32) & 0xff) as u8,
            b3 == ((v >> 24u32) & 0xff) as u8,
    ;
    assert(color_bytes(v, false) =~= color_bytes(v, true).reverse());
}

/// A component of at least 8 bits keeps its whole value, shifted to the
/// mask's position; a narrower one keeps its top `size` bits.
pub proof fn lemma_channel_keeps_top_bits(v: u8, m: Mask)
    requires
        m.shift <= 31,
    ensures
        m.size >= 8 ==> channel(v, m) == (v as u32) << (m.shift as u32),
        m.size < 8 ==> channel(v, m) == ((v as u32) / (1u32 << ((8 - m.size) as u32))) << (m.shift as u32),
{
    let vv = v as u32;
    if m.size < 8 {
        let k = (8 - m.size) as u32;
        assert(vv >> k == vv / (1u32 << k)) by (bit_vector)
            requires
                k <= 8,
        ;
    } else {
        assert(vv >> 0u32 == vv) by (bit_vector);
    }
}

/// Drawing glyph `ch` in the cell starting at `index` sets byte `i` of
/// pixel `gx` of glyph row `gy` (`gy` pitches, `gx` pixels and `i` bytes
/// after `index`) to byte `i` of the foreground color where the glyph's
/// pixel is set and of the background color elsewhere; bytes before the
/// cell, and from the row after its last on, are unchanged.
pub proof fn lemma_glyph_drawn(v: BackendView, index: int, ch: u8, gx: int, gy: int, i: int)
    requires
        v.wf(),
        v.font.width * v.bpb() <= v.pitch,
        0 <= index,
        0 <= gx < v.font.width,
        0 <= gy < v.font.height,
        0 <= i < v.bpb(),
        index + gy * v.pitch + gx * v.bpb() + i < v.pixels.len(),
    ensures
        v.glyph_pixels(index, ch)[index + gy * v.pitch + gx * v.bpb() + i] == (if glyph_pixel(
            v.font.data@,
            v.font.width as int,
            v.font.height as int,
            ch,
            gx,
            gy,
        ) {
            v.pixel_bytes(v.fg)[i]
        } else {
            v.pixel_bytes(v.bg)[i]
        }),
        forall|o: int|
            0 <= o < v.pixels.len() && (o < index || o >= index + v.font.height * v.pitch) ==> #[trigger] v.glyph_pixels(
                index,
                ch,
            )[o] == v.pixels[o],
{
    let bpb = v.bpb();
    let p = v.pitch as int;
    let c = gx * bpb + i;
    assert(c < v.font.width * bpb) by (nonlinear_arith)
        requires
            gx + 1 <= v.font.width,
            0 <= i < bpb,
            c == gx * bpb + i,
    ;
    assert(0 <= c) by (nonlinear_arith)
        requires
            0 <= gx,
            0 <= i,
            0 <= bpb,
            c == gx * bpb + i,
    ;
    lemma_locate(index + gy * p + c, index, p, gy, c);
    lemma_fundamental_div_mod_converse(c, bpb, gx, i);
    assert forall|o: int|
        0 <= o < v.pixels.len() && (o < index || o >= index + v.font.height * v.pitch) implies #[trigger] v.glyph_pixels(
        index,
        ch,
    )[o] == v.pixels[o] by {
        if o >= index + v.font.height * p {
            lemma_fundamental_div_mod(o - index, p);
            assert((o - index) / p >= v.font.height) by (nonlinear_arith)
                requires
                    o - index >= v.font.height * p,
                    o - index == p * ((o - index) / p) + (o - index) % p,
                    (o - index) % p < p,
                    p > 0,
            ;
        }
    }
}

/// Clearing paints byte `i` of every pixel of every row in the background
/// color and keeps the padding after each row.
pub proof fn lemma_cleared(v: BackendView, y: int, c: int)
    requires
        v.wf(),
        v.pitch > 0,
        0 <= y < v.height,
        0 <= c < v.pitch,
    ensures
        c < v.width * v.bpb() ==> v.cleared_pixels()[y * v.pitch + c] == v.pixel_bytes(v.bg)[c % v.bpb()],
        c >= v.width * v.bpb() ==> v.cleared_pixels()[y * v.pitch + c] == v.pixels[y * v.pitch + c],
{
    lemma_locate(y * v.pitch + c, 0, v.pitch as int, y, c);
    assert(y * v.pitch + c < v.pitch * v.height) by (nonlinear_arith)
        requires
            0 <= y < v.height,
            0 <= c < v.pitch,
    ;
}

/// Scrolling moves each pixel row up by one glyph height, paints the last
/// glyph height of rows in the background color, and keeps the padding
/// after each row.
pub proof fn lemma_scrolled(v: BackendView, y: int, c: int)
    requires
        v.wf(),
        v.pitch > 0,
        v.font.height <= v.height,
        0 <= y < v.height,
        0 <= c < v.pitch,
    ensures
        c < v.width * v.bpb() && y + v.font.height < v.height ==> v.scrolled_pixels()[y * v.pitch + c]
            == v.pixels[(y + v.font.height) * v.pitch + c],
        c < v.width * v.bpb() && y + v.font.height >= v.height ==> v.scrolled_pixels()[y * v.pitch + c]
            == v.pixel_bytes(v.bg)[c % v.bpb()],
        c >= v.width * v.bpb() ==> v.scrolled_pixels()[y * v.pitch + c] == v.pixels[y * v.pitch + c],
{
    let p = v.pitch as int;
    let kept = v.height - v.font.height;
    let o = y * p + c;
    assert(o < p * v.height) by (nonlinear_arith)
        requires
            0 <= y < v.height,
            0 <= c < p,
            o == y * p + c,
    ;
    lemma_locate(o, 0, p, y, c);
    if y >= kept {
        assert(kept * p + (y - kept) * p == y * p) by (nonlinear_arith);
        lemma_locate(o, kept * p, p, y - kept, c);
    } else {
        assert(o < kept * p) by (nonlinear_arith)
            requires
                y < kept,
                0 <= c < p,
                o == y * p + c,
        ;
    }
}

/// With the default palette, each palette color has its classic RGB value.
pub proof fn lemma_palette_rgb(v: BackendView)
    requires
        v.palette == default_palette(),
    ensures
        v.rgb(Color::Palette(Palette::Black)) == (0u8, 0u8, 0u8),
        v.rgb(Color::Palette(Palette::Red)) == (128u8, 0u8, 0u8),
        v.rgb(Color::Palette(Palette::Green)) == (0u8, 128u8, 0u8),
        v.rgb(Color::Palette(Palette::Brown)) == (128u8, 128u8, 0u8),
        v.rgb(Color::Palette(Palette::Blue)) == (0u8, 0u8, 128u8),
        v.rgb(Color::Palette(Palette::Magenta)) == (128u8, 0u8, 128u8),
        v.rgb(Color::Palette(Palette::Cyan)) == (0u8, 128u8, 128u8),
        v.rgb(Color::Palette(Palette::LightGray)) == (192u8, 192u8, 192u8),
        v.rgb(Color::Palette(Palette::DarkGray)) == (128u8, 128u8, 128u8),
        v.rgb(Color::Palette(Palette::LightRed)) == (255u8, 0u8, 0u8),
        v.rgb(Color::Palette(Palette::LightGreen)) == (0u8, 255u8, 0u8),
        v.rgb(Color::Palette(Palette::Yellow)) == (255u8, 255u8, 0u8),
        v.rgb(Color::Palette(Palette::LightBlue)) == (0u8, 0u8, 255u8),
        v.rgb(Color::Palette(Palette::LightMagenta)) == (255u8, 0u8, 255u8),
        v.rgb(Color::Palette(Palette::LightCyan)) == (0u8, 255u8, 255u8),
        v.rgb(Color::Palette(Palette::White)) == (255u8, 255u8, 255u8),
        forall|r: u8, g: u8, b: u8| v.rgb(Color::Rgb(r, g, b)) == (r, g, b),
{
}

/// A cell of a grid that the backend fits lies inside the buffer, its
/// glyph rows being no wider than the pitch.
proof fn lemma_cell_inside(v: BackendView, g: CellGrid)
    requires
        Backend::fits(v, g.width, g.height),
        g.x < g.width,
        g.y < g.height,
    ensures
        0 <= g.y * v.glyph_pitch <= v.cell_start(g),
        0 <= g.x * v.glyph_advance,
        v.cell_start(g) + (v.font.height - 1) * v.pitch + v.font.width * v.bpb() <= v.pixels.len(),
        v.font.width * v.bpb() <= v.pitch,
{
    let fw = v.font.width as int;
    let fh = v.font.height as int;
    let bpb = v.bpb();
    let p = v.pitch as int;
    let x = g.x as int;
    let y = g.y as int;
    let w = g.width as int;
    let h = g.height as int;
    assert(1 <= bpb <= 4);
    assert((x + 1) * fw <= w * fw) by (nonlinear_arith)
        requires
            x + 1 <= w,
            0 <= fw,
    ;
    assert((x + 1) * fw * bpb <= v.width * bpb) by (nonlinear_arith)
        requires
            (x + 1) * fw <= w * fw,
            w * fw <= v.width,
            0 <= bpb,
    ;
    assert((y + 1) * fh <= h * fh) by (nonlinear_arith)
        requires
            y + 1 <= h,
            0 <= fh,
    ;
    assert(((y + 1) * fh - 1) * p <= (v.height - 1) * p) by (nonlinear_arith)
        requires
            (y + 1) * fh <= h * fh,
            h * fh <= v.height,
            0 <= p,
    ;
    assert(y * (fh * p) + (fh - 1) * p == ((y + 1) * fh - 1) * p) by (nonlinear_arith);
    assert(x * (fw * bpb) + fw * bpb == (x + 1) * fw * bpb) by (nonlinear_arith);
    assert(v.cell_start(g) + (fh - 1) * p + fw * bpb == ((y + 1) * fh - 1) * p + (x + 1) * fw * bpb);
    assert((v.height - 1) * p + p == v.height * p) by (nonlinear_arith);
    assert(v.height * p == p * v.height) by (nonlinear_arith);
    assert(0 <= y * v.glyph_pitch && 0 <= x * v.glyph_advance) by (nonlinear_arith)
        requires
            0 <= y,
            0 <= x,
            0 <= v.glyph_pitch,
            0 <= v.glyph_advance,
    ;
    assert(fw * bpb <= (x + 1) * fw * bpb) by (nonlinear_arith)
        requires
            0 <= x,
            0 <= fw,
            0 <= bpb,
    ;
}

/// The visible part of every row lies inside the buffer.
proof fn lemma_rows_inside(v: BackendView, first: int, rows: int)
    requires
        v.wf(),
        0 <= first,
        0 < rows,
        first + rows <= v.height,
    ensures
        0 <= first * v.pitch,
        first * v.pitch + (rows - 1) * v.pitch + v.width * v.bpb() <= v.pixels.len(),
        (first + rows - 1) * v.pitch + v.width * v.bpb() <= v.pixels.len(),
{
    let p = v.pitch as int;
    assert(first * p + (rows - 1) * p == (first + rows - 1) * p) by (nonlinear_arith);
    assert((first + rows - 1) * p <= (v.height - 1) * p) by (nonlinear_arith)
        requires
            first + rows <= v.height,
            0 <= p,
    ;
    assert((v.height - 1) * p + p == p * v.height) by (nonlinear_arith);
    assert(0 <= first * p) by (nonlinear_arith)
        requires
            0 <= first,
            0 <= p,
    ;
}

impl Backend {
    fn color(&self, color: Color) -> (r: u32)
        requires
            self@.wf(),
        ensures
            r == self@.pixel_value(color),
    {
        let rgb = match color {
            Color::Rgb(r, g, b) => (r, g, b),
            Color::Palette(color) => self.palette[color.position()],
        };
        let red_mask = self.fb.red_mask;
        let green_mask = self.fb.green_mask;
        let blue_mask = self.fb.blue_mask;

        // We just clip any bottom bits, which will produce banding.
        // We don't support dithering.
        let red = ((rgb.0 as u32) >> ((8 - min_size(red_mask.size)) as u32)) << (red_mask.shift as u32);
        let green = ((rgb.1 as u32) >> ((8 - min_size(green_mask.size)) as u32)) << (green_mask.shift as u32);
        let blue = ((rgb.2 as u32) >> ((8 - min_size(blue_mask.size)) as u32)) << (blue_mask.shift as u32);
        let mut color: u32 = 0;
        color |= red;
        color |= green;
        color |= blue;
        assert(color == red | green | blue) by (bit_vector)
            requires
                color == ((0u32 | red) | green) | blue,
        ;
        color
    }

    /// The bytes of one pixel of `color`, in the stored byte order.
    fn color_bytes(&self, color: Color) -> (r: [u8; 4])
        requires
            self@.wf(),
        ensures
            r@ == self@.pixel_bytes(color),
    {
        let v = self.color(color);
        let b0 = (v & 0xff) as u8;
        let b1 = ((v >> 8) & 0xff) as u8;
        let b2 = ((v >> 16) & 0xff) as u8;
        let b3 = ((v >> 24) & 0xff) as u8;
        let r = if self.little_endian {
            [b0, b1, b2, b3]
        } else {
            [b3, b2, b1, b0]
        };
        assert(r@ =~= color_bytes(v, self.little_endian));
        r
    }

    fn clear(&mut self) -> (r: Result<(), Error>)
        requires
            old(self)@.wf(),
        ensures
            r is Ok,
            final(self)@ == old(self)@.with_pixels(old(self)@.cleared_pixels()),
    {
        let bg = self.color_bytes(self.bg);
        let bytes_per_pixel = self.fb.bpp / 8;
        proof {
            if self.fb.height > 0 {
                lemma_rows_inside(self@, 0, self.fb.height as int);
            }
        }
        let row_bytes = self.fb.width * bytes_per_pixel;
        paint(&mut self.fb.buffer, 0, self.fb.height, row_bytes, self.fb.pitch, bytes_per_pixel, &Fill::Solid { color: bg }, &self.font);
        Ok(())
    }

    /// Moves the pixel rows up by one glyph height and paints the freed
    /// rows at the bottom in the background color.
    fn scroll_rows(&mut self) -> (r: Result<(), Error>)
        requires
            old(self)@.wf(),
            old(self).font.height <= old(self).fb.height,
        ensures
            r == Ok::<(), Error>(()),
            final(self)@ == old(self)@.with_pixels(old(self)@.scrolled_pixels()),
    {
        let clear = self.font.height;
        let bytes_per_pixel = self.fb.bpp / 8;
        let bg = self.color_bytes(self.bg);
        let kept = self.fb.height - clear;
        proof {
            lemma_rows_inside(self@, kept as int, clear as int);
            if kept > 0 {
                lemma_rows_inside(self@, 0, self.fb.height as int);
            }
        }
        let row_bytes = self.fb.width * bytes_per_pixel;
        assert(self.fb.buffer.len() == self.fb.buffer@.len());
        let ghost before = self@;
        copy_rows_up(&mut self.fb.buffer, kept, clear, row_bytes, self.fb.pitch);
        let ghost moved = self.fb.buffer@;
        let start = kept * self.fb.pitch;
        paint(&mut self.fb.buffer, start, clear, row_bytes, self.fb.pitch, bytes_per_pixel, &Fill::Solid { color: bg }, &self.font);
        assert(self@.pixels == before.scrolled_pixels());
        Ok(())
    }

    fn new(fb: Framebuffer, font: Option<BitmapFont>) -> (r: Option<Self>)
        requires
            backend_args_ok(&fb, &font),
        ensures
            r is Some <==> fb_accepted(&fb),
            r matches Some(b) ==> backend_made(&fb, &font, &b),
    {
        Self::from_probe(fb, font, native_bytes(1))
    }

    /// The backend `new` makes, given the bytes of the `u32` 1 in the
    /// machine's byte order: pixels are stored least significant byte first
    /// exactly when those bytes are 1, 0, 0, 0.
    pub fn from_probe(fb: Framebuffer, font: Option<BitmapFont>, native_one: [u8; 4]) -> (r: Option<Self>)
        requires
            backend_args_ok(&fb, &font),
        ensures
            r is Some <==> fb_accepted(&fb),
            r matches Some(b) ==> {
                &&& backend_made(&fb, &font, &b)
                &&& b.little_endian == (native_one@ == color_bytes(1, true))
            },
    {
        let font = match font {
            Some(font) => font,
            None => default_font(),
        };

        if !supports(&fb) {
            return None;
        }

        let little_endian = native_one[0] == 1 && native_one[1] == 0 && native_one[2] == 0 && native_one[3] == 0;
        proof {
            assert((1u32 & 0xff) == 1u32 && ((1u32 >> 8u32) & 0xff) == 0u32 && ((1u32 >> 16u32) & 0xff) == 0u32
                && ((1u32 >> 24u32) & 0xff) == 0u32) by (bit_vector);
            assert(color_bytes(1, true) =~= seq![1u8, 0u8, 0u8, 0u8]);
            assert(little_endian == (native_one@ =~= color_bytes(1, true)));
        }

        let glyph_advance = font.width * (fb.bpp / 8);
        let glyph_pitch = font.height * fb.pitch;
        let palette = [
            (0, 0, 0),
            (128, 0, 0),
            (0, 128, 0),
            (128, 128, 0),
            (0, 0, 128),
            (128, 0, 128),
            (0, 128, 128),
            (192, 192, 192),
            (128, 128, 128),
            (255, 0, 0),
            (0, 255, 0),
            (255, 255, 0),
            (0, 0, 255),
            (255, 0, 255),
            (0, 255, 255),
            (255, 255, 255),
        ];
        assert(palette@ =~= default_palette());
        Some(
            Self {
                fb,
                font,
                cursor: Cursor::new(),
                fg: Color::Palette(Palette::White),
                bg: Color::Palette(Palette::Black),
                palette,
                glyph_advance,
                glyph_pitch,
                little_endian,
            },
        )
    }

    fn size(&self) -> (r: (usize, usize))
        requires
            self@.wf(),
        ensures
            r == (self.fb.width / self.font.width, self.fb.height / self.font.height),
    {
        (self.fb.width / self.font.width, self.fb.height / self.font.height)
    }
}

/// `min(size, 8)`.
fn min_size(size: u16) -> (r: u16)
    ensures
        r == kept_bits(size),
{
    if size < 8 {
        size
    } else {
        8
    }
}

impl CellBackend for Backend {
    open spec fn fits(v: BackendView, width: usize, height: usize) -> bool {
        &&& v.wf()
        &&& width * v.font.width <= v.width
        &&& height * v.font.height <= v.height
    }

    open spec fn index_of(v: BackendView, grid: CellGrid) -> usize {
        v.cell_start(grid) as usize
    }

    open spec fn write_cell_outcome(v: BackendView, grid: CellGrid, index: usize, ch: u8) -> (BackendView, Result<(), Error>) {
        (v.with_pixels(v.glyph_pixels(index as int, ch)), Ok(()))
    }

    open spec fn scroll_outcome(v: BackendView, grid: CellGrid) -> (BackendView, Result<(), Error>) {
        (v.with_pixels(v.scrolled_pixels()), Ok(()))
    }

    open spec fn can_draw(v: BackendView, ch: u8) -> bool {
        v.font.has_glyph(ch)
    }

    proof fn lemma_index_ignores_wrap(v: BackendView, grid: CellGrid) {
    }

    fn get_index(&self, grid: &CellGrid) -> (r: usize) {
        proof {
            lemma_cell_inside(self@, *grid);
            assert(self.fb.buffer.len() == self.fb.buffer@.len());
        }
        grid.y * self.glyph_pitch + grid.x * self.glyph_advance
    }

    fn write_cell(&mut self, grid: &CellGrid, index: usize, ch: u8) -> (r: Result<(), Error>) {
        proof {
            lemma_cell_inside(self@, *grid);
        }
        let fg = self.color_bytes(self.fg);
        let bg = self.color_bytes(self.bg);
        let bytes_per_pixel = self.fb.bpp / 8;
        let row_bytes = self.font.width * bytes_per_pixel;
        paint(
            &mut self.fb.buffer,
            index,
            self.font.height,
            row_bytes,
            self.fb.pitch,
            bytes_per_pixel,
            &Fill::Glyph { ch, fg, bg },
            &self.font,
        );
        Ok(())
    }

    fn scroll(&mut self, grid: &CellGrid) -> (r: Result<(), Error>) {
        proof {
            assert(self.font.height <= self.fb.height) by (nonlinear_arith)
                requires
                    grid.height * self.font.height <= self.fb.height,
                    grid.height >= 1,
                    self.font.height >= 0,
            ;
        }
        self.scroll_rows()
    }
}

impl CursorContext for Backend {
    open spec fn blink_allowed(v: BackendView, grid: CellGrid) -> bool {
        &&& v.wf()
        &&& v.cursor.enabled ==> Backend::fits(v, grid.width, grid.height) && grid.x < grid.width && grid.y < grid.height
    }

    open spec fn blinked(v: BackendView, grid: CellGrid) -> BackendView {
        if !v.cursor.enabled {
            v
        } else {
            let visible = !v.cursor.visible;
            let color = if visible {
                v.fg
            } else {
                v.bg
            };
            BackendView {
                pixels: v.cursor_pixels(v.cell_start(grid), color),
                cursor: Cursor { visible, ..v.cursor },
                ..v
            }
        }
    }

    fn blink(&mut self, grid: &CellGrid) {
        if !self.cursor.enabled {
            return;
        }
        let visible = !self.cursor.visible;
        let color = if visible {
            self.fg
        } else {
            self.bg
        };
        let color = self.color_bytes(color);
        let bytes_per_pixel = self.fb.bpp / 8;

        let ghost before = self@;
        let pixel = self.get_index(grid);
        proof {
            lemma_cell_inside(self@, *grid);
            assert(self.fb.buffer.len() == self.fb.buffer@.len());
            assert(pixel as int == before.cell_start(*grid));
            assert(bytes_per_pixel <= self.font.width * bytes_per_pixel) by (nonlinear_arith)
                requires
                    self.font.width >= 1,
                    bytes_per_pixel >= 0,
            ;
        }
        paint(
            &mut self.fb.buffer,
            pixel,
            self.font.height,
            bytes_per_pixel,
            self.fb.pitch,
            bytes_per_pixel,
            &Fill::Solid { color },
            &self.font,
        );
        assert(self.fb.buffer@ == before.cursor_pixels(before.cell_start(*grid), if visible { before.fg } else { before.bg }));
        self.cursor.visible = visible;
    }
}

/// Writes through a backend stay within what the backend fits: the grid
/// keeps its size with the cursor on a cell, the backend keeps its
/// geometry, font, cursor and colors, and no step fails.
pub proof fn lemma_fb_run(v: BackendView, g: CellGrid, s: Seq<u8>)
    requires
        Backend::fits(v, g.width, g.height),
        g.wf(),
        !g.is_empty(),
    ensures
        ({
            let run = write_run::<Backend>(v, g, s);
            &&& Backend::fits(run.0, g.width, g.height)
            &&& run.0 == v.with_pixels(run.0.pixels)
            &&& run.1.wf()
            &&& run.1.width == g.width
            &&& run.1.height == g.height
            &&& run.2 is Ok
        }),
    decreases s.len(),
{
    if s.len() > 0 {
        lemma_fb_run(v, g, s.drop_last());
    }
}

/// A console of the given cell size fits the backend, and its cell count
/// fits in a `usize`.
proof fn lemma_grid_fits(v: BackendView, w: usize, h: usize)
    requires
        v.wf(),
        v.pixels.len() <= usize::MAX,
        w == v.width / v.font.width,
        h == v.height / v.font.height,
    ensures
        Backend::fits(v, w, h),
        w * h <= usize::MAX,
{
    let fw = v.font.width as int;
    let fh = v.font.height as int;
    let vw = v.width as int;
    let vh = v.height as int;
    lemma_fundamental_div_mod(vw, fw);
    lemma_fundamental_div_mod(vh, fh);
    assert(w * fw <= vw) by (nonlinear_arith)
        requires
            vw == fw * (vw / fw) + vw % fw,
            0 <= vw % fw,
            w == vw / fw,
    ;
    assert(h * fh <= vh) by (nonlinear_arith)
        requires
            vh == fh * (vh / fh) + vh % fh,
            0 <= vh % fh,
            h == vh / fh,
    ;
    assert(w <= v.width && h <= v.height) by (nonlinear_arith)
        requires
            w * fw <= v.width,
            h * fh <= v.height,
            fw >= 1,
            fh >= 1,
            w >= 0,
            h >= 0,
    ;
    assert(v.width <= v.pitch) by (nonlinear_arith)
        requires
            v.width * v.bpb() <= v.pitch,
            v.bpb() >= 1,
    ;
    assert(w * h <= v.pitch * v.height) by (nonlinear_arith)
        requires
            w <= v.width,
            h <= v.height,
            v.width <= v.pitch,
            w >= 0,
            h >= 0,
    ;
}

/// Writing bytes at the cursor, as `with_cursor_hidden` runs it.
pub struct WriteOp<'a> {
    pub s: &'a [u8],
}

impl<'a> CellOp<Backend> for WriteOp<'a> {
    type Output = Result<usize, Error>;

    open spec fn allowed(&self, ctx: BackendView, grid: CellGrid) -> bool {
        &&& grid.wf()
        &&& !grid.is_empty() ==> Backend::fits(ctx, grid.width, grid.height)
        &&& forall|i: int| 0 <= i < self.s@.len() && is_printable(#[trigger] self.s@[i]) ==> ctx.font.has_glyph(self.s@[i])
    }

    open spec fn outcome(&self, ctx: BackendView, grid: CellGrid) -> (BackendView, CellGrid, Result<usize, Error>) {
        if grid.is_empty() {
            (ctx, grid, Ok(self.s@.len() as usize))
        } else {
            let run = write_run::<Backend>(ctx, grid, self.s@);
            (run.0, run.1, write_result(run.2, self.s@.len() as usize))
        }
    }

    fn run(self, ctx: &mut Backend, grid: &mut CellGrid) -> (r: Result<usize, Error>) {
        let mut cell_writer = CellWriter::new();
        cell_writer.write(ctx, grid, self.s)
    }
}

/// Moving the cursor, as `with_cursor_hidden` runs it.
pub struct PositionOp {
    pub x: usize,
    pub y: usize,
}

impl CellOp<Backend> for PositionOp {
    type Output = Result<(), Error>;

    open spec fn allowed(&self, ctx: BackendView, grid: CellGrid) -> bool {
        true
    }

    open spec fn outcome(&self, ctx: BackendView, grid: CellGrid) -> (BackendView, CellGrid, Result<(), Error>) {
        (ctx, CellGrid { x: self.x, y: self.y, ..grid }, Ok(()))
    }

    fn run(self, ctx: &mut Backend, grid: &mut CellGrid) -> (r: Result<(), Error>) {
        grid.x = self.x;
        grid.y = self.y;
        Ok(())
    }
}

/// Scrolling the pixels up one text row, as `with_cursor_hidden` runs it.
pub struct ScrollOp;

impl CellOp<Backend> for ScrollOp {
    type Output = Result<(), Error>;

    open spec fn allowed(&self, ctx: BackendView, grid: CellGrid) -> bool {
        &&& ctx.wf()
        &&& ctx.font.height <= ctx.height
    }

    open spec fn outcome(&self, ctx: BackendView, grid: CellGrid) -> (BackendView, CellGrid, Result<(), Error>) {
        (ctx.with_pixels(ctx.scrolled_pixels()), grid, Ok(()))
    }

    fn run(self, ctx: &mut Backend, grid: &mut CellGrid) -> (r: Result<(), Error>) {
        ctx.scroll_rows()
    }
}

/// A framebuffer console designed for use with a memory-mapped framebuffer.
/// Write-combining memory is implicitly assumed and handled by Console::flush.
pub struct FbConsole {
    pub cell_grid: CellGrid,
    pub backend: Backend,
}

impl FbConsole {
    /// The backend is consistent, the grid has as many cells as glyphs fit
    /// in the framebuffer with the cursor on one of them, and a visible
    /// cursor is enabled and stands on a cell.
    pub open spec fn wf(&self) -> bool {
        &&& self.backend@.wf()
        &&& self.cell_grid.width == self.backend.fb.width / self.backend.font.width
        &&& self.cell_grid.height == self.backend.fb.height / self.backend.font.height
        &&& self.cell_grid.wf()
        &&& self.backend.cursor.visible ==> self.backend.cursor.enabled && !self.cell_grid.is_empty()
    }

    /// A console on `fb` with `font`, or with the default font when none is
    /// given; `None` when the framebuffer's format is not supported (see
    /// `fb_accepted`). The grid has as many cells as whole glyphs fit.
    pub fn new(fb: Framebuffer, font: Option<BitmapFont>) -> (r: Option<Self>)
        requires
            backend_args_ok(&fb, &font),
        ensures
            r is Some <==> fb_accepted(&fb),
            r matches Some(c) ==> console_made(&fb, &font, &c),
    {
        let backend = match Backend::new(fb, font) {
            Some(backend) => backend,
            None => return None,
        };
        Some(Self::on_backend(backend))
    }

    /// The console `new` makes, given the bytes of the `u32` 1 in the
    /// machine's byte order: pixels are stored least significant byte first
    /// exactly when those bytes are 1, 0, 0, 0.
    pub fn from_probe(fb: Framebuffer, font: Option<BitmapFont>, native_one: [u8; 4]) -> (r: Option<Self>)
        requires
            backend_args_ok(&fb, &font),
        ensures
            r is Some <==> fb_accepted(&fb),
            r matches Some(c) ==> {
                &&& console_made(&fb, &font, &c)
                &&& c.backend.little_endian == (native_one@ == color_bytes(1, true))
            },
    {
        let backend = match Backend::from_probe(fb, font, native_one) {
            Some(backend) => backend,
            None => return None,
        };
        Some(Self::on_backend(backend))
    }

    /// A console with a grid of as many cells as whole glyphs fit.
    fn on_backend(backend: Backend) -> (r: Self)
        requires
            backend@.wf(),
            !backend.cursor.visible,
        ensures
            r.wf(),
            r.backend == backend,
            r.cell_grid == (CellGrid {
                width: (backend.fb.width / backend.font.width) as usize,
                height: (backend.fb.height / backend.font.height) as usize,
                x: 0,
                y: 0,
                deferred_wrap: false,
            }),
    {
        let size = backend.size();
        proof {
            assert(backend.fb.buffer.len() == backend.fb.buffer@.len());
            lemma_grid_fits(backend@, size.0, size.1);
        }
        Self { cell_grid: CellGrid::new(size.0, size.1), backend }
    }
}

impl FbConsole {
    /// Whether the font has a glyph for every byte of `s` that a write
    /// draws (all but backspace, newline and carriage return).
    pub fn has_glyphs_for(&self, s: &[u8]) -> (r: bool)
        requires
            self.wf(),
        ensures
            r == self.can_write(s@),
    {
        let font = &self.backend.font;
        let len = font.data.len() as u128;
        let mut i: usize = 0;
        while i < s.len()
            invariant
                i <= s@.len(),
                font == &self.backend.font,
                font.wf(),
                len == font.data@.len(),
                len <= usize::MAX,
                forall|j: int| 0 <= j < i && is_printable(#[trigger] s@[j]) ==> font.has_glyph(s@[j]),
            decreases s@.len() - i,
        {
            let ch = s[i];
            if ch != 8 && ch != 10 && ch != 13 {
                if font.width > usize::MAX - 7 {
                    return false;
                }
                let row_bytes = ((font.width + 7) / 8) as u128;
                let height = font.height as u128;
                proof {
                    assert(row_bytes * height <= 0xffff_ffff_ffff_ffff_ffff_ffff_ffff_ffffu128) by (nonlinear_arith)
                        requires
                            row_bytes <= 0xffff_ffff_ffff_ffffu128,
                            height <= 0xffff_ffff_ffff_ffffu128,
                    ;
                }
                let glyph_bytes = row_bytes * height;
                assert(glyph_bytes == bytes_per_glyph(font.width as int, font.height as int));
                if glyph_bytes > len {
                    proof {
                        assert(glyph_bytes <= (ch + 1) * glyph_bytes) by (nonlinear_arith)
                            requires
                                0 <= glyph_bytes,
                                0 <= ch,
                        ;
                    }
                    return false;
                }
                proof {
                    assert((ch as u128 + 1) * glyph_bytes <= 256 * 0xffff_ffff_ffff_ffffu128) by (nonlinear_arith)
                        requires
                            ch < 256,
                            glyph_bytes <= len,
                            len <= 0xffff_ffff_ffff_ffffu128,
                    ;
                }
                let end = (ch as u128 + 1) * glyph_bytes;
                if end > len {
                    return false;
                }
            }
            i += 1;
        }
        true
    }
}

impl Console for FbConsole {
    open spec fn wf(&self) -> bool {
        FbConsole::wf(self)
    }

    /// The font has a glyph for every byte of `s` that is drawn.
    open spec fn can_write(&self, s: Seq<u8>) -> bool {
        forall|i: int| 0 <= i < s.len() && is_printable(#[trigger] s[i]) ==> self.backend.font.has_glyph(s[i])
    }

    /// Paints every pixel row in the background color. The cursor's state
    /// is left as it was.
    fn clear(&mut self) -> (r: Result<(), Error>)
        ensures
            r is Ok,
            final(self).backend@ == old(self).backend@.with_pixels(old(self).backend@.cleared_pixels()),
            final(self).cell_grid == old(self).cell_grid,
    {
        self.backend.clear()
    }

    /// The console's buffer is ordinary memory: nothing to synchronize.
    /// Fencing write-combining video memory is up to whoever maps it.
    fn flush(&mut self) -> (r: Result<(), Error>)
        ensures
            r is Ok,
            *final(self) == *old(self),
    {
        Ok(())
    }

    /// Writes `s` with the cursor hidden meanwhile; never fails, and
    /// consumes all of `s`.
    fn write(&mut self, s: &[u8]) -> (r: Result<usize, Error>)
        ensures
            r == Ok::<usize, Error>(s@.len() as usize),
            final(self).backend.cursor == old(self).backend.cursor,
            final(self).backend.fg == old(self).backend.fg,
            final(self).backend.bg == old(self).backend.bg,
            (final(self).backend@, final(self).cell_grid, r) == hidden_outcome::<Backend, WriteOp>(
                old(self).backend@,
                old(self).cell_grid,
                old(self).backend.cursor.visible,
                WriteOp { s },
            ),
    {
        let cursor = self.backend.cursor;
        let ghost v0 = self.backend@;
        let ghost g0 = self.cell_grid;
        proof {
            assert(self.backend.fb.buffer.len() == self.backend.fb.buffer@.len());
            lemma_grid_fits(v0, g0.width, g0.height);
            let v1 = toggled_if::<Backend>(v0, g0, cursor.visible);
            if !g0.is_empty() {
                assert(Backend::fits(v1, g0.width, g0.height));
                lemma_fb_run(v1, g0, s@);
            }
        }
        with_cursor_hidden(&mut self.backend, &mut self.cell_grid, cursor, WriteOp { s })
    }
}

impl CellConsole for FbConsole {
    open spec fn grid(&self) -> CellGrid {
        self.cell_grid
    }

    open spec fn can_scroll(&self) -> bool {
        self.backend.font.height <= self.backend.fb.height
    }

    fn cell_grid(&self) -> (r: &CellGrid) {
        &self.cell_grid
    }

    /// Moves the cursor with the cursor hidden meanwhile.
    fn position(&mut self, x: usize, y: usize) -> (r: Result<(), Error>)
        ensures
            final(self).backend.cursor == old(self).backend.cursor,
            r is Ok ==> (final(self).backend@, final(self).cell_grid, r) == hidden_outcome::<Backend, PositionOp>(
                old(self).backend@,
                old(self).cell_grid,
                old(self).backend.cursor.visible,
                PositionOp { x, y },
            ),
    {
        if x >= self.cell_grid.width || y >= self.cell_grid.height {
            return Err(Error::Invalid);
        }
        let cursor = self.backend.cursor;
        proof {
            assert(self.backend.fb.buffer.len() == self.backend.fb.buffer@.len());
            lemma_grid_fits(self.backend@, self.cell_grid.width, self.cell_grid.height);
        }
        with_cursor_hidden(&mut self.backend, &mut self.cell_grid, cursor, PositionOp { x, y })
    }

    /// Scrolls the pixels up one text row with the cursor hidden meanwhile.
    fn scroll(&mut self) -> (r: Result<(), Error>)
        ensures
            r is Ok,
            final(self).backend.cursor == old(self).backend.cursor,
            (final(self).backend@, final(self).cell_grid, r) == hidden_outcome::<Backend, ScrollOp>(
                old(self).backend@,
                old(self).cell_grid,
                old(self).backend.cursor.visible,
                ScrollOp,
            ),
    {
        let cursor = self.backend.cursor;
        proof {
            assert(self.backend.fb.buffer.len() == self.backend.fb.buffer@.len());
            lemma_grid_fits(self.backend@, self.cell_grid.width, self.cell_grid.height);
        }
        with_cursor_hidden(&mut self.backend, &mut self.cell_grid, cursor, ScrollOp)
    }
}

impl CursorConsole for FbConsole {
    open spec fn cursor_enabled(&self) -> bool {
        self.backend.cursor.enabled
    }

    /// Erases a visible cursor before disabling it.
    fn enable(&mut self, enable: bool) -> (r: Result<(), Error>)
        ensures
            r is Ok,
            final(self).cell_grid == old(self).cell_grid,
            !enable ==> !final(self).backend.cursor.visible,
            ({
                let v = if !enable && old(self).backend.cursor.visible {
                    Backend::blinked(old(self).backend@, old(self).cell_grid)
                } else {
                    old(self).backend@
                };
                final(self).backend@ == BackendView { cursor: Cursor { enabled: enable, ..v.cursor }, ..v }
            }),
    {
        if !enable && self.backend.cursor.visible {
            proof {
                assert(self.backend.fb.buffer.len() == self.backend.fb.buffer@.len());
                lemma_grid_fits(self.backend@, self.cell_grid.width, self.cell_grid.height);
            }
            self.backend.blink(&self.cell_grid);
        }
        self.backend.cursor.enabled = enable;
        Ok(())
    }
}

impl BlinkConsole for FbConsole {
    open spec fn cursor_visible(&self) -> bool {
        self.backend.cursor.visible
    }

    open spec fn can_blink(&self) -> bool {
        self.backend.cursor.enabled ==> !self.cell_grid.is_empty()
    }

    /// Draws the cursor in the foreground color when it was hidden, and
    /// erases it with the background color when it was visible.
    fn blink(&mut self)
        ensures
            final(self).backend@ == Backend::blinked(old(self).backend@, old(self).cell_grid),
            final(self).cell_grid == old(self).cell_grid,
    {
        proof {
            assert(self.backend.fb.buffer.len() == self.backend.fb.buffer@.len());
            lemma_grid_fits(self.backend@, self.cell_grid.width, self.cell_grid.height);
        }
        self.backend.blink(&self.cell_grid)
    }

    fn visible(&self) -> (r: bool) {
        self.backend.cursor.visible
    }
}

impl ColorConsole for FbConsole {
    open spec fn foreground(&self) -> Color {
        self.backend.fg
    }

    open spec fn background(&self) -> Color {
        self.backend.bg
    }

    fn fg(&self) -> (r: Color) {
        self.backend.fg
    }

    fn bg(&self) -> (r: Color) {
        self.backend.bg
    }

    /// Any color is accepted.
    fn set_fg(&mut self, fg: Color) -> (r: Result<(), Error>)
        ensures
            r is Ok,
            final(self).backend@ == (BackendView { fg, ..old(self).backend@ }),
            final(self).cell_grid == old(self).cell_grid,
    {
        self.backend.fg = fg;
        Ok(())
    }

    /// Any color is accepted.
    fn set_bg(&mut self, bg: Color) -> (r: Result<(), Error>)
        ensures
            r is Ok,
            final(self).backend@ == (BackendView { bg, ..old(self).backend@ }),
            final(self).cell_grid == old(self).cell_grid,
    {
        self.backend.bg = bg;
        Ok(())
    }
}

} // verus!
