//! Painting rectangular blocks of bytes in a pixel buffer whose rows lie
//! a fixed pitch apart.

use vstd::prelude::*;

use vstd::arithmetic::div_mod::{lemma_fundamental_div_mod, lemma_fundamental_div_mod_converse};
use vstd::arithmetic::mul::{lemma_mul_inequality, lemma_mul_is_commutative};

use crate::font::{bytes_per_glyph, bytes_per_row, glyph_pixel, BitmapFont};

verus! {

/// Byte `o` lies in the block at `base` of `rows` rows, each `row_bytes`
/// long and `pitch` bytes after the previous one.
pub open spec fn in_block(o: int, base: int, rows: int, row_bytes: int, pitch: int) -> bool {
    &&& pitch > 0
    &&& base <= o
    &&& (o - base) / pitch < rows
    &&& (o - base) % pitch < row_bytes
}

/// The bytes after painting that block, byte (`r`, `c`) of it (row `r`,
/// byte `c` of the row) taking the value `f(r, c)`.
pub open spec fn painted(
    data: Seq<u8>,
    base: int,
    rows: int,
    row_bytes: int,
    pitch: int,
    f: spec_fn(int, int) -> u8,
) -> Seq<u8> {
    Seq::new(
        data.len(),
        |o: int|
            if in_block(o, base, rows, row_bytes, pitch) {
                f((o - base) / pitch, (o - base) % pitch)
            } else {
                data[o]
            },
    )
}

/// Byte `o` lies in row `r` of the block at `base`, before byte `c` of that row.
pub open spec fn in_row_prefix(o: int, base: int, r: int, c: int, pitch: int) -> bool {
    &&& pitch > 0
    &&& base <= o
    &&& (o - base) / pitch == r
    &&& (o - base) % pitch < c
}

/// A pixel pattern: one color everywhere, or a glyph of a font in a
/// foreground and a background color. Colors are given as the bytes of one
/// pixel.
pub enum Pattern {
    Solid(Seq<u8>),
    Glyph(u8, Seq<u8>, Seq<u8>),
}

/// A `Pattern` with its colors held in arrays.
pub enum Fill {
    Solid { color: [u8; 4] },
    Glyph { ch: u8, fg: [u8; 4], bg: [u8; 4] },
}

impl View for Fill {
    type V = Pattern;

    open spec fn view(&self) -> Pattern {
        match *self {
            Fill::Solid { color } => Pattern::Solid(color@),
            Fill::Glyph { ch, fg, bg } => Pattern::Glyph(ch, fg@, bg@),
        }
    }
}

/// Byte `c` of row `r` of a block filled with `pattern`, for pixels of
/// `bpb` bytes, glyphs being taken from `font`.
pub open spec fn fill_byte(pattern: Pattern, font: BitmapFont, bpb: int, r: int, c: int) -> u8 {
    match pattern {
        Pattern::Solid(color) => color[c % bpb],
        Pattern::Glyph(ch, fg, bg) => if glyph_pixel(font.data@, font.width as int, font.height as int, ch, c / bpb, r) {
            fg[c % bpb]
        } else {
            bg[c % bpb]
        },
    }
}

/// The byte pattern of `pattern` as a function of row and byte.
pub open spec fn fill_fn(pattern: Pattern, font: BitmapFont, bpb: int) -> spec_fn(int, int) -> u8 {
    |r: int, c: int| fill_byte(pattern, font, bpb, r, c)
}

/// Byte `o` is byte `c` of row `r` of the block at `base` exactly when it
/// sits `r` pitches and `c` bytes after `base`.
pub proof fn lemma_locate(o: int, base: int, pitch: int, r: int, c: int)
    requires
        pitch > 0,
        0 <= c < pitch,
        r >= 0,
    ensures
        (base <= o && (o - base) / pitch == r && (o - base) % pitch == c) <==> o == base + r * pitch + c,
{
    lemma_mul_is_commutative(r, pitch);
    if o == base + r * pitch + c {
        lemma_fundamental_div_mod_converse(o - base, pitch, r, c);
    }
    if base <= o && (o - base) / pitch == r && (o - base) % pitch == c {
        lemma_fundamental_div_mod(o - base, pitch);
    }
}

/// A row of the block that is not its last row ends at or before the
/// start of the block's last row.
proof fn lemma_row_fits(base: int, r: int, rows: int, row_bytes: int, pitch: int)
    requires
        0 <= r < rows,
        0 <= pitch,
    ensures
        base + r * pitch + row_bytes <= base + (rows - 1) * pitch + row_bytes,
{
    lemma_mul_inequality(r, rows - 1, pitch);
}

/// The byte of the glyph of `ch` that holds pixel `gx` of row `r` lies
/// inside the font data.
proof fn lemma_glyph_byte_inside(font: BitmapFont, ch: u8, r: int, gx: int)
    requires
        font.wf(),
        font.has_glyph(ch),
        0 <= r < font.height,
        0 <= gx < font.width,
    ensures
        0 <= ch * bytes_per_glyph(font.width as int, font.height as int) + r * bytes_per_row(font.width as int) + gx / 8,
        ch * bytes_per_glyph(font.width as int, font.height as int) + r * bytes_per_row(font.width as int) + gx / 8
            < font.data@.len(),
        bytes_per_glyph(font.width as int, font.height as int) <= font.data@.len(),
        ch * bytes_per_glyph(font.width as int, font.height as int) <= font.data@.len(),
        0 <= r * bytes_per_row(font.width as int) <= bytes_per_glyph(font.width as int, font.height as int),
{
    let bpr = bytes_per_row(font.width as int);
    let bpg = bytes_per_glyph(font.width as int, font.height as int);
    let h = font.height as int;
    assert(0 <= gx / 8 < bpr);
    assert(r * bpr + gx / 8 < bpg) by (nonlinear_arith)
        requires
            0 <= r < h,
            0 <= gx / 8 < bpr,
            bpg == bpr * h,
    ;
    assert(0 <= r * bpr) by (nonlinear_arith)
        requires
            0 <= r,
            0 <= bpr,
    ;
    assert(bpg <= (ch + 1) * bpg && ch * bpg + bpg == (ch + 1) * bpg) by (nonlinear_arith)
        requires
            0 <= ch,
            0 <= bpg,
    ;
    assert(0 <= ch * bpg) by (nonlinear_arith)
        requires
            0 <= ch,
            0 <= bpg,
    ;
}

/// Byte `c` of row `r` of `fill`, as `fill_byte` says.
fn fill_value(fill: &Fill, font: &BitmapFont, bpb: usize, r: usize, c: usize) -> (v: u8)
    requires
        1 <= bpb <= 4,
        fill is Glyph ==> font.wf() && font.has_glyph(fill->ch) && r < font.height && (c as int) / (bpb as int) < font.width,
    ensures
        v == fill_byte(fill@, *font, bpb as int, r as int, c as int),
{
    match fill {
        Fill::Solid { color } => color[c % bpb],
        Fill::Glyph { ch, fg, bg } => {
            let gx = c / bpb;
            proof {
                lemma_glyph_byte_inside(*font, *ch, r as int, gx as int);
                assert(font.data.len() == font.data@.len());
            }
            let bpr = (font.width + 7) / 8;
            let bpg = bpr * font.height;
            let at = (*ch as usize) * bpg + r * bpr + gx / 8;
            let byte = font.data[at];
            assert((gx & 7) < 8) by (bit_vector);
            let shift = (gx & 7) as u8;
            let is_set = (byte << shift) & 0x80 == 0x80;
            proof {
                let k = (7 - gx % 8) as u8;
                assert(shift == gx % 8) by (bit_vector)
                    requires
                        shift == (gx & 7) as u8,
                ;
                assert(is_set == ((byte >> k) & 1u8 == 1u8)) by (bit_vector)
                    requires
                        shift < 8,
                        k == 7 - shift,
                        is_set == ((byte << shift) & 0x80 == 0x80),
                ;
            }
            if is_set {
                fg[c % bpb]
            } else {
                bg[c % bpb]
            }
        },
    }
}

/// Paints the block at `base` of `rows` rows of `row_bytes` bytes, `pitch`
/// apart, with `fill`.
pub fn paint(
    buf: &mut Vec<u8>,
    base: usize,
    rows: usize,
    row_bytes: usize,
    pitch: usize,
    bpb: usize,
    fill: &Fill,
    font: &BitmapFont,
)
    requires
        1 <= bpb <= 4,
        row_bytes <= pitch,
        rows > 0 ==> base + (rows - 1) * pitch + row_bytes <= old(buf)@.len(),
        fill is Glyph ==> font.wf() && font.has_glyph(fill->ch) && rows <= font.height && row_bytes <= font.width * bpb,
    ensures
        final(buf)@ == painted(old(buf)@, base as int, rows as int, row_bytes as int, pitch as int, fill_fn(fill@, *font, bpb as int)),
{
    let ghost old_buf = buf@;
    let ghost f = fill_fn(fill@, *font, bpb as int);
    assert(buf.len() == buf@.len());
    let mut r: usize = 0;
    while r < rows
        invariant
            r <= rows,
            1 <= bpb <= 4,
            row_bytes <= pitch,
            rows > 0 ==> base + (rows - 1) * pitch + row_bytes <= old_buf.len(),
            fill is Glyph ==> font.wf() && font.has_glyph(fill->ch) && rows <= font.height && row_bytes <= font.width * bpb,
            old_buf == old(buf)@,
            old_buf.len() <= usize::MAX,
            f == fill_fn(fill@, *font, bpb as int),
            buf@.len() == old_buf.len(),
            forall|o: int|
                0 <= o < old_buf.len() ==> #[trigger] buf@[o] == (if in_block(o, base as int, r as int, row_bytes as int, pitch as int) {
                    f((o - base) / (pitch as int), (o - base) % (pitch as int))
                } else {
                    old_buf[o]
                }),
        decreases rows - r,
    {
        proof {
            lemma_row_fits(base as int, r as int, rows as int, row_bytes as int, pitch as int);
        }
        let row_start = base + r * pitch;
        let mut c: usize = 0;
        while c < row_bytes
            invariant
                r < rows,
                c <= row_bytes,
                1 <= bpb <= 4,
                row_bytes <= pitch,
                row_start == base + r * pitch,
                row_start + row_bytes <= old_buf.len(),
                old_buf.len() <= usize::MAX,
                fill is Glyph ==> font.wf() && font.has_glyph(fill->ch) && rows <= font.height && row_bytes <= font.width * bpb,
                f == fill_fn(fill@, *font, bpb as int),
                buf@.len() == old_buf.len(),
                forall|o: int|
                    0 <= o < old_buf.len() ==> #[trigger] buf@[o] == (if in_block(o, base as int, r as int, row_bytes as int, pitch as int)
                        || in_row_prefix(o, base as int, r as int, c as int, pitch as int) {
                        f((o - base) / (pitch as int), (o - base) % (pitch as int))
                    } else {
                        old_buf[o]
                    }),
            decreases row_bytes - c,
        {
            proof {
                if fill is Glyph {
                    assert((c as int) / (bpb as int) < font.width) by (nonlinear_arith)
                        requires
                            c < row_bytes,
                            row_bytes <= font.width * bpb,
                            1 <= bpb,
                    ;
                }
            }
            let v = fill_value(fill, font, bpb, r, c);
            let ghost prev = buf@;
            let p = row_start + c;
            buf.set(p, v);
            proof {
                assert forall|o: int| 0 <= o < old_buf.len() implies #[trigger] buf@[o] == (if in_block(
                    o,
                    base as int,
                    r as int,
                    row_bytes as int,
                    pitch as int,
                ) || in_row_prefix(o, base as int, r as int, c + 1, pitch as int) {
                    f((o - base) / (pitch as int), (o - base) % (pitch as int))
                } else {
                    old_buf[o]
                }) by {
                    lemma_locate(o, base as int, pitch as int, r as int, c as int);
                    assert(prev[o] == (if in_block(o, base as int, r as int, row_bytes as int, pitch as int)
                        || in_row_prefix(o, base as int, r as int, c as int, pitch as int) {
                        f((o - base) / (pitch as int), (o - base) % (pitch as int))
                    } else {
                        old_buf[o]
                    }));
                }
            }
            c += 1;
        }
        r += 1;
    }
    assert(buf@ =~= painted(old_buf, base as int, rows as int, row_bytes as int, pitch as int, f));
}

/// Moves the first `rows` rows of `row_bytes` bytes up: row `r` takes the
/// bytes of row `r + shift`.
pub fn copy_rows_up(buf: &mut Vec<u8>, rows: usize, shift: usize, row_bytes: usize, pitch: usize)
    requires
        row_bytes <= pitch,
        rows + shift <= usize::MAX,
        rows > 0 ==> (rows + shift - 1) * pitch + row_bytes <= old(buf)@.len(),
    ensures
        final(buf)@ == painted(
            old(buf)@,
            0,
            rows as int,
            row_bytes as int,
            pitch as int,
            |r: int, c: int| old(buf)@[(r + shift) * pitch + c],
        ),
{
    let ghost old_buf = buf@;
    let ghost f = |r: int, c: int| old_buf[(r + shift) * pitch + c];
    assert(buf.len() == buf@.len());
    let mut r: usize = 0;
    while r < rows
        invariant
            r <= rows,
            row_bytes <= pitch,
            rows + shift <= usize::MAX,
            rows > 0 ==> (rows + shift - 1) * pitch + row_bytes <= old_buf.len(),
            old_buf == old(buf)@,
            old_buf.len() <= usize::MAX,
            f == (|r: int, c: int| old_buf[(r + shift) * pitch + c]),
            buf@.len() == old_buf.len(),
            forall|o: int|
                0 <= o < old_buf.len() ==> #[trigger] buf@[o] == (if in_block(o, 0, r as int, row_bytes as int, pitch as int) {
                    f(o / (pitch as int), o % (pitch as int))
                } else {
                    old_buf[o]
                }),
        decreases rows - r,
    {
        proof {
            lemma_row_fits(0, (r + shift) as int, (rows + shift) as int, row_bytes as int, pitch as int);
            lemma_mul_inequality(r as int, (r + shift) as int, pitch as int);
        }
        let dst_start = r * pitch;
        let src_start = (r + shift) * pitch;
        let mut c: usize = 0;
        while c < row_bytes
            invariant
                r < rows,
                c <= row_bytes,
                row_bytes <= pitch,
                dst_start == r * pitch,
                src_start == (r + shift) * pitch,
                dst_start <= src_start,
                src_start + row_bytes <= old_buf.len(),
                old_buf.len() <= usize::MAX,
                f == (|r: int, c: int| old_buf[(r + shift) * pitch + c]),
                buf@.len() == old_buf.len(),
                forall|o: int|
                    0 <= o < old_buf.len() ==> #[trigger] buf@[o] == (if in_block(o, 0, r as int, row_bytes as int, pitch as int)
                        || in_row_prefix(o, 0, r as int, c as int, pitch as int) {
                        f(o / (pitch as int), o % (pitch as int))
                    } else {
                        old_buf[o]
                    }),
            decreases row_bytes - c,
        {
            let ghost prev = buf@;
            let s = src_start + c;
            proof {
                lemma_locate(s as int, 0, pitch as int, (r + shift) as int, c as int);
                assert(prev[s as int] == old_buf[s as int]);
            }
            let v = buf[s];
            let p = dst_start + c;
            buf.set(p, v);
            proof {
                assert forall|o: int| 0 <= o < old_buf.len() implies #[trigger] buf@[o] == (if in_block(
                    o,
                    0,
                    r as int,
                    row_bytes as int,
                    pitch as int,
                ) || in_row_prefix(o, 0, r as int, c + 1, pitch as int) {
                    f(o / (pitch as int), o % (pitch as int))
                } else {
                    old_buf[o]
                }) by {
                    lemma_locate(o, 0, pitch as int, r as int, c as int);
                    assert(prev[o] == (if in_block(o, 0, r as int, row_bytes as int, pitch as int)
                        || in_row_prefix(o, 0, r as int, c as int, pitch as int) {
                        f(o / (pitch as int), o % (pitch as int))
                    } else {
                        old_buf[o]
                    }));
                }
            }
            c += 1;
        }
        r += 1;
    }
    assert(buf@ =~= painted(old_buf, 0, rows as int, row_bytes as int, pitch as int, f));
}

} // verus!
