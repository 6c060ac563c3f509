use vstd::prelude::*;

verus! {

/// A monospace bitmap font: glyphs for the byte values from 0 up, as many
/// as its data holds.
///
/// Each glyph is `height` rows; each row is `(width + 7) / 8` bytes, the
/// most significant bit of its first byte being the leftmost pixel. The
/// glyph of byte `ch` starts at `ch` times the glyph size.
#[derive(Debug)]
pub struct BitmapFont {
    pub width: usize,
    pub height: usize,
    pub data: Vec<u8>,
}

/// Bytes in one row of a glyph of width `width`.
pub open spec fn bytes_per_row(width: int) -> int {
    (width + 7) / 8
}

/// Bytes in one glyph.
pub open spec fn bytes_per_glyph(width: int, height: int) -> int {
    bytes_per_row(width) * height
}

/// Pixel (`gx`, `gy`) of the glyph of `ch` is set in this font data:
/// bit `7 - gx % 8` of the byte that holds it is one.
pub open spec fn glyph_pixel(data: Seq<u8>, width: int, height: int, ch: u8, gx: int, gy: int) -> bool {
    let byte = data[ch * bytes_per_glyph(width, height) + gy * bytes_per_row(width) + gx / 8];
    (byte >> ((7 - gx % 8) as u8)) & 1u8 == 1u8
}

/// Column `8 * j + k` of row `gy` of a glyph is the pixel of byte `j` of
/// that row selected by mask `0x80 >> k`: each byte covers eight pixels,
/// its most significant bit leftmost, and the row's bytes follow each other
/// left to right.
pub proof fn lemma_glyph_pixel_bits(data: Seq<u8>, width: int, height: int, ch: u8, j: int, k: int, gy: int)
    requires
        0 <= j,
        0 <= k < 8,
    ensures
        glyph_pixel(data, width, height, ch, 8 * j + k, gy) == (data[ch * bytes_per_glyph(width, height) + gy
            * bytes_per_row(width) + j] & (0x80u8 >> (k as u8)) != 0u8),
{
    let gx = 8 * j + k;
    assert(gx / 8 == j && gx % 8 == k);
    let byte = data[ch * bytes_per_glyph(width, height) + gy * bytes_per_row(width) + j];
    let kk = k as u8;
    let sh = (7 - gx % 8) as u8;
    assert(sh + kk == 7);
    assert(((byte >> sh) & 1u8 == 1u8) == (byte & (0x80u8 >> kk) != 0u8)) by (bit_vector)
        requires
            kk < 8,
            sh + kk == 7,
    ;
}

impl BitmapFont {
    /// The glyphs have a size.
    pub open spec fn wf(&self) -> bool {
        &&& self.width > 0
        &&& self.height > 0
    }

    /// The glyph of byte `ch` can be read: the row size is computable and
    /// the data holds the glyph.
    pub open spec fn has_glyph(&self, ch: u8) -> bool {
        &&& self.width + 7 <= usize::MAX
        &&& (ch + 1) * bytes_per_glyph(self.width as int, self.height as int) <= self.data@.len()
    }
}

/// The font used when none is given: glyphs 8 pixels wide and 16 high,
/// every one of them blank.
pub fn default_font() -> (r: BitmapFont)
    ensures
        r.width == 8,
        r.height == 16,
        r.data@ == Seq::new(4096, |i: int| 0u8),
        r.wf(),
        forall|ch: u8| #[trigger] r.has_glyph(ch),
{
    let mut data: Vec<u8> = Vec::new();
    let mut i: usize = 0;
    while i < 4096
        invariant
            i <= 4096,
            data@ == Seq::new(i as nat, |j: int| 0u8),
        decreases 4096 - i,
    {
        data.push(0);
        i += 1;
    }
    let font = BitmapFont { width: 8, height: 16, data };
    assert forall|ch: u8| #[trigger] font.has_glyph(ch) by {
        assert((ch + 1) * 16 <= 4096);
    }
    font
}

} // verus!
