use vstd::prelude::*;

verus! {

/// Where one color component sits in a pixel.
#[derive(Clone, Copy, Debug)]
pub struct Mask {
    /// Bit count of this component.
    pub size: u16,
    pub shift: u16,
}

impl Mask {
    pub fn new(size: u16, shift: u16) -> (r: Self)
        ensures
            r == (Mask { size, shift }),
    {
        Self { size, shift }
    }
}

/// A linear framebuffer: `height` rows of `width` pixels of `bpp` bits,
/// each row starting `pitch` bytes after the previous one, stored in
/// `buffer` from its first byte on.
#[derive(Debug)]
pub struct Framebuffer {
    pub buffer: Vec<u8>,
    pub width: usize,
    pub height: usize,
    pub pitch: usize,
    /// Bits per pixel.
    pub bpp: usize,
    pub red_mask: Mask,
    pub green_mask: Mask,
    pub blue_mask: Mask,
}

} // verus!
