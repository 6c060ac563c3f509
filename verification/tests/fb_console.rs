use simple_console::color::{Color, Palette};
use simple_console::fb::{Framebuffer, Mask};
use simple_console::font::{default_font, BitmapFont};
use simple_console::simple::fb::{supports, FbConsole};
use simple_console::simple::{BlinkConsole, CellConsole, ColorConsole, Console, CursorConsole, Error};

const PAD: u8 = 0xAA;

/// 16 × 4 pixels of 32 bits, rows 72 bytes apart (8 bytes of padding).
fn rgbx_fb() -> Framebuffer {
    Framebuffer {
        buffer: vec![PAD; 72 * 4],
        width: 16,
        height: 4,
        pitch: 72,
        bpp: 32,
        red_mask: Mask::new(8, 0),
        green_mask: Mask::new(8, 8),
        blue_mask: Mask::new(8, 16),
    }
}

/// An 8 × 2 font whose only non-blank glyph is 'A': rows 10000001 and 01000000.
fn tiny_font() -> BitmapFont {
    let mut data = vec![0u8; 256 * 2];
    data[65 * 2] = 0b1000_0001;
    data[65 * 2 + 1] = 0b0100_0000;
    BitmapFont { width: 8, height: 2, data }
}

fn pixel(console: &FbConsole, x: usize, y: usize) -> [u8; 4] {
    let at = y * 72 + x * 4;
    let b = &console.backend.fb.buffer;
    [b[at], b[at + 1], b[at + 2], b[at + 3]]
}

fn white() -> [u8; 4] {
    0x00FF_FFFFu32.to_ne_bytes()
}

fn black() -> [u8; 4] {
    0u32.to_ne_bytes()
}

#[test]
fn unsupported_formats_are_rejected() {
    let mut fb = rgbx_fb();
    fb.bpp = 12;
    assert!(FbConsole::new(fb, Some(tiny_font())).is_none());

    let mut fb = rgbx_fb();
    fb.blue_mask = Mask::new(8, 32);
    assert!(FbConsole::new(fb, Some(tiny_font())).is_none());

    let mut fb = rgbx_fb();
    fb.pitch = 63;
    assert!(FbConsole::new(fb, Some(tiny_font())).is_none());
}

#[test]
fn supported_formats() {
    assert!(supports(&rgbx_fb()));
    let mut fb = rgbx_fb();
    fb.bpp = 24;
    assert!(supports(&fb));
    fb.bpp = 0;
    assert!(!supports(&fb));
    let mut fb = rgbx_fb();
    fb.red_mask = Mask::new(8, 31);
    assert!(supports(&fb));
    fb.red_mask = Mask::new(8, 32);
    assert!(!supports(&fb));
}

#[test]
fn grid_holds_whole_glyphs() {
    let console = FbConsole::new(rgbx_fb(), Some(tiny_font())).unwrap();
    assert_eq!(console.cell_grid().width, 2);
    assert_eq!(console.cell_grid().height, 2);

    let fb = Framebuffer {
        buffer: vec![0u8; 20 * 4 * 20],
        width: 20,
        height: 20,
        pitch: 80,
        bpp: 32,
        red_mask: Mask::new(8, 0),
        green_mask: Mask::new(8, 8),
        blue_mask: Mask::new(8, 16),
    };
    let console = FbConsole::new(fb, None).unwrap();
    assert_eq!((console.cell_grid.width, console.cell_grid.height), (2, 1));
}

#[test]
fn default_font_is_8_by_16() {
    let font = default_font();
    assert_eq!((font.width, font.height, font.data.len()), (8, 16, 4096));
}

#[test]
fn clear_paints_background_and_keeps_padding() {
    let mut console = FbConsole::new(rgbx_fb(), Some(tiny_font())).unwrap();
    console.set_bg(Color::Rgb(1, 2, 3)).unwrap();
    assert_eq!(console.clear(), Ok(()));
    for y in 0..4 {
        for x in 0..16 {
            assert_eq!(pixel(&console, x, y), 0x0003_0201u32.to_ne_bytes());
        }
        for i in 64..72 {
            assert_eq!(console.backend.fb.buffer[y * 72 + i], PAD);
        }
    }
}

#[test]
fn write_draws_the_glyph_in_its_cell() {
    let mut console = FbConsole::new(rgbx_fb(), Some(tiny_font())).unwrap();
    assert_eq!(console.write(b"A"), Ok(1));
    assert_eq!(pixel(&console, 0, 0), white());
    for x in 1..7 {
        assert_eq!(pixel(&console, x, 0), black());
    }
    assert_eq!(pixel(&console, 7, 0), white());
    assert_eq!(pixel(&console, 0, 1), black());
    assert_eq!(pixel(&console, 1, 1), white());
    // The next cell is untouched.
    assert_eq!(pixel(&console, 8, 0), [PAD; 4]);
    assert_eq!((console.cell_grid.x, console.cell_grid.y), (1, 0));
}

#[test]
fn sixteen_bit_565_colors() {
    let fb = Framebuffer {
        buffer: vec![0u8; 32 * 2],
        width: 16,
        height: 2,
        pitch: 32,
        bpp: 16,
        red_mask: Mask::new(5, 11),
        green_mask: Mask::new(6, 5),
        blue_mask: Mask::new(5, 0),
    };
    let mut console = FbConsole::new(fb, Some(tiny_font())).unwrap();
    console.set_bg(Color::Palette(Palette::Red)).unwrap();
    console.clear().unwrap();
    // (128, 0, 0): 128 >> 3 = 16, shifted to bit 11.
    let red = 0x8000u32.to_ne_bytes();
    let expected: [u8; 2] = if red[0] == 0 { [0x00, 0x80] } else { [0x80, 0x00] };
    assert_eq!(&console.backend.fb.buffer[0..2], &expected[..]);
    console.set_bg(Color::Rgb(255, 255, 255)).unwrap();
    console.clear().unwrap();
    assert_eq!(&console.backend.fb.buffer[0..2], &[0xFF, 0xFF][..]);
}

#[test]
fn blink_toggles_the_cursor_column() {
    let mut console = FbConsole::new(rgbx_fb(), Some(tiny_font())).unwrap();
    assert!(!console.visible());
    console.blink();
    assert!(console.visible());
    assert_eq!(pixel(&console, 0, 0), white());
    assert_eq!(pixel(&console, 0, 1), white());
    assert_eq!(pixel(&console, 1, 0), [PAD; 4]);
    console.blink();
    assert!(!console.visible());
    assert_eq!(pixel(&console, 0, 0), black());
    assert_eq!(pixel(&console, 0, 1), black());
}

#[test]
fn write_redraws_a_visible_cursor_where_it_moved() {
    let mut console = FbConsole::new(rgbx_fb(), Some(tiny_font())).unwrap();
    console.blink();
    console.write(b" ").unwrap();
    assert!(console.visible());
    // The blank glyph covered the old cursor; the cursor is now in cell 1.
    assert_eq!(pixel(&console, 0, 0), black());
    assert_eq!(pixel(&console, 8, 0), white());
    assert_eq!(pixel(&console, 8, 1), white());
}

#[test]
fn disabling_erases_the_cursor() {
    let mut console = FbConsole::new(rgbx_fb(), Some(tiny_font())).unwrap();
    console.blink();
    assert_eq!(console.enable(false), Ok(()));
    assert!(!console.visible());
    assert_eq!(pixel(&console, 0, 0), black());
    // A disabled cursor does not blink.
    console.blink();
    assert!(!console.visible());
    assert_eq!(console.enable(true), Ok(()));
    assert!(!console.visible());
}

#[test]
fn scroll_moves_pixel_rows_up_one_glyph() {
    let mut console = FbConsole::new(rgbx_fb(), Some(tiny_font())).unwrap();
    console.clear().unwrap();
    console.position(0, 1).unwrap();
    console.write(b"A").unwrap();
    assert_eq!(console.scroll(), Ok(()));
    assert_eq!(pixel(&console, 0, 0), white());
    assert_eq!(pixel(&console, 1, 1), white());
    for x in 0..16 {
        assert_eq!(pixel(&console, x, 2), black());
        assert_eq!(pixel(&console, x, 3), black());
    }
    assert_eq!((console.cell_grid.x, console.cell_grid.y), (1, 1));
}

#[test]
fn position_outside_the_grid_is_invalid() {
    let mut console = FbConsole::new(rgbx_fb(), Some(tiny_font())).unwrap();
    assert_eq!(console.position(2, 0), Err(Error::Invalid));
    assert_eq!(console.position(1, 1), Ok(()));
    assert_eq!((console.cell_grid.x, console.cell_grid.y), (1, 1));
}

#[test]
fn colors_read_back() {
    let mut console = FbConsole::new(rgbx_fb(), Some(tiny_font())).unwrap();
    assert_eq!(console.fg(), Color::Palette(Palette::White));
    console.set_fg(Color::Rgb(9, 8, 7)).unwrap();
    assert_eq!(console.fg(), Color::Rgb(9, 8, 7));
    assert_eq!(console.bg(), Color::Palette(Palette::Black));
    assert_eq!(console.flush(), Ok(()));
}

#[test]
fn short_font_draws_the_bytes_it_has() {
    // Glyphs for bytes 0 to 65 only.
    let mut font = tiny_font();
    font.data.truncate(66 * 2);
    let mut console = FbConsole::new(rgbx_fb(), Some(font)).unwrap();
    assert!(console.has_glyphs_for(b"A\nA\x08"));
    assert!(!console.has_glyphs_for(b"AB"));
    assert_eq!(console.write(b"A\nA"), Ok(3));
    assert_eq!(pixel(&console, 0, 0), white());
    assert_eq!(pixel(&console, 0, 2), white());
}

#[test]
fn byte_order_comes_from_the_probe() {
    let little = FbConsole::from_probe(rgbx_fb(), Some(tiny_font()), [1, 0, 0, 0]).unwrap();
    assert!(little.backend.little_endian);
    let big = FbConsole::from_probe(rgbx_fb(), Some(tiny_font()), [0, 0, 0, 1]).unwrap();
    assert!(!big.backend.little_endian);
    let native = FbConsole::new(rgbx_fb(), Some(tiny_font())).unwrap();
    assert_eq!(native.backend.little_endian, 1u32.to_ne_bytes()[0] == 1);
}

#[test]
fn big_endian_order_draws_bytes_most_significant_first() {
    let mut console = FbConsole::from_probe(rgbx_fb(), Some(tiny_font()), [0, 0, 0, 1]).unwrap();
    console.set_bg(Color::Rgb(1, 2, 3)).unwrap();
    console.clear().unwrap();
    assert_eq!(pixel(&console, 0, 0), [0, 3, 2, 1]);
}

#[test]
fn a_font_too_wide_to_size_its_rows_still_makes_a_console() {
    let font = BitmapFont { width: usize::MAX - 3, height: 1, data: Vec::new() };
    let fb = Framebuffer {
        buffer: vec![0u8; 4],
        width: 4,
        height: 1,
        pitch: 4,
        bpp: 8,
        red_mask: Mask::new(8, 0),
        green_mask: Mask::new(8, 8),
        blue_mask: Mask::new(8, 16),
    };
    let console = FbConsole::new(fb, Some(font)).unwrap();
    assert_eq!((console.cell_grid.width, console.cell_grid.height), (0, 1));
    assert!(!console.has_glyphs_for(b"A"));
    assert!(console.has_glyphs_for(b"\n"));
}
