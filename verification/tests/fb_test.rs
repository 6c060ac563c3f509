use simple_console::color::{Color, Palette};
use simple_console::fb::{Framebuffer, Mask};
use simple_console::simple::fb::FbConsole;
use simple_console::simple::{BlinkConsole, ColorConsole, Console};

fn harness<C: Console + ColorConsole>(console: &mut C) {
    let colors = [
        Palette::White,
        Palette::LightCyan,
        Palette::LightMagenta,
        Palette::LightBlue,
        Palette::Yellow,
        Palette::LightGreen,
        Palette::LightRed,
        Palette::DarkGray,
        Palette::LightGray,
        Palette::Cyan,
        Palette::Magenta,
        Palette::Blue,
        Palette::Brown,
        Palette::Green,
        Palette::Red,
    ];

    console.clear().unwrap();
    for color in colors {
        console.set_fg(Color::Palette(color)).unwrap();
        console.write(b"The quick brown fox jumps over the lazy dog.\n").unwrap();
    }
}

#[test]
fn rgbx_8888_pad_0() {
    let width: usize = 20;
    let height: usize = 20;
    let bpp: usize = 32;
    let data: Vec<u8> = vec![0u8; width * (bpp / 8) * height];

    let fb = Framebuffer {
        buffer: data,
        width: width,
        height: height,
        pitch: width * (bpp / 8),
        bpp: bpp,
        red_mask: Mask::new(8, 0),
        green_mask: Mask::new(8, 8),
        blue_mask: Mask::new(8, 16),
    };

    let mut fb_console = FbConsole::new(fb, None).unwrap();

    harness(&mut fb_console);
}

#[test]
fn sdl3_test() {
    let width: usize = 800;
    let height: usize = 600;
    let fb = Framebuffer {
        buffer: vec![0xFFu8; width * 4 * height],
        width,
        height,
        pitch: width * 4,
        bpp: 32,
        red_mask: Mask::new(8, 0),
        green_mask: Mask::new(8, 8),
        blue_mask: Mask::new(8, 16),
    };

    let mut fb_console = FbConsole::new(fb, None).unwrap();

    harness(&mut fb_console);

    for _ in 0..4 {
        fb_console.blink();
    }
    assert!(!fb_console.visible());
}
