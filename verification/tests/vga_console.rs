use simple_console::cell_grid::{CellGrid, CellWriter};
use simple_console::color::{Color, Palette};
use simple_console::cursor::Cursor;
use simple_console::simple::vga::{
    cursor_start_update, VgaBackend, VgaConsole, CRTC_ADDRESS_REG, CRTC_CURSOR_HIGH_REG,
    CRTC_CURSOR_LOW_REG, CRTC_DATA_REG,
};
use simple_console::simple::{CellConsole, ColorConsole, Console, CursorConsole, Error};

/// White on black: attribute 0x0F.
fn word(ch: u8) -> u16 {
    0x0F00 | ch as u16
}

fn row_text(console: &VgaConsole, row: usize) -> Vec<u8> {
    (0..80).map(|x| (console.backend.cells[row * 80 + x] & 0xFF) as u8).collect()
}

#[test]
fn cell_grid_counts_and_indexes() {
    let mut grid = CellGrid::new(80, 25);
    assert_eq!((grid.x, grid.y, grid.deferred_wrap), (0, 0, false));
    assert_eq!(grid.cell_count(), 2000);
    grid.x = 7;
    grid.y = 3;
    assert_eq!(grid.cell_index(), 247);
}

#[test]
fn cursor_starts_enabled_and_hidden() {
    let cursor = Cursor::new();
    assert!(cursor.enabled);
    assert!(!cursor.visible);
}

#[test]
fn palette_positions_follow_declaration_order() {
    assert_eq!(Palette::Black.position(), 0);
    assert_eq!(Palette::LightGray.position(), 7);
    assert_eq!(Palette::White.position(), 15);
}

#[test]
fn new_console_is_80_by_25_white_on_black() {
    let console = VgaConsole::new();
    assert_eq!(console.cell_grid().width, 80);
    assert_eq!(console.cell_grid().height, 25);
    assert_eq!(console.fg(), Color::Palette(Palette::White));
    assert_eq!(console.bg(), Color::Palette(Palette::Black));
    assert_eq!(console.backend.cells.len(), 2000);
}

#[test]
fn write_puts_characters_and_advances() {
    let mut console = VgaConsole::new();
    assert_eq!(console.write(b"ab"), Ok(2));
    assert_eq!(console.backend.cells[0], word(b'a'));
    assert_eq!(console.backend.cells[1], word(b'b'));
    assert_eq!((console.cell_grid.x, console.cell_grid.y), (2, 0));
}

#[test]
fn write_uses_current_colors() {
    let mut console = VgaConsole::new();
    console.set_fg(Color::Palette(Palette::LightGreen)).unwrap();
    console.set_bg(Color::Palette(Palette::Blue)).unwrap();
    console.write(b"x").unwrap();
    // LightGreen is 10, Blue is 1: attribute 0x1A.
    assert_eq!(console.backend.cells[0], 0x1A00 | b'x' as u16);
}

#[test]
fn newline_and_carriage_return_move_the_cursor() {
    let mut console = VgaConsole::new();
    console.write(b"abc\nde").unwrap();
    assert_eq!((console.cell_grid.x, console.cell_grid.y), (2, 1));
    assert_eq!(console.backend.cells[80], word(b'd'));
    console.write(b"\rX").unwrap();
    assert_eq!(console.backend.cells[80], word(b'X'));
    assert_eq!((console.cell_grid.x, console.cell_grid.y), (1, 1));
}

#[test]
fn backspace_stops_at_origin_and_wraps_rows() {
    let mut console = VgaConsole::new();
    console.write(&[8, 8]).unwrap();
    assert_eq!((console.cell_grid.x, console.cell_grid.y), (0, 0));
    console.write(b"\n").unwrap();
    console.write(&[8]).unwrap();
    assert_eq!((console.cell_grid.x, console.cell_grid.y), (79, 0));
}

#[test]
fn text_wraps_at_row_end() {
    let mut console = VgaConsole::new();
    let line = [b'a'; 80];
    console.write(&line).unwrap();
    assert_eq!((console.cell_grid.x, console.cell_grid.y), (0, 1));
    assert!(console.cell_grid.deferred_wrap);
    console.write(b"b").unwrap();
    assert_eq!(console.backend.cells[80], word(b'b'));
    assert!(!console.cell_grid.deferred_wrap);
}

#[test]
fn newline_after_a_wrap_is_consumed() {
    let mut console = VgaConsole::new();
    let line = [b'a'; 80];
    console.write(&line).unwrap();
    assert_eq!((console.cell_grid.x, console.cell_grid.y), (0, 1));
    console.write(b"\n").unwrap();
    assert_eq!((console.cell_grid.x, console.cell_grid.y), (0, 1));
    assert!(!console.cell_grid.deferred_wrap);
    // A second newline moves on as usual.
    console.write(b"\nb").unwrap();
    assert_eq!(console.backend.cells[160], word(b'b'));
    assert_eq!((console.cell_grid.x, console.cell_grid.y), (1, 2));
}

fn full_screen() -> VgaConsole {
    let mut console = VgaConsole::new();
    let mut text = Vec::new();
    for row in 0..25u8 {
        text.extend(std::iter::repeat(b'A' + row).take(80));
    }
    assert_eq!(console.write(&text), Ok(2000));
    console
}

#[test]
fn full_screen_floats_at_last_cell_then_scrolls() {
    let mut console = full_screen();
    assert_eq!((console.cell_grid.x, console.cell_grid.y), (79, 24));
    assert!(console.cell_grid.deferred_wrap);
    assert_eq!(row_text(&console, 0), vec![b'A'; 80]);
    // The next printable byte scrolls and starts the last row.
    console.write(b"z").unwrap();
    assert_eq!(row_text(&console, 0), vec![b'B'; 80]);
    assert_eq!(console.backend.cells[24 * 80], word(b'z'));
    assert_eq!(console.backend.cells[24 * 80 + 1], word(b' '));
    assert_eq!((console.cell_grid.x, console.cell_grid.y), (1, 24));
}

#[test]
fn newline_right_after_the_last_cell_is_swallowed() {
    let mut console = full_screen();
    console.write(b"\n").unwrap();
    assert_eq!((console.cell_grid.x, console.cell_grid.y), (79, 24));
    assert!(!console.cell_grid.deferred_wrap);
    assert_eq!(row_text(&console, 0), vec![b'A'; 80]);
    // With the wrap consumed, the next byte overwrites the last cell.
    console.write(b"z").unwrap();
    assert_eq!(row_text(&console, 0), vec![b'A'; 80]);
    assert_eq!(console.backend.cells[1999], word(b'z'));
    assert_eq!((console.cell_grid.x, console.cell_grid.y), (79, 24));
    assert!(console.cell_grid.deferred_wrap);
}

#[test]
fn newline_on_last_row_scrolls() {
    let mut console = VgaConsole::new();
    console.position(0, 24).unwrap();
    console.write(b"q\n").unwrap();
    assert_eq!((console.cell_grid.x, console.cell_grid.y), (0, 24));
    assert_eq!(console.backend.cells[23 * 80], word(b'q'));
    assert_eq!(console.backend.cells[24 * 80], word(b' '));
}

#[test]
fn position_checks_bounds() {
    let mut console = VgaConsole::new();
    assert_eq!(console.position(80, 0), Err(Error::Invalid));
    assert_eq!(console.position(0, 25), Err(Error::Invalid));
    assert_eq!((console.cell_grid.x, console.cell_grid.y), (0, 0));
    assert_eq!(console.position(79, 24), Ok(()));
    assert_eq!((console.cell_grid.x, console.cell_grid.y), (79, 24));
}

#[test]
fn rgb_colors_are_unsupported() {
    let mut console = VgaConsole::new();
    assert_eq!(console.set_fg(Color::Rgb(1, 2, 3)), Err(Error::Unsupported));
    assert_eq!(console.set_bg(Color::Rgb(1, 2, 3)), Err(Error::Unsupported));
    assert_eq!(console.fg(), Color::Palette(Palette::White));
    assert_eq!(console.set_fg(Color::Palette(Palette::Red)), Ok(()));
    assert_eq!(console.fg(), Color::Palette(Palette::Red));
}

#[test]
fn clear_blanks_every_cell() {
    let mut console = VgaConsole::new_with_ptr(vec![0x1234u16; 2001]);
    console.set_bg(Color::Palette(Palette::Red)).unwrap();
    console.clear().unwrap();
    // White on red: attribute 0x4F.
    assert!(console.backend.cells[..2000].iter().all(|&c| c == 0x4F20));
    assert_eq!(console.backend.cells[2000], 0x1234);
}

#[test]
fn scroll_moves_rows_up_and_blanks_the_last() {
    let mut console = VgaConsole::new();
    console.write(b"top\nsecond").unwrap();
    console.scroll().unwrap();
    assert_eq!(&row_text(&console, 0)[..6], b"second");
    assert_eq!(row_text(&console, 24), vec![b' '; 80]);
    assert_eq!((console.cell_grid.x, console.cell_grid.y), (6, 1));
}

#[test]
fn hardware_cursor_writes_give_index_bytes() {
    let mut console = VgaConsole::new();
    console.position(79, 24).unwrap();
    let writes = console.hardware_cursor_writes();
    assert_eq!(
        writes,
        [
            (CRTC_ADDRESS_REG, CRTC_CURSOR_LOW_REG),
            (CRTC_DATA_REG, 0xCF),
            (CRTC_ADDRESS_REG, CRTC_CURSOR_HIGH_REG),
            (CRTC_DATA_REG, 0x07),
        ]
    );
    assert_eq!(console.flush(), Ok(()));
}

#[test]
fn cursor_start_register_update() {
    assert_eq!(cursor_start_update(0x0E, false), Some(0x2E));
    assert_eq!(cursor_start_update(0x2E, false), None);
    assert_eq!(cursor_start_update(0x2E, true), Some(0x0E));
    assert_eq!(cursor_start_update(0x0E, true), None);
}

#[test]
fn enable_records_cursor_state() {
    let mut console = VgaConsole::new();
    assert_eq!(console.enable(false), Ok(()));
    assert!(!console.cursor.enabled);
    assert_eq!(console.enable(true), Ok(()));
    assert!(console.cursor.enabled);
}

#[test]
fn cell_writer_on_empty_grid_consumes_everything() {
    let mut backend_console = VgaConsole::new();
    let mut grid = CellGrid::new(0, 5);
    let mut writer = CellWriter::new();
    let backend: &mut VgaBackend = &mut backend_console.backend;
    assert_eq!(writer.write(backend, &mut grid, b"hello"), Ok(5));
    assert_eq!(backend.cells[0], 0);
}

#[test]
fn two_writes_equal_one_write_of_both() {
    let text: &[u8] = b"first line\nsecond\x08\rthird";
    for cut in 0..=text.len() {
        let (s, t) = text.split_at(cut);
        let mut a = VgaConsole::new();
        a.write(text).unwrap();
        let mut b = VgaConsole::new();
        b.write(s).unwrap();
        b.write(t).unwrap();
        assert_eq!(a.backend.cells, b.backend.cells);
        assert_eq!((a.cell_grid.x, a.cell_grid.y, a.cell_grid.deferred_wrap), (b.cell_grid.x, b.cell_grid.y, b.cell_grid.deferred_wrap));
    }
}
