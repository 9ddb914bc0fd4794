use rusted_kernel::vga::{
    clear, clear_animated, draw_block, draw_rect, fill_run, print_bytes, print_text,
    unicode_menu, write_char, write_letters, Cell, Color, ColorCode, Screen,
};

fn text_at(screen: &Screen, col: usize, row: usize, len: usize) -> Vec<u8> {
    (0..len).map(|i| screen.get(col + i, row).unwrap().ch).collect()
}

fn colors_at(screen: &Screen, col: usize, row: usize, len: usize) -> Vec<u8> {
    (0..len).map(|i| screen.get(col + i, row).unwrap().color).collect()
}

fn snapshot(screen: &Screen) -> Vec<Cell> {
    let mut cells = Vec::new();
    for row in 0..25 {
        for col in 0..80 {
            cells.push(screen.get(col, row).unwrap());
        }
    }
    cells
}

#[test]
fn color_codes_follow_the_palette() {
    assert_eq!(Color::Black.code(), 0);
    assert_eq!(Color::Blue.code(), 1);
    assert_eq!(Color::Green.code(), 2);
    assert_eq!(Color::Cyan.code(), 3);
    assert_eq!(Color::Red.code(), 4);
    assert_eq!(Color::Magenta.code(), 5);
    assert_eq!(Color::Brown.code(), 6);
    assert_eq!(Color::White.code(), 7);
    assert_eq!(Color::Gray.code(), 8);
    assert_eq!(Color::LightBlue.code(), 9);
    assert_eq!(Color::LightGreen.code(), 10);
    assert_eq!(Color::LightCyan.code(), 11);
    assert_eq!(Color::LightRed.code(), 12);
    assert_eq!(Color::Pink.code(), 13);
    assert_eq!(Color::Yellow.code(), 14);
    assert_eq!(Color::LightWhite.code(), 15);
}

#[test]
fn color_code_packs_background_over_foreground() {
    assert_eq!(ColorCode::new(Color::White, Color::Blue).as_u8(), 0x17);
    assert_eq!(ColorCode::new(Color::Yellow, Color::Black).as_u8(), 0x0E);
    assert_eq!(ColorCode::new(Color::Black, Color::LightWhite).as_u8(), 0xF0);
    assert_eq!(ColorCode::new(Color::LightWhite, Color::LightWhite).as_u8(), 0xFF);
    assert_eq!(
        ColorCode::new(Color::Red, Color::Green),
        ColorCode::new(Color::Red, Color::Green)
    );
}

#[test]
fn new_screen_is_blank() {
    let screen = Screen::new();
    for cell in snapshot(&screen) {
        assert_eq!(cell, Cell { ch: 0x20, color: 0x07 });
    }
    assert_eq!(screen.get(80, 0), None);
    assert_eq!(screen.get(0, 25), None);
    assert_eq!(screen.get(79, 24), Some(Cell { ch: 0x20, color: 0x07 }));
}

#[test]
fn write_char_sets_one_cell() {
    let mut screen = Screen::new();
    let before = snapshot(&screen);
    write_char(&mut screen, 3, 2, b'x', 0x4F);
    let after = snapshot(&screen);
    for k in 0..2000 {
        if k == 2 * 80 + 3 {
            assert_eq!(after[k], Cell { ch: b'x', color: 0x4F });
        } else {
            assert_eq!(after[k], before[k]);
        }
    }
}

#[test]
fn write_char_past_the_right_edge_runs_into_the_next_row() {
    let mut screen = Screen::new();
    write_char(&mut screen, 81, 0, b'w', 0x01);
    assert_eq!(screen.get(1, 1), Some(Cell { ch: b'w', color: 0x01 }));
}

#[test]
fn write_char_off_the_page_changes_nothing() {
    let mut screen = Screen::new();
    let before = snapshot(&screen);
    write_char(&mut screen, 0, 25, b'x', 0x4F);
    write_char(&mut screen, 80, 24, b'x', 0x4F);
    write_char(&mut screen, 2000, 0, b'x', 0x4F);
    write_char(&mut screen, u64::MAX, u64::MAX, b'x', 0x4F);
    write_char(&mut screen, 0, u64::MAX, b'x', 0x4F);
    assert_eq!(snapshot(&screen), before);
}

#[test]
fn clear_blanks_every_cell_in_the_colour() {
    let mut screen = Screen::new();
    print_bytes(&mut screen, 0, 0, 0x0F, b"something");
    clear(&mut screen, 0x1E);
    for cell in snapshot(&screen) {
        assert_eq!(cell, Cell { ch: 0x20, color: 0x1E });
    }
}

#[test]
fn print_bytes_writes_consecutive_cells() {
    let mut screen = Screen::new();
    print_bytes(&mut screen, 5, 3, 0x0A, b"Hello");
    assert_eq!(text_at(&screen, 5, 3, 5), b"Hello".to_vec());
    assert_eq!(colors_at(&screen, 5, 3, 5), vec![0x0A; 5]);
    assert_eq!(screen.get(4, 3), Some(Cell { ch: 0x20, color: 0x07 }));
    assert_eq!(screen.get(10, 3), Some(Cell { ch: 0x20, color: 0x07 }));
}

#[test]
fn print_bytes_wraps_and_stops_at_the_end_of_the_page() {
    let mut screen = Screen::new();
    print_bytes(&mut screen, 78, 0, 0x0A, b"abcd");
    assert_eq!(text_at(&screen, 78, 0, 2), b"ab".to_vec());
    assert_eq!(text_at(&screen, 0, 1, 2), b"cd".to_vec());
    print_bytes(&mut screen, 78, 24, 0x0B, b"wxyz");
    assert_eq!(text_at(&screen, 78, 24, 2), b"wx".to_vec());
    print_bytes(&mut screen, 0, 25, 0x0B, b"off");
    print_bytes(&mut screen, u64::MAX, 3, 0x0B, b"off");
    assert_eq!(text_at(&screen, 0, 0, 3), vec![0x20; 3]);
    print_bytes(&mut screen, 0, 0, 0x0B, b"");
    assert_eq!(text_at(&screen, 0, 0, 3), vec![0x20; 3]);
}

#[test]
fn print_text_is_print_bytes_of_the_text() {
    let mut a = Screen::new();
    let mut b = Screen::new();
    print_text(&mut a, 7, 9, 0x3C, "Key 0 - Back");
    print_bytes(&mut b, 7, 9, 0x3C, b"Key 0 - Back");
    assert_eq!(snapshot(&a), snapshot(&b));
    assert_eq!(text_at(&a, 7, 9, 12), b"Key 0 - Back".to_vec());
}

#[test]
fn write_letters_keeps_the_colours() {
    let mut screen = Screen::new();
    clear(&mut screen, 0x2F);
    write_letters(&mut screen, 2, 10, b"NAME");
    assert_eq!(text_at(&screen, 2, 10, 4), b"NAME".to_vec());
    assert_eq!(colors_at(&screen, 0, 10, 80), vec![0x2F; 80]);
    write_letters(&mut screen, 79, 24, b"ZZ");
    assert_eq!(screen.get(79, 24), Some(Cell { ch: b'Z', color: 0x2F }));
}

#[test]
fn fill_run_repeats_one_cell() {
    let mut screen = Screen::new();
    fill_run(&mut screen, 79, 1, 3, Cell { ch: b'#', color: 0x44 });
    assert_eq!(screen.get(79, 1), Some(Cell { ch: b'#', color: 0x44 }));
    assert_eq!(screen.get(0, 2), Some(Cell { ch: b'#', color: 0x44 }));
    assert_eq!(screen.get(1, 2), Some(Cell { ch: b'#', color: 0x44 }));
    assert_eq!(screen.get(2, 2), Some(Cell { ch: 0x20, color: 0x07 }));
    assert_eq!(screen.get(78, 1), Some(Cell { ch: 0x20, color: 0x07 }));
}

#[test]
fn draw_block_uses_the_colour_for_both_halves() {
    let mut screen = Screen::new();
    draw_block(&mut screen, 1, 1, 0x01);
    assert_eq!(screen.get(1, 1), Some(Cell { ch: 0xDB, color: 0x11 }));
    draw_block(&mut screen, 2, 1, 0x07);
    assert_eq!(screen.get(2, 1), Some(Cell { ch: 0xDB, color: 0x77 }));
    draw_block(&mut screen, 3, 1, 0x1F);
    assert_eq!(screen.get(3, 1), Some(Cell { ch: 0xDB, color: 0xFF }));
    draw_block(&mut screen, 4, 1, 0x70);
    assert_eq!(screen.get(4, 1), Some(Cell { ch: 0xDB, color: 0x70 }));
}

#[test]
fn draw_rect_fills_exactly_the_rectangle() {
    let mut screen = Screen::new();
    draw_rect(&mut screen, 10, 8, 60, 8, 0x01);
    for row in 0..25 {
        for col in 0..80 {
            let inside = (10..70).contains(&col) && (8..16).contains(&row);
            let expected = if inside {
                Cell { ch: 0xDB, color: 0x11 }
            } else {
                Cell { ch: 0x20, color: 0x07 }
            };
            assert_eq!(screen.get(col, row), Some(expected));
        }
    }
}

#[test]
fn draw_rect_is_cut_at_the_bottom_of_the_page() {
    let mut screen = Screen::new();
    draw_rect(&mut screen, 0, 23, 2, 1000, 0x02);
    assert_eq!(screen.get(0, 23), Some(Cell { ch: 0xDB, color: 0x22 }));
    assert_eq!(screen.get(1, 24), Some(Cell { ch: 0xDB, color: 0x22 }));
    assert_eq!(screen.get(2, 24), Some(Cell { ch: 0x20, color: 0x07 }));
    assert_eq!(screen.get(0, 22), Some(Cell { ch: 0x20, color: 0x07 }));
    let before = snapshot(&screen);
    draw_rect(&mut screen, 0, 25, 80, u64::MAX, 0x02);
    draw_rect(&mut screen, 0, 0, 0, 5, 0x02);
    draw_rect(&mut screen, 0, 0, 5, 0, 0x02);
    assert_eq!(snapshot(&screen), before);
}

#[test]
fn clear_animated_blanks_a_run_of_cells() {
    let mut screen = Screen::new();
    clear(&mut screen, 0x70);
    clear_animated(&mut screen, 0, 23, 0x00, 100);
    assert_eq!(colors_at(&screen, 0, 23, 80), vec![0x00; 80]);
    assert_eq!(colors_at(&screen, 0, 24, 20), vec![0x00; 20]);
    assert_eq!(colors_at(&screen, 20, 24, 60), vec![0x70; 60]);
    assert_eq!(text_at(&screen, 0, 23, 80), vec![0x20; 80]);
    clear_animated(&mut screen, 85, 0, 0x01, 2);
    assert_eq!(colors_at(&screen, 0, 1, 3), vec![0x01, 0x01, 0x70]);
    assert_eq!(colors_at(&screen, 0, 0, 80), vec![0x70; 80]);
}

#[test]
fn unicode_menu_page_when_enabled() {
    let mut screen = Screen::new();
    unicode_menu(&mut screen, true);
    assert_eq!(text_at(&screen, 0, 0, 20), b"UNICODE MENU (ASCII)".to_vec());
    assert_eq!(colors_at(&screen, 0, 0, 20), vec![0x0F; 20]);
    assert_eq!(
        text_at(&screen, 0, 2, 39),
        b"Polskie znaki w ASCII nie beda widoczne".to_vec()
    );
    assert_eq!(colors_at(&screen, 0, 2, 39), vec![0x0E; 39]);
    assert_eq!(text_at(&screen, 0, 4, 25), b"Key 0 - Back to Main Menu".to_vec());
    assert_eq!(colors_at(&screen, 0, 4, 25), vec![0x0A; 25]);
    assert_eq!(text_at(&screen, 0, 6, 29), b"Key 1 - (brak 720p w kernelu)".to_vec());
    assert_eq!(colors_at(&screen, 0, 6, 29), vec![0x09; 29]);
    assert_eq!(
        text_at(&screen, 0, 24, 41),
        b" Nacisnij 0, aby wrocic do menu glownego ".to_vec()
    );
    assert_eq!(colors_at(&screen, 0, 24, 41), vec![0x70; 41]);
    assert_eq!(screen.get(20, 0), Some(Cell { ch: 0x20, color: 0x00 }));
    assert_eq!(text_at(&screen, 0, 1, 80), vec![0x20; 80]);
}

#[test]
fn unicode_menu_page_when_disabled() {
    let mut screen = Screen::new();
    unicode_menu(&mut screen, false);
    assert_eq!(text_at(&screen, 0, 0, 35), b"Unicode menu disabled in this build".to_vec());
    assert_eq!(colors_at(&screen, 0, 0, 35), vec![0x0E; 35]);
    assert_eq!(
        text_at(&screen, 0, 2, 39),
        b"Enable feature 'unicode' to restore it.".to_vec()
    );
    assert_eq!(colors_at(&screen, 0, 2, 39), vec![0x07; 39]);
    assert_eq!(text_at(&screen, 0, 4, 80), vec![0x20; 80]);
    assert_eq!(colors_at(&screen, 0, 24, 80), vec![0x00; 80]);
}
