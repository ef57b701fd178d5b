use echo_lab::screen_buffer::ScreenBuffer;
use echo_lab::video::{
    GlyphTable, TextVideoController, CELL_HEIGHT, CELL_WIDTH, COLOR_BLACK, COLOR_PHOSPHOR_GREEN,
    COLOR_WHITE, FRAME_HEIGHT, FRAME_WIDTH, GLYPH_HEIGHT, GLYPH_WIDTH, TEXT_COLS,
};

fn glyph_on(table: &GlyphTable, code: u8, gx: usize, gy: usize) -> bool {
    (table.row(code, gy) & 0x7f) >> gx & 1 == 1
}

/// Checks that cell `(col, row)` shows glyph `code` doubled 2x2 in `fg`.
fn assert_cell_matches(out: &ScreenBuffer, table: &GlyphTable, col: usize, row: usize, code: u8, fg: u32) {
    for y in 0..CELL_HEIGHT {
        for x in 0..CELL_WIDTH {
            let expected = if glyph_on(table, code, x / 2, y / 2) { fg } else { COLOR_BLACK };
            assert_eq!(
                out.get_pixel(col * CELL_WIDTH + x, row * CELL_HEIGHT + y),
                Some(expected),
                "code {} at ({}, {})",
                code,
                x,
                y
            );
        }
    }
}

#[test]
fn text_video_renders_non_space_cells_on_even_scanlines_only() {
    let mut ram = [0u8; 65536];
    ram[0x0400] = b'A';

    let mut out = ScreenBuffer::new(FRAME_WIDTH, FRAME_HEIGHT);
    let video = TextVideoController::default();
    video.render_frame(&ram, &mut out);

    // Each glyph scanline covers two frame rows: rows 0 and 1 both show the
    // top scanline of the glyph.
    let table = GlyphTable::builtin();
    let mut lit = 0;
    for x in 0..CELL_WIDTH {
        let expected = if glyph_on(&table, b'A', x / 2, 0) { COLOR_PHOSPHOR_GREEN } else { COLOR_BLACK };
        assert_eq!(out.get_pixel(x, 0), Some(expected));
        assert_eq!(out.get_pixel(x, 1), Some(expected));
        if expected == COLOR_PHOSPHOR_GREEN {
            lit += 1;
        }
    }
    assert!(lit > 0);
}

#[test]
fn text_video_keeps_space_cells_black_even_on_active_scanlines() {
    let mut ram = [0u8; 65536];
    ram[0x0401] = b' ';

    let mut out = ScreenBuffer::new(FRAME_WIDTH, FRAME_HEIGHT);
    let video = TextVideoController::default();
    video.render_frame(&ram, &mut out);

    for x in 7..14 {
        assert_eq!(out.get_pixel(x, 0), Some(COLOR_BLACK));
        assert_eq!(out.get_pixel(x, 1), Some(COLOR_BLACK));
    }
}

#[test]
fn render_frame_publishes_new_frame() {
    let ram = [0u8; 65536];
    let mut out = ScreenBuffer::new(FRAME_WIDTH, FRAME_HEIGHT);
    let video = TextVideoController::default();

    assert_eq!(out.frame_id(), 0);
    video.render_frame(&ram, &mut out);
    assert_eq!(out.frame_id(), 1);
}

#[test]
fn space_cell_is_entirely_background() {
    let mut ram = [b'#'; 65536];
    ram[0x0400 + 41] = b' ';
    let mut out = ScreenBuffer::new(FRAME_WIDTH, FRAME_HEIGHT);
    TextVideoController::default().render_frame(&ram, &mut out);
    for y in CELL_HEIGHT..2 * CELL_HEIGHT {
        for x in CELL_WIDTH..2 * CELL_WIDTH {
            assert_eq!(out.get_pixel(x, y), Some(COLOR_BLACK));
        }
    }
}

#[test]
fn every_code_reproduces_its_glyph_bitmap() {
    // Codes 0..127 fill the first 128 cells; codes 128..255 fill the next 128
    // and must show the same glyphs, the high bit being ignored.
    let mut ram = [b' '; 65536];
    for code in 0..256usize {
        ram[0x0400 + code] = code as u8;
    }
    let mut out = ScreenBuffer::new(FRAME_WIDTH, FRAME_HEIGHT);
    let video = TextVideoController::default();
    video.render_frame(&ram, &mut out);
    let table = GlyphTable::builtin();
    for cell in 0..256usize {
        let code = (cell & 0x7f) as u8;
        assert_cell_matches(&out, &table, cell % TEXT_COLS, cell / TEXT_COLS, code, COLOR_PHOSPHOR_GREEN);
    }
}

#[test]
fn printable_glyphs_light_at_least_one_pixel() {
    let table = GlyphTable::builtin();
    for code in 0x21u8..0x7f {
        let mut lit = false;
        for gy in 0..GLYPH_HEIGHT {
            for gx in 0..GLYPH_WIDTH {
                lit |= glyph_on(&table, code, gx, gy);
            }
        }
        assert!(lit, "code {}", code);
    }
    for code in 0u8..0x21 {
        for gy in 0..GLYPH_HEIGHT {
            assert_eq!(table.row(code, gy), 0);
        }
    }
}

#[test]
fn hello_world_occupancy_matches_glyph_columns() {
    let mut ram = [b' '; 65536];
    let message = b"HELLO WORLD";
    for (i, ch) in message.iter().enumerate() {
        ram[0x0400 + i] = *ch;
    }
    let mut out = ScreenBuffer::new(FRAME_WIDTH, FRAME_HEIGHT);
    let video = TextVideoController::default().with_foreground_color(COLOR_WHITE);
    video.render_frame(&ram, &mut out);
    let table = GlyphTable::builtin();

    for col in 0..TEXT_COLS {
        let code = if col < message.len() { message[col] } else { b' ' };
        for gx in 0..GLYPH_WIDTH {
            let column_in_table = (0..GLYPH_HEIGHT).any(|gy| glyph_on(&table, code, gx, gy));
            let x = col * CELL_WIDTH + 2 * gx;
            let column_on_screen =
                (0..CELL_HEIGHT).any(|y| out.get_pixel(x, y) == Some(COLOR_WHITE));
            assert_eq!(column_on_screen, column_in_table, "column {} of cell {}", gx, col);
        }
        let cell_lit = (0..CELL_HEIGHT)
            .any(|y| (0..CELL_WIDTH).any(|x| out.get_pixel(col * CELL_WIDTH + x, y) == Some(COLOR_WHITE)));
        assert_eq!(cell_lit, col < message.len() && message[col] != b' ');
    }
    // Everything below the first text row stays background.
    assert!((CELL_HEIGHT..FRAME_HEIGHT).all(|y| (0..FRAME_WIDTH).all(|x| out.get_pixel(x, y) == Some(COLOR_BLACK))));
}

#[test]
fn text_base_wraps_around_the_address_space() {
    let mut ram = [b' '; 65536];
    ram[0xffff] = b'X';
    ram[0x0000] = b'Y';
    let mut out = ScreenBuffer::new(FRAME_WIDTH, FRAME_HEIGHT);
    let video = TextVideoController::new(0xffff);
    video.render_frame(&ram, &mut out);
    let table = GlyphTable::builtin();
    assert_cell_matches(&out, &table, 0, 0, b'X', COLOR_PHOSPHOR_GREEN);
    assert_cell_matches(&out, &table, 1, 0, b'Y', COLOR_PHOSPHOR_GREEN);
}

#[test]
fn injected_glyph_bank_is_used() {
    let mut rom = vec![0u8; 6144];
    // Glyph 1 of the non-inverse bank: only the leftmost pixel of its top scanline.
    rom[1024 + 8] = 0x01 | 0x80;
    let table = GlyphTable::from_rom(&rom).expect("a full bank");
    assert_eq!(table.row(1, 0), 0x81);
    assert!(GlyphTable::from_rom(&rom[..2047]).is_none());

    let mut ram = [0u8; 65536];
    ram[0x0400] = 0x81;
    let mut out = ScreenBuffer::new(FRAME_WIDTH, FRAME_HEIGHT);
    let video = TextVideoController::default().with_glyphs(table);
    video.render_frame(&ram, &mut out);
    let lit: Vec<(usize, usize)> = (0..FRAME_HEIGHT)
        .flat_map(|y| (0..FRAME_WIDTH).map(move |x| (x, y)))
        .filter(|&(x, y)| out.get_pixel(x, y) == Some(COLOR_PHOSPHOR_GREEN))
        .collect();
    assert_eq!(lit, vec![(0, 0), (1, 0), (0, 1), (1, 1)]);
}

#[test]
fn frame_dimensions_are_40_by_24_cells() {
    let video = TextVideoController::default();
    assert_eq!(video.frame_dimensions(), (560, 384));
    assert_eq!((FRAME_WIDTH, FRAME_HEIGHT), (TEXT_COLS * 14, 24 * 16));
}
