use nes_gfx::NesPixel;
use nes_gfx::Rgb;
use nes_gfx::SCREEN_HEIGHT;
use nes_gfx::SCREEN_WIDTH;
use nes_gfx::Screen;
use nes_gfx::ScreenBgr;
use nes_gfx::ScreenRgba;
use nes_gfx::ShadeMode;
use nes_gfx::chr::ChrData;
use nes_gfx::fill_screen;
use nes_gfx::print_palette;
use nes_gfx::sheet::shade_color;

fn bgr_pixel(screen: &ScreenBgr, x: usize, y: usize) -> [u8; 3] {
    let buffer = screen.get_buffer();
    let offset = (y * SCREEN_WIDTH + x) * 3;
    [buffer[offset], buffer[offset + 1], buffer[offset + 2]]
}

#[test]
fn shade_ramp_values() {
    assert_eq!(
        shade_color(NesPixel::Background, ShadeMode::Plain),
        Rgb::new(0, 0, 0)
    );
    assert_eq!(
        shade_color(NesPixel::Background, ShadeMode::EmphasizedBackground),
        Rgb::new(32, 32, 32)
    );
    for mode in [ShadeMode::Plain, ShadeMode::EmphasizedBackground] {
        assert_eq!(shade_color(NesPixel::Palette1, mode), Rgb::new(64, 64, 64));
        assert_eq!(
            shade_color(NesPixel::Palette2, mode),
            Rgb::new(128, 128, 128)
        );
        assert_eq!(
            shade_color(NesPixel::Palette3, mode),
            Rgb::new(255, 255, 255)
        );
    }
}

#[test]
fn zero_sheet_fills_canvas_with_background_shade() {
    // 960 tiles at 32 per row cover the whole 256 x 240 canvas.
    let chr = ChrData::from_bytes(vec![0u8; 960 * 16]).unwrap();

    let mut screen = ScreenBgr::new();
    fill_screen(&mut screen, &chr, 32, ShadeMode::EmphasizedBackground);
    assert!(screen.get_buffer().iter().all(|&b| b == 32));

    let mut plain = ScreenBgr::new();
    fill_screen(&mut plain, &chr, 32, ShadeMode::Plain);
    assert!(plain.get_buffer().iter().all(|&b| b == 0));

    let mut rgba = ScreenRgba::new();
    fill_screen(&mut rgba, &chr, 32, ShadeMode::EmphasizedBackground);
    for (i, &byte) in rgba.get_buffer().iter().enumerate() {
        if i % 4 == 3 {
            assert_eq!(byte, 255);
        } else {
            assert_eq!(byte, 32);
        }
    }
}

#[test]
fn tile_lands_at_its_grid_position() {
    // Tile 33 of a 32-wide sheet has its top-left pixel at (8, 8).
    let mut bytes = vec![0u8; 34 * 16];
    bytes[33 * 16] = 0b1000_0000; // plane 0, row 0: column 0 becomes index 1
    let chr = ChrData::from_bytes(bytes).unwrap();

    let mut screen = ScreenBgr::new();
    fill_screen(&mut screen, &chr, 32, ShadeMode::EmphasizedBackground);
    assert_eq!(bgr_pixel(&screen, 8, 8), [64, 64, 64]);
    // Its neighbours inside tile 33 and tile 0's corner show the background.
    assert_eq!(bgr_pixel(&screen, 9, 8), [32, 32, 32]);
    assert_eq!(bgr_pixel(&screen, 8, 9), [32, 32, 32]);
    assert_eq!(bgr_pixel(&screen, 0, 0), [32, 32, 32]);
}

#[test]
fn single_strip_layout_places_tiles_left_to_right() {
    // Two tiles in one strip: tile 1 starts at x = 8, y = 0.
    let mut bytes = vec![0u8; 2 * 16];
    bytes[16 + 8] = 0b1000_0000; // tile 1, plane 1, row 0: index 2 at column 0
    let chr = ChrData::from_bytes(bytes).unwrap();

    let mut screen = ScreenBgr::new();
    fill_screen(&mut screen, &chr, 2, ShadeMode::EmphasizedBackground);
    assert_eq!(bgr_pixel(&screen, 8, 0), [128, 128, 128]);
    assert_eq!(bgr_pixel(&screen, 0, 0), [32, 32, 32]);
    // Pixels outside the two tiles are untouched.
    assert_eq!(bgr_pixel(&screen, 16, 0), [0, 0, 0]);
    assert_eq!(bgr_pixel(&screen, 0, 8), [0, 0, 0]);
}

#[test]
fn decoded_pixels_mix_both_planes() {
    // One tile, row 2: plane0 = 0b1100_0000, plane1 = 0b1010_0000.
    // Columns 0..4 decode to indices 3, 1, 2, 0.
    let mut bytes = vec![0u8; 16];
    bytes[2] = 0b1100_0000;
    bytes[8 + 2] = 0b1010_0000;
    let chr = ChrData::from_bytes(bytes).unwrap();

    let mut screen = ScreenBgr::new();
    fill_screen(&mut screen, &chr, 1, ShadeMode::EmphasizedBackground);
    assert_eq!(bgr_pixel(&screen, 0, 2), [255, 255, 255]);
    assert_eq!(bgr_pixel(&screen, 1, 2), [64, 64, 64]);
    assert_eq!(bgr_pixel(&screen, 2, 2), [128, 128, 128]);
    assert_eq!(bgr_pixel(&screen, 3, 2), [32, 32, 32]);
}

#[test]
fn palette_strip_paints_banded_rows() {
    let mut screen = ScreenBgr::new();
    print_palette(&mut screen);

    // Row 0 shows palette entry 0, row 5 entry 1 (5 / 3 == 1).
    assert_eq!(bgr_pixel(&screen, 0, 0), [124, 124, 124]);
    assert_eq!(bgr_pixel(&screen, 100, 5), [0, 0, 252]);
    // Row 41 shows entry 13, a defined-black slot.
    assert_eq!(bgr_pixel(&screen, 12, 41), [0, 0, 0]);
    // Row 192 is the overwritten tail of the last band, entry 63.
    assert_eq!(bgr_pixel(&screen, 255, 192), [0, 0, 0]);
    // A shared row belongs to the later band: row 3 shows entry 1.
    assert_eq!(bgr_pixel(&screen, 0, 3), [0, 0, 252]);
    // Rows past the strip stay untouched.
    for y in 193..SCREEN_HEIGHT {
        assert_eq!(bgr_pixel(&screen, 17, y), [0, 0, 0]);
    }
}
