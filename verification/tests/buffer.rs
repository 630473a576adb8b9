use nes_gfx::Rgb;
use nes_gfx::SCREEN_HEIGHT;
use nes_gfx::SCREEN_WIDTH;
use nes_gfx::Screen;
use nes_gfx::ScreenBgr;
use nes_gfx::ScreenRgba;
use nes_gfx::screen::BoundsError;
use nes_gfx::screen::try_put_pixel;

#[test]
fn new_buffers_are_zero_filled() {
    let bgr = ScreenBgr::new();
    assert_eq!(bgr.get_buffer().len(), SCREEN_WIDTH * SCREEN_HEIGHT * 3);
    assert!(bgr.get_buffer().iter().all(|&b| b == 0));

    let rgba = ScreenRgba::new();
    assert_eq!(rgba.get_buffer().len(), SCREEN_WIDTH * SCREEN_HEIGHT * 4);
    assert!(rgba.get_buffer().iter().all(|&b| b == 0));
}

#[test]
fn bgr_put_pixel_packs_three_bytes() {
    let mut screen = ScreenBgr::new();
    screen.put_pixel(0, 0, Rgb::new(10, 20, 30));
    screen.put_pixel(255, 239, Rgb::new(1, 2, 3));
    screen.put_pixel(7, 3, Rgb::new(200, 100, 50));

    let buffer = screen.get_buffer();
    assert_eq!(&buffer[0..3], &[10, 20, 30]);
    let last = (239 * SCREEN_WIDTH + 255) * 3;
    assert_eq!(&buffer[last..last + 3], &[1, 2, 3]);
    let mid = (3 * SCREEN_WIDTH + 7) * 3;
    assert_eq!(&buffer[mid..mid + 3], &[200, 100, 50]);
    // A neighbouring pixel stays untouched.
    assert_eq!(&buffer[3..6], &[0, 0, 0]);
}

#[test]
fn rgba_put_pixel_packs_reversed_channels() {
    let mut screen = ScreenRgba::new();
    screen.put_pixel(0, 0, Rgb::new(10, 20, 30));
    let buffer = screen.get_buffer();
    // Stored as [blue, green, red, alpha].
    assert_eq!(&buffer[0..4], &[30, 20, 10, 255]);
}

#[test]
fn rgba_fourth_byte_is_always_opaque() {
    let mut screen = ScreenRgba::new();
    let colors = [
        Rgb::new(0, 0, 0),
        Rgb::new(255, 255, 255),
        Rgb::new(1, 2, 3),
        Rgb::new(128, 64, 32),
    ];
    for (i, &color) in colors.iter().enumerate() {
        screen.put_pixel(i, 0, color);
        screen.put_pixel(100 + i, 200, color);
    }
    let buffer = screen.get_buffer();
    for (i, _) in colors.iter().enumerate() {
        assert_eq!(buffer[(0 * SCREEN_WIDTH + i) * 4 + 3], 255);
        assert_eq!(buffer[(200 * SCREEN_WIDTH + 100 + i) * 4 + 3], 255);
    }
}

#[test]
fn put_pixel_one_past_range_is_a_bounds_violation() {
    let mut screen = ScreenBgr::new();
    assert_eq!(
        try_put_pixel(&mut screen, SCREEN_WIDTH, 0, Rgb::new(9, 9, 9)),
        Err(BoundsError {
            x: SCREEN_WIDTH,
            y: 0
        })
    );
    assert_eq!(
        try_put_pixel(&mut screen, 0, SCREEN_HEIGHT, Rgb::new(9, 9, 9)),
        Err(BoundsError {
            x: 0,
            y: SCREEN_HEIGHT
        })
    );
    // The rejected writes left the canvas untouched.
    assert!(screen.get_buffer().iter().all(|&b| b == 0));

    let mut rgba = ScreenRgba::new();
    assert_eq!(
        try_put_pixel(&mut rgba, SCREEN_WIDTH, SCREEN_HEIGHT, Rgb::new(9, 9, 9)),
        Err(BoundsError {
            x: SCREEN_WIDTH,
            y: SCREEN_HEIGHT
        })
    );
}

#[test]
fn checked_put_pixel_writes_in_range() {
    let mut screen = ScreenBgr::new();
    assert_eq!(
        try_put_pixel(&mut screen, SCREEN_WIDTH - 1, SCREEN_HEIGHT - 1, Rgb::new(4, 5, 6)),
        Ok(())
    );
    let offset = ((SCREEN_HEIGHT - 1) * SCREEN_WIDTH + SCREEN_WIDTH - 1) * 3;
    assert_eq!(&screen.get_buffer()[offset..offset + 3], &[4, 5, 6]);
}
