use nes_gfx::Rgb;
use nes_gfx::palette::palette_color;
use nes_gfx::palette::palette_table;

#[test]
fn palette_has_sixty_four_entries() {
    assert_eq!(palette_table().len(), 64);
}

#[test]
fn palette_documented_entries() {
    assert_eq!(palette_color(0), Rgb::new(124, 124, 124));
    assert_eq!(palette_color(1), Rgb::new(0, 0, 252));
    assert_eq!(palette_color(16), Rgb::new(188, 188, 188));
    assert_eq!(palette_color(32), Rgb::new(248, 248, 248));
    assert_eq!(palette_color(48), Rgb::new(252, 252, 252));
    assert_eq!(palette_color(61), Rgb::new(248, 216, 248));
}

#[test]
fn palette_unused_codes_are_black() {
    for index in [13, 14, 15, 29, 30, 31, 46, 47, 62, 63] {
        assert_eq!(palette_color(index), Rgb::new(0, 0, 0));
    }
}

#[test]
fn palette_lookup_matches_table() {
    let table = palette_table();
    for index in 0..64 {
        assert_eq!(palette_color(index), table[index]);
    }
}
