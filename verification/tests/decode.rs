use nes_gfx::NesPixel;
use nes_gfx::chr::ChrData;
use nes_gfx::chr::FormatError;
use nes_gfx::compute_color_index;

#[test]
fn color_index_examples() {
    // bit0 from plane 0, bit1 from plane 1, column 0 reads the top bit.
    assert_eq!(compute_color_index(0b1000_0000, 0b0000_0000, 0), 1);
    assert_eq!(compute_color_index(0b0000_0000, 0b1000_0000, 0), 2);
    assert_eq!(compute_color_index(0b1000_0000, 0b1000_0000, 0), 3);
    for column in 0..8 {
        assert_eq!(compute_color_index(0, 0, column), 0);
    }
}

#[test]
fn color_index_always_two_bits() {
    for plane0 in [0u8, 1, 0x55, 0xaa, 0xff] {
        for plane1 in [0u8, 2, 0x33, 0xcc, 0xff] {
            for column in 0..8 {
                let index = compute_color_index(plane0, plane1, column);
                assert!(index <= 3);
                // Pure function: a second call agrees.
                assert_eq!(index, compute_color_index(plane0, plane1, column));
            }
        }
    }
}

#[test]
fn color_index_reads_requested_column() {
    // plane0 = 0b0100_0000 sets only column 1.
    assert_eq!(compute_color_index(0b0100_0000, 0, 0), 0);
    assert_eq!(compute_color_index(0b0100_0000, 0, 1), 1);
    assert_eq!(compute_color_index(0b0100_0000, 0, 2), 0);
    // The last column reads the lowest bit.
    assert_eq!(compute_color_index(0b0000_0001, 0, 7), 1);
}

#[test]
fn nes_pixel_variants() {
    assert_eq!(NesPixel::new(0, 0, 0), NesPixel::Background);
    assert_eq!(NesPixel::new(0b1000_0000, 0, 0), NesPixel::Palette1);
    assert_eq!(NesPixel::new(0, 0b1000_0000, 0), NesPixel::Palette2);
    assert_eq!(
        NesPixel::new(0b1000_0000, 0b1000_0000, 0),
        NesPixel::Palette3
    );
}

#[test]
fn chr_data_accepts_whole_tiles() {
    let one_tile = ChrData::from_bytes(vec![0u8; 16]);
    assert!(one_tile.is_ok());
    assert_eq!(one_tile.unwrap().tile_count(), 1);

    let empty = ChrData::from_bytes(Vec::new());
    assert!(empty.is_ok());
    assert_eq!(empty.unwrap().tile_count(), 0);

    let sheet = ChrData::from_bytes(vec![0u8; 512 * 16]);
    assert!(sheet.is_ok());
    assert_eq!(sheet.unwrap().tile_count(), 512);
}

#[test]
fn chr_data_rejects_partial_tiles() {
    assert!(matches!(
        ChrData::from_bytes(vec![0u8; 15]),
        Err(FormatError::InvalidLength)
    ));
    assert!(matches!(
        ChrData::from_bytes(vec![0u8; 17]),
        Err(FormatError::InvalidLength)
    ));
}

#[test]
fn chr_data_plane_bytes() {
    let mut bytes = vec![0u8; 32];
    bytes[0] = 0x12; // tile 0, plane 0, row 0
    bytes[8] = 0x34; // tile 0, plane 1, row 0
    bytes[16 + 5] = 0x56; // tile 1, plane 0, row 5
    bytes[16 + 8 + 5] = 0x78; // tile 1, plane 1, row 5
    let chr = ChrData::from_bytes(bytes).unwrap();
    assert_eq!(chr.plane0_byte(0, 0), 0x12);
    assert_eq!(chr.plane1_byte(0, 0), 0x34);
    assert_eq!(chr.plane0_byte(1, 5), 0x56);
    assert_eq!(chr.plane1_byte(1, 5), 0x78);
}
