use ta_assets::error::DecodeError;
use ta_assets::palette::{colour_name, Palette, Rgb};

#[test]
fn standard_palette_is_the_uniform_cube() {
    let palette = Palette::standard();
    assert_eq!(palette.colour(0), Ok(Rgb { r: 0, g: 0, b: 0 }));
    assert_eq!(palette.colour(1), Ok(Rgb { r: 0, g: 0, b: 85 }));
    assert_eq!(palette.colour(3), Ok(Rgb { r: 0, g: 0, b: 255 }));
    assert_eq!(palette.colour(4), Ok(Rgb { r: 0, g: 36, b: 0 }));
    assert_eq!(palette.colour(5), Ok(Rgb { r: 0, g: 36, b: 85 }));
    assert_eq!(palette.colour(7), Ok(Rgb { r: 0, g: 36, b: 255 }));
    assert_eq!(palette.colour(28), Ok(Rgb { r: 0, g: 255, b: 0 }));
    assert_eq!(palette.colour(32), Ok(Rgb { r: 36, g: 0, b: 0 }));
    assert_eq!(palette.colour(96), Ok(Rgb { r: 109, g: 0, b: 0 }));
    assert_eq!(palette.colour(224), Ok(Rgb { r: 255, g: 0, b: 0 }));
    assert_eq!(palette.colour(255), Ok(Rgb { r: 255, g: 255, b: 255 }));
}

#[test]
fn every_index_maps_to_one_fixed_colour() {
    let first = Palette::standard();
    let second = Palette::standard();
    for index in 0u32..256 {
        let colour = first.colour(index).unwrap();
        assert_eq!(second.colour(index), Ok(colour));
        let red = (index / 32) * 255 / 7;
        let green = ((index / 4) % 8) * 255 / 7;
        let blue = (index % 4) * 85;
        assert_eq!(colour, Rgb { r: red as u8, g: green as u8, b: blue as u8 });
        assert_eq!(colour_name(colour), colour_name(second.colour(index).unwrap()));
    }
}

#[test]
fn index_beyond_the_palette_is_unknown() {
    let palette = Palette::standard();
    assert_eq!(palette.colour(256), Err(DecodeError::UnknownPaletteIndex));
    assert_eq!(palette.colour(u32::MAX), Err(DecodeError::UnknownPaletteIndex));
}

#[test]
fn palette_from_bytes_takes_three_bytes_an_entry() {
    let mut bytes = Vec::new();
    for i in 0u32..256 {
        bytes.push(i as u8);
        bytes.push((255 - i) as u8);
        bytes.push((i / 2) as u8);
    }
    let palette = Palette::from_rgb_bytes(&bytes).unwrap();
    assert_eq!(palette.colour(0), Ok(Rgb { r: 0, g: 255, b: 0 }));
    assert_eq!(palette.colour(7), Ok(Rgb { r: 7, g: 248, b: 3 }));
    assert_eq!(palette.colour(255), Ok(Rgb { r: 255, g: 0, b: 127 }));
    assert_eq!(palette.colour(256), Err(DecodeError::UnknownPaletteIndex));
}

#[test]
fn palette_from_bytes_wants_768_bytes() {
    assert!(Palette::from_rgb_bytes(&[]).is_none());
    assert!(Palette::from_rgb_bytes(&[0u8; 767]).is_none());
    assert!(Palette::from_rgb_bytes(&[0u8; 769]).is_none());
    assert!(Palette::from_rgb_bytes(&[0u8; 1024]).is_none());
    assert!(Palette::from_rgb_bytes(&[0u8; 768]).is_some());
}

#[test]
fn colour_name_is_the_hexadecimal_triple() {
    assert_eq!(colour_name(Rgb { r: 0, g: 0, b: 0 }), b"colour_000000".to_vec());
    assert_eq!(colour_name(Rgb { r: 255, g: 255, b: 255 }), b"colour_ffffff".to_vec());
    assert_eq!(colour_name(Rgb { r: 0, g: 36, b: 85 }), b"colour_002455".to_vec());
    assert_eq!(colour_name(Rgb { r: 0x1a, g: 0xb0, b: 0x09 }), b"colour_1ab009".to_vec());
}

#[test]
fn colour_names_tell_colours_apart() {
    let mut seen = std::collections::HashSet::new();
    for r in (0u32..256).step_by(5) {
        for g in (0u32..256).step_by(17) {
            for b in (0u32..256).step_by(3) {
                let name = colour_name(Rgb { r: r as u8, g: g as u8, b: b as u8 });
                assert_eq!(name.len(), 13);
                assert!(seen.insert(name));
            }
        }
    }
}
