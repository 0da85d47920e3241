use particles::pixel::{
    Colour, MaterialType, Pixel, UnpackedPixel, FILL_LEVEL_MASK, FILL_LEVEL_SHIFT,
    MATERIAL_TYPE_MASK,
};

fn materials() -> Vec<MaterialType> {
    vec![
        MaterialType::Nothing,
        MaterialType::Sand,
        MaterialType::Water,
        MaterialType::Concrete,
    ]
}

#[test]
fn round_trip_every_material_and_fill_level() {
    for material_type in materials() {
        for fill_level in 0..=255u8 {
            let unpacked = UnpackedPixel { material_type, fill_level };
            let packed = Pixel::pack(unpacked);
            assert_eq!(packed.unpack(), unpacked);
        }
    }
}

#[test]
fn pack_puts_material_in_byte_0_and_fill_in_byte_1() {
    let sand = Pixel::pack(UnpackedPixel { material_type: MaterialType::Sand, fill_level: 7 });
    assert_eq!(sand.0, 0x0000_0000_0000_0701);
    let water = Pixel::pack(UnpackedPixel { material_type: MaterialType::Water, fill_level: 0 });
    assert_eq!(water.0, 2);
    let concrete =
        Pixel::pack(UnpackedPixel { material_type: MaterialType::Concrete, fill_level: 255 });
    assert_eq!(concrete.0, 0x0000_0000_0000_FF03);
    assert_eq!(concrete.0, 65283);
    let nothing =
        Pixel::pack(UnpackedPixel { material_type: MaterialType::Nothing, fill_level: 128 });
    assert_eq!(nothing.0, 0x8000);
}

#[test]
fn pack_leaves_the_reserved_bytes_zero() {
    for material_type in materials() {
        for fill_level in 0..=255u8 {
            let packed = Pixel::pack(UnpackedPixel { material_type, fill_level });
            assert_eq!(packed.0 >> 16, 0);
        }
    }
}

#[test]
fn blank_is_the_zero_word() {
    let blank = Pixel::blank();
    assert_eq!(blank.0, 0);
    assert_eq!(blank.material_type_raw(), 0);
    assert_eq!(blank.fill_level_raw(), 0);
    assert_eq!(
        blank.unpack(),
        UnpackedPixel { material_type: MaterialType::Nothing, fill_level: 0 }
    );
}

#[test]
fn raw_accessors_read_one_byte_each() {
    let pixel = Pixel(0x0000_0000_0000_0A02);
    assert_eq!(pixel.material_type_raw(), 2);
    assert_eq!(pixel.fill_level_raw(), 10);
    let noisy = Pixel(0xFFFF_FFFF_FFFF_0501);
    assert_eq!(noisy.material_type_raw(), 1);
    assert_eq!(noisy.fill_level_raw(), 5);
    let unknown = Pixel(0x0000_0000_0000_01FF);
    assert_eq!(unknown.material_type_raw(), 255);
    assert_eq!(unknown.fill_level_raw(), 1);
}

#[test]
fn unpack_ignores_the_reserved_bytes() {
    let noisy = Pixel(0xABCD_0000_0000_2003);
    assert_eq!(
        noisy.unpack(),
        UnpackedPixel { material_type: MaterialType::Concrete, fill_level: 0x20 }
    );
}

#[test]
fn masks_and_shift_describe_the_layout() {
    assert_eq!(MATERIAL_TYPE_MASK, 0xFF);
    assert_eq!(FILL_LEVEL_MASK, 0xFF00);
    assert_eq!(FILL_LEVEL_SHIFT, 8);
}

#[test]
fn material_codes() {
    assert_eq!(MaterialType::from_u8(0), MaterialType::Nothing);
    assert_eq!(MaterialType::from_u8(1), MaterialType::Sand);
    assert_eq!(MaterialType::from_u8(2), MaterialType::Water);
    assert_eq!(MaterialType::from_u8(3), MaterialType::Concrete);
    assert_eq!(MaterialType::Nothing.to_u8(), 0);
    assert_eq!(MaterialType::Sand.to_u8(), 1);
    assert_eq!(MaterialType::Water.to_u8(), 2);
    assert_eq!(MaterialType::Concrete.to_u8(), 3);
    for code in 0..=3u8 {
        assert_eq!(MaterialType::from_u8(code).to_u8(), code);
    }
}

#[test]
fn material_colours() {
    assert_eq!(
        MaterialType::Sand.as_colour(),
        Colour { r: 1000, g: 741, b: 291, a: 1000 }
    );
    assert_eq!(MaterialType::Water.as_colour(), Colour { r: 0, g: 0, b: 1000, a: 1000 });
    assert_eq!(
        MaterialType::Concrete.as_colour(),
        Colour { r: 500, g: 500, b: 500, a: 1000 }
    );
    assert_eq!(
        MaterialType::Nothing.as_colour(),
        Colour { r: 1000, g: 1000, b: 1000, a: 1000 }
    );
}

#[test]
fn colours_in_thousandths_give_the_float_channels() {
    let sand = MaterialType::Sand.as_colour();
    assert_eq!(sand.r as f32 / 1000.0, 1.0f32);
    assert_eq!(sand.g as f32 / 1000.0, 0.741f32);
    assert_eq!(sand.b as f32 / 1000.0, 0.291f32);
    assert_eq!(sand.a as f32 / 1000.0, 1.0f32);
    let concrete = MaterialType::Concrete.as_colour();
    assert_eq!(concrete.r as f32 / 1000.0, 0.5f32);
}

#[test]
fn only_water_is_fluid() {
    assert!(MaterialType::Water.fluid());
    assert!(!MaterialType::Sand.fluid());
    assert!(!MaterialType::Concrete.fluid());
    assert!(!MaterialType::Nothing.fluid());
}
