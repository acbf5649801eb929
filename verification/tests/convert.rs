use libwayshot::convert::{
    convert10_to_8, create_converter, create_copy_converter, create_in_place_converter, ColorType,
    Convert, ConvertCopy, ConvertInPlace, ShmFormat,
};

#[test]
fn convert_create_converter_returns_none_for_unknown_format() {
    // Argb2101010 is not in the supported list (we support Abgr2101010, Xbgr2101010)
    let unsupported = ShmFormat::Argb2101010;
    assert!(create_converter(unsupported).is_none());
}

#[test]
fn convert_create_converter_xbgr8888_returns_some() {
    assert!(create_converter(ShmFormat::Xbgr8888).is_some());
    assert!(create_converter(ShmFormat::Abgr8888).is_some());
}

#[test]
fn convert_create_converter_xrgb8888_returns_some() {
    assert!(create_converter(ShmFormat::Xrgb8888).is_some());
    assert!(create_converter(ShmFormat::Argb8888).is_some());
}

#[test]
fn convert_create_converter_bgr10_returns_some() {
    assert!(create_converter(ShmFormat::Xbgr2101010).is_some());
    assert!(create_converter(ShmFormat::Abgr2101010).is_some());
}

#[test]
fn convert_create_converter_bgr888_returns_some() {
    assert!(create_converter(ShmFormat::Bgr888).is_some());
}

#[test]
fn convert_convert_none_produces_rgba8() {
    let converter = create_converter(ShmFormat::Xbgr8888).unwrap();
    let mut data = vec![0x11, 0x22, 0x33, 0x44];
    let out = converter.convert_inplace(&mut data);
    assert_eq!(out, ColorType::Rgba8);
    assert_eq!(data, vec![0x11, 0x22, 0x33, 0x44]);
}

#[test]
fn convert_convert_rgb8_swaps_r_and_b() {
    let converter = create_converter(ShmFormat::Xrgb8888).unwrap();
    let mut data = vec![0x11, 0x22, 0x33, 0x44];
    let out = converter.convert_inplace(&mut data);
    assert_eq!(out, ColorType::Rgba8);
    assert_eq!(data[0], 0x33);
    assert_eq!(data[1], 0x22);
    assert_eq!(data[2], 0x11);
    assert_eq!(data[3], 0x44);
}

#[test]
fn convert_convert_rgb8_multiple_pixels() {
    let converter = create_converter(ShmFormat::Argb8888).unwrap();
    let mut data = vec![0x11, 0x22, 0x33, 0x44, 0xaa, 0xbb, 0xcc, 0xdd];
    converter.convert_inplace(&mut data);
    assert_eq!(data[0], 0x33);
    assert_eq!(data[2], 0x11);
    assert_eq!(data[4], 0xcc);
    assert_eq!(data[6], 0xaa);
}

#[test]
fn convert_convert_bgr10_produces_rgba8() {
    let converter = create_converter(ShmFormat::Abgr2101010).unwrap();
    let mut data = vec![0x00, 0x00, 0x00, 0xFF];
    let out = converter.convert_inplace(&mut data);
    assert_eq!(out, ColorType::Rgba8);
    assert_eq!(data[3], 255);
}

#[test]
fn convert_convert_bgr888_produces_rgb8() {
    let converter = create_converter(ShmFormat::Bgr888).unwrap();
    let mut data = vec![0x01, 0x02, 0x03];
    let out = converter.convert_inplace(&mut data);
    assert_eq!(out, ColorType::Rgb8);
}

#[test]
fn tests_create_converter_returns_none_for_unknown_format() {
    // Argb2101010 is not in the supported list (we support Abgr2101010, Xbgr2101010)
    let unsupported = ShmFormat::Argb2101010;
    assert!(create_converter(unsupported).is_none());
}

#[test]
fn tests_create_converter_xbgr8888_returns_some() {
    assert!(create_converter(ShmFormat::Xbgr8888).is_some());
    assert!(create_converter(ShmFormat::Abgr8888).is_some());
}

#[test]
fn tests_create_converter_xrgb8888_returns_some() {
    assert!(create_converter(ShmFormat::Xrgb8888).is_some());
    assert!(create_converter(ShmFormat::Argb8888).is_some());
}

#[test]
fn tests_create_converter_bgr10_returns_some() {
    assert!(create_converter(ShmFormat::Xbgr2101010).is_some());
    assert!(create_converter(ShmFormat::Abgr2101010).is_some());
}

#[test]
fn tests_create_converter_bgr888_returns_some() {
    assert!(create_converter(ShmFormat::Bgr888).is_some());
}

#[test]
fn tests_convert_none_produces_rgba8() {
    let converter = create_converter(ShmFormat::Xbgr8888).unwrap();
    let mut data = vec![0x11, 0x22, 0x33, 0x44];
    let out = converter.convert_inplace(&mut data);
    assert_eq!(out, ColorType::Rgba8);
    assert_eq!(data, vec![0x11, 0x22, 0x33, 0x44]);
}

#[test]
fn tests_convert_rgb8_swaps_r_and_b() {
    let converter = create_converter(ShmFormat::Xrgb8888).unwrap();
    let mut data = vec![0x11, 0x22, 0x33, 0x44];
    let out = converter.convert_inplace(&mut data);
    assert_eq!(out, ColorType::Rgba8);
    assert_eq!(data[0], 0x33);
    assert_eq!(data[1], 0x22);
    assert_eq!(data[2], 0x11);
    assert_eq!(data[3], 0x44);
}

#[test]
fn tests_convert_rgb8_multiple_pixels() {
    let converter = create_converter(ShmFormat::Argb8888).unwrap();
    let mut data = vec![0x11, 0x22, 0x33, 0x44, 0xaa, 0xbb, 0xcc, 0xdd];
    converter.convert_inplace(&mut data);
    assert_eq!(data[0], 0x33);
    assert_eq!(data[2], 0x11);
    assert_eq!(data[4], 0xcc);
    assert_eq!(data[6], 0xaa);
}

#[test]
fn tests_convert_bgr10_produces_rgba8() {
    let converter = create_converter(ShmFormat::Abgr2101010).unwrap();
    let mut data = vec![0x00, 0x00, 0x00, 0xFF];
    let out = converter.convert_inplace(&mut data);
    assert_eq!(out, ColorType::Rgba8);
    assert_eq!(data[3], 255);
}

#[test]
fn tests_convert_bgr888_produces_rgb8() {
    let converter = create_converter(ShmFormat::Bgr888).unwrap();
    let mut data = vec![0x01, 0x02, 0x03];
    let out = converter.convert_inplace(&mut data);
    assert_eq!(out, ColorType::Rgb8);
}

#[test]
fn convert_bgr10_black_pixel_gives_black_output() {
    let converter = create_converter(ShmFormat::Abgr2101010).unwrap();
    // All-zero pixel: R=0, G=0, B=0, A=0
    let mut data = vec![0x00u8, 0x00, 0x00, 0x00];
    converter.convert_inplace(&mut data);
    assert_eq!(data[0], 0); // B
    assert_eq!(data[1], 0); // G
    assert_eq!(data[2], 0); // R
    assert_eq!(data[3], 255); // A always 255
}

#[test]
fn convert_bgr10_max_alpha_does_not_affect_output_alpha() {
    let converter = create_converter(ShmFormat::Xbgr2101010).unwrap();
    // Full alpha (top 2 bits), zero RGB
    let mut data = vec![0x00u8, 0x00, 0x00, 0xC0];
    converter.convert_inplace(&mut data);
    assert_eq!(data[3], 255); // alpha is always forced to 255
}

#[test]
fn convert_rgb8_empty_data_no_panic() {
    let converter = create_converter(ShmFormat::Argb8888).unwrap();
    let mut data: Vec<u8> = vec![];
    converter.convert_inplace(&mut data); // should not panic
    assert!(data.is_empty());
}

#[test]
fn convert_none_empty_data_no_panic() {
    let converter = create_converter(ShmFormat::Xbgr8888).unwrap();
    let mut data: Vec<u8> = vec![];
    converter.convert_inplace(&mut data);
    assert!(data.is_empty());
}

#[test]
fn convert10_to_8_keeps_the_top_eight_bits() {
    assert_eq!(convert10_to_8(0), 0);
    assert_eq!(convert10_to_8(0x3ff), 0xff);
    assert_eq!(convert10_to_8(0x200), 0x80);
    assert_eq!(convert10_to_8(0x3), 0);
    // bits above the ten of a channel are dropped
    assert_eq!(convert10_to_8(0x7ff), 0xff);
}

#[test]
fn convert_bgr10_spreads_channels_into_bytes() {
    let converter = create_converter(ShmFormat::Xbgr2101010).unwrap();
    // channels 0x3ff at bit 0, 0x200 at bit 10 and 0x004 at bit 20
    let pixel: u32 = 0x3ff | (0x200 << 10) | (0x004 << 20);
    let mut data = pixel.to_le_bytes().to_vec();
    let out = converter.convert_inplace(&mut data);
    assert_eq!(out, ColorType::Rgba8);
    assert_eq!(data, vec![0xff, 0x80, 0x01, 0xff]);
}

#[test]
fn convert_rgb8_leaves_a_trailing_partial_pixel() {
    let converter = create_converter(ShmFormat::Argb8888).unwrap();
    let mut data = vec![1, 2, 3, 4, 5, 6];
    converter.convert_inplace(&mut data);
    assert_eq!(data, vec![3, 2, 1, 4, 5, 6]);
}

#[test]
fn convert_bgr888_keeps_bytes() {
    let converter = create_converter(ShmFormat::Bgr888).unwrap();
    let mut data = vec![9, 8, 7, 6, 5, 4];
    converter.convert_inplace(&mut data);
    assert_eq!(data, vec![9, 8, 7, 6, 5, 4]);
}

#[test]
fn in_place_converter_of_the_tool_leaves_out_bgr888() {
    assert!(create_in_place_converter(ShmFormat::Bgr888).is_none());
    assert!(create_in_place_converter(ShmFormat::Rgb565).is_none());
    let converter = create_in_place_converter(ShmFormat::Xrgb8888).unwrap();
    let mut data = vec![0x11, 0x22, 0x33, 0x44];
    assert_eq!(converter.convert_in_place(&mut data), ColorType::Rgba8);
    assert_eq!(data, vec![0x33, 0x22, 0x11, 0x44]);
    let none = create_in_place_converter(ShmFormat::Abgr8888).unwrap();
    let mut same = vec![1, 2, 3, 4];
    assert_eq!(none.convert_in_place(&mut same), ColorType::Rgba8);
    assert_eq!(same, vec![1, 2, 3, 4]);
}

#[test]
fn rgb565_copy_converter_expands_channels() {
    assert!(create_copy_converter(ShmFormat::Xrgb8888).is_none());
    let converter = create_copy_converter(ShmFormat::Rgb565).unwrap();
    // white, black and pure red in little endian RGB565
    let data = vec![0xff, 0xff, 0x00, 0x00, 0x00, 0xf8];
    let (color, out) = converter.convert_copy(&data);
    assert_eq!(color, ColorType::Rgba8);
    assert_eq!(out, vec![0xff, 0xff, 0xff, 0xff, 0, 0, 0, 0xff, 0xff, 0, 0, 0xff]);
}

#[test]
fn rgb8_conversion_twice_gives_back_the_bytes() {
    let converter = create_converter(ShmFormat::Argb8888).unwrap();
    let start = vec![1u8, 2, 3, 4, 5, 6, 7, 8, 9];
    let mut data = start.clone();
    converter.convert_inplace(&mut data);
    assert_ne!(data, start);
    converter.convert_inplace(&mut data);
    assert_eq!(data, start);
}

#[test]
fn conversions_keep_the_length() {
    for format in [ShmFormat::Xbgr8888, ShmFormat::Xrgb8888, ShmFormat::Abgr2101010, ShmFormat::Bgr888] {
        let converter = create_converter(format).unwrap();
        let mut data = vec![7u8; 11];
        converter.convert_inplace(&mut data);
        assert_eq!(data.len(), 11);
    }
}

#[test]
fn rgb565_expansion_keeps_black_and_full_intensity() {
    let converter = create_copy_converter(ShmFormat::Rgb565).unwrap();
    let (_, black) = converter.convert_copy(&[0x00, 0x00]);
    assert_eq!(black, vec![0, 0, 0, 0xff]);
    let (_, white) = converter.convert_copy(&[0xff, 0xff]);
    assert_eq!(white, vec![0xff, 0xff, 0xff, 0xff]);
    // a trailing odd byte makes no pixel
    let (_, one) = converter.convert_copy(&[0xff, 0xff, 0x12]);
    assert_eq!(one.len(), 4);
}

#[test]
fn tool_and_library_converters_agree() {
    for format in [
        ShmFormat::Xbgr8888,
        ShmFormat::Abgr8888,
        ShmFormat::Xrgb8888,
        ShmFormat::Argb8888,
        ShmFormat::Xbgr2101010,
        ShmFormat::Abgr2101010,
    ] {
        let mut a = vec![0x12u8, 0x34, 0x56, 0x78, 0x9a, 0xbc, 0xde, 0xf0];
        let mut b = a.clone();
        let ca = create_converter(format).unwrap().convert_inplace(&mut a);
        let cb = create_in_place_converter(format).unwrap().convert_in_place(&mut b);
        assert_eq!(ca, cb, "colour type for {format:?}");
        assert_eq!(a, b, "bytes for {format:?}");
    }
}
