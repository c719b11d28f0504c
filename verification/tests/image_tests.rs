use zkfp::image::Base64Export;
use zkfp::image::encode_base64;
use zkfp::image::{
    convert_bmp_to_raw, convert_raw_to_bmp, detect_background, detect_finger_presence,
    is_wsq_path, parse_output_format, ContrastMethod, EnhanceConfig, GrayImage, ImageError,
    OutputFormat,
};

fn make_test_image(w: u32, h: u32, val: u8) -> GrayImage {
    GrayImage::from_raw(vec![val; (w * h) as usize], w, h).unwrap()
}

fn make_gradient_image(w: u32, h: u32) -> GrayImage {
    let mut data = vec![0u8; (w * h) as usize];
    for y in 0..h {
        for x in 0..w {
            let stripe = ((x / 8) % 2) as u8;
            data[(y * w + x) as usize] = if stripe == 0 { 40 } else { 200 };
        }
    }
    GrayImage::from_raw(data, w, h).unwrap()
}

#[test]
fn test_gray_image_create() {
    let img = make_test_image(300, 375, 128);
    assert_eq!(img.width(), 300);
    assert_eq!(img.height(), 375);
    assert_eq!(img.pixel(0, 0), 128);
}

#[test]
fn test_gray_image_pixel_access() {
    let mut img = make_test_image(10, 10, 0);
    img.set_pixel(5, 5, 200);
    assert_eq!(img.pixel(5, 5), 200);
    assert_eq!(img.pixel(0, 0), 0);
}

#[test]
fn test_resize() {
    let img = make_test_image(300, 375, 128);
    let resized = img.resize(128, 144);
    assert_eq!(resized.width(), 128);
    assert_eq!(resized.height(), 144);
}

#[test]
fn test_detect_background() {
    let img = make_gradient_image(300, 375);
    let bg = detect_background(&img);
    assert_eq!(bg.width, 300);
    assert_eq!(bg.height, 375);
    let fg_count = bg.mask.iter().filter(|&&b| b).count();
    assert!(fg_count < bg.mask.len(), "Should have some background pixels");
}

#[test]
fn test_detect_finger_presence() {
    let mut finger_data = vec![0; 300 * 375];
    for i in 0..finger_data.len() {
        finger_data[i] = if i % 2 == 0 { 50 } else { 200 };
    }
    assert!(detect_finger_presence(&finger_data, 300, 375));

    let empty_data = vec![240; 300 * 375];
    assert!(!detect_finger_presence(&empty_data, 300, 375));
}

#[test]
fn from_raw_refuses_wrong_length() {
    match GrayImage::from_raw(vec![0u8; 5], 2, 2) {
        Err(ImageError::InvalidDimensions { width, height }) => {
            assert_eq!((width, height), (2, 2));
        }
        other => panic!("unexpected {:?}", other.map(|i| i.width())),
    }
}

#[test]
fn new_image_is_white() {
    let img = GrayImage::new(3, 2);
    assert_eq!(img.data(), &[255u8; 6][..]);
}

#[test]
fn invert_twice_is_identity() {
    let img = GrayImage::from_raw(vec![0, 10, 200, 255], 2, 2).unwrap();
    let inv = img.invert();
    assert_eq!(inv.data(), &[255, 245, 55, 0]);
    assert_eq!(inv.invert().data(), img.data());
}

#[test]
fn flip_reverses_rows_and_twice_is_identity() {
    let img = GrayImage::from_raw(vec![1, 2, 3, 4, 5, 6], 2, 3).unwrap();
    let f = img.flip_vertical();
    assert_eq!(f.data(), &[5, 6, 3, 4, 1, 2]);
    assert_eq!(f.flip_vertical().data(), img.data());
}

#[test]
fn stretch_maps_min_to_zero_and_max_to_top() {
    let img = GrayImage::from_raw(vec![50, 100, 150, 250], 2, 2).unwrap();
    let s = img.contrast_stretch(200);
    // (p - 50) * 200 + 100) / 200
    assert_eq!(s.data(), &[0, 50, 100, 200]);
    let flat = GrayImage::from_raw(vec![210, 210], 2, 1).unwrap();
    assert_eq!(flat.contrast_stretch(200).data(), &[200, 200]);
    let empty = GrayImage::from_raw(vec![], 0, 5).unwrap();
    assert_eq!(empty.contrast_stretch(200).data().len(), 0);
}

#[test]
fn darken_curve_values() {
    let img = GrayImage::from_raw(vec![0, 100, 200, 201, 255], 5, 1).unwrap();
    let d = img.darken_ridges(255);
    // floor = 255 * 240 / 255 = 240, span = 15
    assert_eq!(d.data(), &[0, 40, 80, 240, 255]);
    let d2 = img.darken_ridges(128);
    // floor = 128 * 240 / 255 = 120, span = 8; 201 -> 120 + 8/55 = 120
    assert_eq!(d2.data(), &[0, 40, 80, 120, 128]);
}

#[test]
fn pad_adds_white_frame() {
    let img = GrayImage::from_raw(vec![7], 1, 1).unwrap();
    let p = img.pad_with_white(1);
    assert_eq!((p.width(), p.height()), (3, 3));
    assert_eq!(p.data(), &[255, 255, 255, 255, 7, 255, 255, 255, 255]);
    assert_eq!(img.pad_with_white(0).data(), img.data());
}

#[test]
fn enhance_default_darkens() {
    let img = GrayImage::from_raw(vec![0, 100, 255], 3, 1).unwrap();
    assert_eq!(img.enhance_fingerprint().data(), &[0, 40, 255]);
    let cfg = EnhanceConfig::default();
    assert!(cfg.apply_enhancement);
    assert_eq!(cfg.method, ContrastMethod::Darken);
    assert_eq!(cfg.bg_intensity, 255);
    assert_eq!(cfg.padding, 0);
}

#[test]
fn enhance_with_all_steps() {
    let img = GrayImage::from_raw(vec![0, 255], 1, 2).unwrap();
    let cfg = EnhanceConfig {
        apply_enhancement: true,
        method: ContrastMethod::Stretch,
        bg_intensity: 100,
        invert: true,
        flip_vertical: true,
        padding: 1,
    };
    let out = img.enhance_with_config(cfg);
    assert_eq!((out.width(), out.height()), (3, 4));
    // inverted [255, 0] -> stretched [100, 0] -> padded -> flipped
    assert_eq!(
        out.data(),
        &[255, 255, 255, 255, 0, 255, 255, 100, 255, 255, 255, 255]
    );
    let off = EnhanceConfig { apply_enhancement: false, ..cfg };
    assert_eq!(img.enhance_with_config(off).data(), img.data());
}

#[test]
fn resize_same_size_keeps_pixels() {
    let img = GrayImage::from_raw(vec![1, 2, 3, 4, 5, 6], 3, 2).unwrap();
    let r = img.resize(3, 2);
    assert_eq!(r.data(), img.data());
    let empty = GrayImage::from_raw(vec![], 0, 0).unwrap();
    let r2 = empty.resize(2, 2);
    assert_eq!(r2.data(), &[0, 0, 0, 0]);
}

#[test]
fn bmp_round_trip() {
    let img = GrayImage::from_raw(vec![0, 64, 128, 255, 10, 20], 3, 2).unwrap();
    let bmp = convert_raw_to_bmp(&img);
    assert_eq!(&bmp[0..2], b"BM");
    // 1078 bytes of headers and palette, rows padded to 4 bytes
    assert_eq!(bmp.len(), 1078 + 4 * 2);
    let back = convert_bmp_to_raw(&bmp).unwrap();
    assert_eq!((back.width(), back.height()), (3, 2));
    assert_eq!(back.data(), img.data());
    let b64 = img.to_base64_bmp();
    assert!(b64.starts_with("Qk"));
}

#[test]
fn decode_garbage_is_decode_error() {
    match GrayImage::from_bmp(&[1, 2, 3, 4]) {
        Err(ImageError::Decode(_)) => {}
        other => panic!("unexpected {:?}", other.map(|i| i.width())),
    }
}

#[test]
fn png_encoding() {
    let img = GrayImage::from_raw(vec![9, 8, 7, 6], 2, 2).unwrap();
    let png = img.to_png().unwrap();
    assert_eq!(&png[1..4], b"PNG");
    let back = GrayImage::from_bmp(&png).unwrap();
    assert_eq!(back.data(), img.data());
    let b64 = img.to_base64_png().unwrap();
    assert!(b64.starts_with("iVBOR"));
    let empty = GrayImage::from_raw(vec![], 0, 3).unwrap();
    assert!(empty.to_png().is_none());
    assert!(empty.to_base64_png().is_none());
}

#[test]
fn wsq_paths() {
    assert!(is_wsq_path("finger.wsq"));
    assert!(is_wsq_path("/tmp/a/Finger.WSQ"));
    assert!(is_wsq_path("dir/x.wsq/"));
    assert!(!is_wsq_path(".wsq"));
    assert!(!is_wsq_path("finger.bmp"));
    assert!(!is_wsq_path("wsq"));
    assert!(!is_wsq_path("a.wsq/.."));
    assert!(!is_wsq_path(""));
}

#[test]
fn output_formats() {
    assert_eq!(parse_output_format("PNG").unwrap(), OutputFormat::Png);
    assert_eq!(parse_output_format("bmp").unwrap(), OutputFormat::Bmp);
    assert_eq!(parse_output_format("Wsq").unwrap(), OutputFormat::Wsq);
    match parse_output_format("TIFF") {
        Err(ImageError::Wsq(m)) => assert_eq!(m, "Unsupported output format: tiff"),
        other => panic!("unexpected {:?}", other),
    }
}

#[test]
fn background_block_decision() {
    // one dark textured 8x8 block, the rest flat white
    let mut data = vec![255u8; 16 * 8];
    for y in 0..8 {
        for x in 0..8 {
            data[y * 16 + x] = if (x + y) % 2 == 0 { 20 } else { 120 };
        }
    }
    let img = GrayImage::from_raw(data, 16, 8).unwrap();
    let bg = detect_background(&img);
    assert!(bg.is_foreground(0, 0));
    assert!(bg.is_foreground(7, 7));
    assert!(!bg.is_foreground(8, 0));
    let mut m = bg.clone();
    m.set(8, 0, true);
    assert!(m.is_foreground(8, 0));
}

#[test]
fn finger_presence_empty_is_false() {
    assert!(!detect_finger_presence(&[], 0, 0));
}

#[test]
fn data_mut_writes_through_to_pixels() {
    let mut img = make_test_image(4, 3, 10);
    {
        let buf = img.data_mut();
        assert_eq!(buf.len(), 12);
        buf[4 * 2 + 1] = 77;
    }
    assert_eq!(img.pixel(1, 2), 77);
    assert_eq!(img.pixel(0, 0), 10);
    assert_eq!(img.width(), 4);
    assert_eq!(img.height(), 3);
}

#[test]
fn base64_known_vectors() {
    assert_eq!(encode_base64(b"Man"), "TWFu");
    assert_eq!(encode_base64(b"Ma"), "TWE=");
    assert_eq!(encode_base64(b"M"), "TQ==");
    assert_eq!(encode_base64(b""), "");
}

#[test]
fn bmp_round_trip_every_level() {
    let pixels: Vec<u8> = (0..=255u8).collect();
    let img = GrayImage::from_raw(pixels, 16, 16).unwrap();
    let back = convert_bmp_to_raw(&convert_raw_to_bmp(&img)).unwrap();
    assert_eq!((back.width(), back.height()), (16, 16));
    assert_eq!(back.data(), img.data());
    let odd: Vec<u8> = (0..35u32).map(|i| (i * 7 % 256) as u8).collect();
    let img = GrayImage::from_raw(odd, 7, 5).unwrap();
    let back = convert_bmp_to_raw(&convert_raw_to_bmp(&img)).unwrap();
    assert_eq!(back.data(), img.data());
}

#[test]
fn base64_export_by_format() {
    let img = GrayImage::from_raw(vec![9, 8, 7, 6], 2, 2).unwrap();
    match img.to_base64_with_format("PNG") {
        Ok(Base64Export::Text(t)) => assert!(t.starts_with("iVBOR")),
        other => panic!("unexpected {:?}", other.is_ok()),
    }
    match img.to_base64_with_format("bmp") {
        Ok(Base64Export::Text(t)) => assert_eq!(t, img.to_base64_bmp()),
        other => panic!("unexpected {:?}", other.is_ok()),
    }
    assert!(matches!(img.to_base64_with_format("Wsq"), Ok(Base64Export::Wsq)));
    match img.to_base64_with_format("GIF") {
        Err(ImageError::Wsq(m)) => assert_eq!(m, "Unsupported output format: gif"),
        other => panic!("unexpected {:?}", other.is_ok()),
    }
}
