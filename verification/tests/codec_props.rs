use avif2png::codec::{encode_png, DecodedImage};

const PNG_SIGNATURE: [u8; 8] = [137, 80, 78, 71, 13, 10, 26, 10];

#[test]
fn gray8_pixel_becomes_a_png() {
    let img = DecodedImage::Gray8 { samples: vec![200], width: 1, height: 1 };
    let png = encode_png(&img).unwrap();
    assert_eq!(&png[..8], &PNG_SIGNATURE);
    match lodepng::decode_memory(&png, lodepng::ColorType::GREY, 8).unwrap() {
        lodepng::Image::Grey(bitmap) => {
            assert_eq!(bitmap.width, 1);
            assert_eq!(bitmap.height, 1);
            assert_eq!(bitmap.buffer[0].0, 200);
        },
        _ => panic!("decoded to an unexpected layout"),
    }
}

#[test]
fn rgb8_pixels_round_trip() {
    let img = DecodedImage::Rgb8 {
        samples: vec![10, 20, 30, 40, 50, 60],
        width: 2,
        height: 1,
    };
    let png = encode_png(&img).unwrap();
    assert_eq!(&png[..8], &PNG_SIGNATURE);
    match lodepng::decode_memory(&png, lodepng::ColorType::RGB, 8).unwrap() {
        lodepng::Image::RGB(bitmap) => {
            assert_eq!(bitmap.width, 2);
            assert_eq!(bitmap.height, 1);
            assert_eq!(bitmap.buffer[0], lodepng::RGB::new(10, 20, 30));
            assert_eq!(bitmap.buffer[1], lodepng::RGB::new(40, 50, 60));
        },
        _ => panic!("decoded to an unexpected layout"),
    }
}

#[test]
fn gray16_sample_keeps_its_value_through_byte_packing() {
    // The sample leaves the machine in big-endian order; coming back it
    // must read as the same number on any machine.
    let img = DecodedImage::Gray16 { samples: vec![0x0102], width: 1, height: 1 };
    let png = encode_png(&img).unwrap();
    assert_eq!(&png[..8], &PNG_SIGNATURE);
    match lodepng::decode_memory(&png, lodepng::ColorType::GREY, 16).unwrap() {
        lodepng::Image::Grey16(bitmap) => {
            assert_eq!(bitmap.width, 1);
            assert_eq!(bitmap.height, 1);
            // lodepng hands 16-bit samples back as raw big-endian storage.
            assert_eq!(u16::from_be(bitmap.buffer[0].0), 0x0102);
        },
        _ => panic!("decoded to an unexpected layout"),
    }
}

#[test]
fn zero_size_image_is_rejected_by_the_encoder() {
    let img = DecodedImage::Gray8 { samples: Vec::new(), width: 0, height: 0 };
    assert!(encode_png(&img).is_err());
}

#[test]
fn rgba16_pixels_round_trip() {
    let img = DecodedImage::Rgba16 {
        samples: vec![0xFFEE, 0x0001, 0x8000, 0x1234],
        width: 1,
        height: 1,
    };
    let png = encode_png(&img).unwrap();
    match lodepng::decode_memory(&png, lodepng::ColorType::RGBA, 16).unwrap() {
        lodepng::Image::RGBA16(bitmap) => {
            // lodepng hands 16-bit samples back as raw big-endian storage.
            let px = bitmap.buffer[0];
            assert_eq!(u16::from_be(px.r), 0xFFEE);
            assert_eq!(u16::from_be(px.g), 0x0001);
            assert_eq!(u16::from_be(px.b), 0x8000);
            assert_eq!(u16::from_be(px.a), 0x1234);
        },
        _ => panic!("decoded to an unexpected layout"),
    }
}
