use hyperion::image::{Image, ImageViewExt, RawImage, RawImageError};
use hyperion::kitty::{kitty_frame, kitty_from_png};

const FIRST: &[u8] = b"\x1B_Gf=100,a=T,m=";
const NEXT: &[u8] = b"\x1B_Gm=";

#[test]
fn kitty_frame_single_chunk() {
    let out = kitty_frame(b"QUJD");
    assert_eq!(out, b"\x1B_Gf=100,a=T,m=0;QUJD\x1B\\\n".to_vec());
}

#[test]
fn kitty_frame_empty_text_is_new_line() {
    assert_eq!(kitty_frame(b""), b"\n".to_vec());
}

#[test]
fn kitty_frame_exactly_one_full_chunk() {
    let text = vec![b'A'; 4096];
    let out = kitty_frame(&text);
    let mut expected = FIRST.to_vec();
    expected.extend_from_slice(b"0;");
    expected.extend_from_slice(&text);
    expected.extend_from_slice(b"\x1B\\\n");
    assert_eq!(out, expected);
}

#[test]
fn kitty_frame_splits_in_chunks_of_4096() {
    let text: Vec<u8> = (0..9000).map(|i| b"ABCD"[i % 4]).collect();
    let out = kitty_frame(&text);
    let mut expected = FIRST.to_vec();
    expected.extend_from_slice(b"1;");
    expected.extend_from_slice(&text[..4096]);
    expected.extend_from_slice(b"\x1B\\");
    expected.extend_from_slice(NEXT);
    expected.extend_from_slice(b"1;");
    expected.extend_from_slice(&text[4096..8192]);
    expected.extend_from_slice(b"\x1B\\");
    expected.extend_from_slice(NEXT);
    expected.extend_from_slice(b"0;");
    expected.extend_from_slice(&text[8192..]);
    expected.extend_from_slice(b"\x1B\\\n");
    assert_eq!(out, expected);
}

/// Takes the payloads out of a framed stream.
fn payloads(stream: &[u8]) -> Vec<u8> {
    let mut text = Vec::new();
    let mut rest = &stream[..stream.len() - 1];
    while !rest.is_empty() {
        let start = rest.iter().position(|&b| b == b';').unwrap() + 1;
        let end = start + rest[start..].windows(2).position(|w| w == b"\x1B\\").unwrap();
        text.extend_from_slice(&rest[start..end]);
        rest = &rest[end + 2..];
    }
    text
}

#[test]
fn kitty_frame_payloads_give_back_text() {
    let text: Vec<u8> = (0..10000).map(|i| b"xyz="[i % 4]).collect();
    assert_eq!(payloads(&kitty_frame(&text)), text);
}

#[test]
fn kitty_bytes_frames_base64_of_png() {
    let data: Vec<u8> = (0..2 * 2 * 3).map(|i| (i * 20) as u8).collect();
    let img = RawImage::from_raw_parts(data.clone(), 2, 2).unwrap();
    let out = img.kitty_bytes().unwrap();

    let mut png = Vec::new();
    image::codecs::png::PngEncoder::new(&mut png)
        .encode(&data, 2, 2, image::ColorType::Rgb8)
        .unwrap();
    let encoded = base64::encode(&png);
    assert_eq!(out, kitty_frame(encoded.as_bytes()));

    let decoded = base64::decode(payloads(&out)).unwrap();
    assert_eq!(&decoded[..8], b"\x89PNG\r\n\x1a\n");
    assert_eq!(decoded, png);
}

#[test]
fn kitty_bytes_of_large_image_uses_several_chunks() {
    let mut state: u32 = 12345;
    let data: Vec<u8> = (0..64 * 64 * 3)
        .map(|_| {
            state = state.wrapping_mul(1_103_515_245).wrapping_add(12345);
            (state >> 16) as u8
        })
        .collect();
    let img = RawImage::from_raw_parts(data, 64, 64).unwrap();
    let out = img.kitty_bytes().unwrap();
    assert!(out.starts_with(FIRST));
    assert!(out.ends_with(b"\x1B\\\n"));
    let text = payloads(&out);
    assert!(text.len() > 4096);
    assert!(out.windows(NEXT.len()).any(|w| w == NEXT));
    let decoded = base64::decode(text).unwrap();
    assert_eq!(&decoded[1..4], b"PNG");
}

#[test]
fn kitty_bytes_of_zero_width_image_fails_encoding() {
    let img = RawImage::from_raw_parts(vec![0; 12], 2, 2).unwrap();
    let empty = img.wrap(1..1, 0..2).to_raw_image();
    assert!(matches!(empty.kitty_bytes(), Err(RawImageError::Encoding(_))));
}

#[test]
fn kitty_from_png_encodes_base64() {
    assert_eq!(kitty_from_png(b"Man"), kitty_frame(b"TWFu"));
    assert_eq!(kitty_from_png(b"Ma"), kitty_frame(b"TWE="));
    assert_eq!(kitty_from_png(b"M"), kitty_frame(b"TQ=="));
    assert_eq!(kitty_from_png(&[0xFB, 0xFF]), kitty_frame(b"+/8="));
    assert_eq!(kitty_from_png(b""), b"\n".to_vec());
}

#[test]
fn kitty_writes_are_the_pieces_of_the_stream() {
    let mut state: u32 = 7;
    let data: Vec<u8> = (0..48 * 48 * 3)
        .map(|_| {
            state = state.wrapping_mul(1_103_515_245).wrapping_add(12345);
            (state >> 16) as u8
        })
        .collect();
    let img = RawImage::from_raw_parts(data, 48, 48).unwrap();
    let pieces = img.kitty_writes().unwrap();
    assert_eq!(pieces.concat(), img.kitty_bytes().unwrap());
    let n = (pieces.len() - 1) / 5;
    assert!(n >= 2);
    for i in 0..n {
        let p = &pieces[5 * i..5 * i + 5];
        assert_eq!(p[0], if i == 0 { FIRST.to_vec() } else { NEXT.to_vec() });
        assert_eq!(p[1], if i == n - 1 { b"0".to_vec() } else { b"1".to_vec() });
        assert_eq!(p[2], b";".to_vec());
        assert!(!p[3].is_empty() && p[3].len() <= 4096);
        assert_eq!(p[4], b"\x1B\\".to_vec());
    }
    assert_eq!(pieces[pieces.len() - 1], b"\n".to_vec());
}

#[test]
fn kitty_writes_of_zero_height_image_fails_encoding() {
    let img = RawImage::from_raw_parts(vec![0; 12], 2, 2).unwrap();
    let empty = img.wrap(0..2, 1..1).to_raw_image();
    assert!(matches!(empty.kitty_writes(), Err(RawImageError::Encoding(_))));
}

#[test]
fn kitty_payloads_decode_to_png() {
    let data: Vec<u8> = (0..5 * 7 * 3).map(|i| (i * 13 % 256) as u8).collect();
    let img = RawImage::from_raw_parts(data, 5, 7).unwrap();
    let out = img.kitty_bytes().unwrap();
    let png = base64::decode(payloads(&out)).unwrap();
    let decoded = image::load_from_memory(&png).unwrap().to_rgb8();
    assert_eq!(decoded.dimensions(), (5, 7));
    let expected: Vec<u8> = (0..5 * 7 * 3).map(|i| (i * 13 % 256) as u8).collect();
    assert_eq!(decoded.into_raw(), expected);
}
