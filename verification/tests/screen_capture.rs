use base64::Engine;
use clicky_companion::capture::{captured_screen_from_jpeg, encode_captured_screen, RgbaFrame};
use clicky_companion::errors::CaptureError;
use clicky_companion::monitors::MonitorInfo;

fn monitor() -> MonitorInfo {
    MonitorInfo {
        handle: 0,
        id: 9,
        name: "main".to_string(),
        x: -10,
        y: 20,
        width: 3000,
        height: 2000,
        scale_factor_bits: 2.0f64.to_bits(),
        is_primary: true,
    }
}

fn jpeg_size(bytes: &[u8]) -> (u32, u32) {
    let mut i = 2;
    while i + 9 < bytes.len() {
        assert_eq!(bytes[i], 0xff);
        let marker = bytes[i + 1];
        let len = ((bytes[i + 2] as usize) << 8) | bytes[i + 3] as usize;
        if (0xc0..=0xc3).contains(&marker) {
            let h = ((bytes[i + 5] as u32) << 8) | bytes[i + 6] as u32;
            let w = ((bytes[i + 7] as u32) << 8) | bytes[i + 8] as u32;
            return (w, h);
        }
        i += 2 + len;
    }
    panic!("no frame header");
}

#[test]
fn record_holds_base64_of_the_jpeg() {
    let m = monitor();
    let s = captured_screen_from_jpeg(3, &m, Ok(b"Man".to_vec())).ok().unwrap();
    assert_eq!(s.jpeg_base64, "TWFu");
    assert_eq!((s.index, s.x, s.y, s.width, s.height), (3, -10, 20, 3000, 2000));
    assert_eq!(f64::from_bits(s.scale_factor_bits), 2.0);
    let s = captured_screen_from_jpeg(0, &m, Ok(vec![0x4d])).ok().unwrap();
    assert_eq!(s.jpeg_base64, "TQ==");
    let s = captured_screen_from_jpeg(0, &m, Ok(vec![0x4d, 0x61])).ok().unwrap();
    assert_eq!(s.jpeg_base64, "TWE=");
    let s = captured_screen_from_jpeg(0, &m, Ok(vec![0xfb, 0xff, 0xbf, 0x00])).ok().unwrap();
    assert_eq!(s.jpeg_base64, "+/+/AA==");
    let s = captured_screen_from_jpeg(0, &m, Ok(vec![])).ok().unwrap();
    assert_eq!(s.jpeg_base64, "");
}

#[test]
fn encode_error_is_reported() {
    match captured_screen_from_jpeg(0, &monitor(), Err("boom".to_string())) {
        Err(CaptureError::Encode(m)) => assert_eq!(m, "boom"),
        _ => panic!("expected an encode error"),
    }
    assert_eq!(CaptureError::Encode("boom".to_string()).message(), "encode: boom");
    assert_eq!(CaptureError::XCap("denied".to_string()).message(), "xcap: denied");
}

#[test]
fn narrow_capture_is_encoded_at_full_size() {
    let frame = RgbaFrame { width: 64, height: 32, pixels: vec![200u8; 64 * 32 * 4] };
    let s = encode_captured_screen(1, &monitor(), frame, 1).ok().unwrap();
    let jpeg = base64::engine::general_purpose::STANDARD.decode(&s.jpeg_base64).unwrap();
    assert_eq!(&jpeg[..3], &[0xff, 0xd8, 0xff]);
    assert_eq!(jpeg_size(&jpeg), (64, 32));
    assert_eq!(s.index, 1);
}

#[test]
fn wide_capture_is_scaled_to_1280() {
    let frame = RgbaFrame { width: 2560, height: 40, pixels: vec![90u8; 2560 * 40 * 4] };
    let s = encode_captured_screen(0, &monitor(), frame, 20).ok().unwrap();
    let jpeg = base64::engine::general_purpose::STANDARD.decode(&s.jpeg_base64).unwrap();
    assert_eq!(jpeg_size(&jpeg), (1280, 20));
}
