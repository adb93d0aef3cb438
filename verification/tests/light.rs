use lifx_core::{BuildOptions, Message};
use motion_sensor_lifx::fade_target;
use motion_sensor_lifx::light::{
    color_update, decode_message, encode_message, frame_ok_check, matches_fade, raw_message,
    Color, LightError, MIN,
};

#[test]
fn test_matches_fade() {
    let zero = Color {
        hue: 0,
        saturation: 0,
        brightness: 0,
        kelvin: 3500,
    };
    let full = Color {
        hue: 0xFFFF,
        saturation: 0xFFFF,
        brightness: 0xFFFF,
        kelvin: 3500,
    };
    let half = Color {
        hue: 0x7FFF,
        saturation: 0x7FFF,
        brightness: 0x7FFF,
        kelvin: 3500,
    };
    let res1 = matches_fade(zero, full, half, 5000, 10000);
    assert!(res1, "fading color from 0 to 0xFFFF at 50% is ~0x7FFF");

    let res2 = matches_fade(zero, full, half, 8000, 10000);
    assert!(!res2, "fading color from 0 to 0xFFFF at 80% is not ~0x7FFF");

    let res3 = matches_fade(full, zero, full, 0, 10000);
    assert!(res3, "fading color from 0xFFFF to 0 at 0% is 0xFFFF");
}

#[test]
fn test_fade_at_target_always_matches() {
    // a fade whose observed color equals the target matches at any time
    let before = Color {
        hue: 100,
        saturation: 200,
        brightness: 300,
        kelvin: 4000,
    };
    let target = Color {
        hue: 60000,
        saturation: 1,
        brightness: 65535,
        kelvin: 2500,
    };
    assert!(matches_fade(before, target, target, 123_456, 999));
    assert!(matches_fade(before, target, target, 0, 1));
}

#[test]
fn test_constant_fade_always_matches() {
    // zero swing on all channels always matches
    let c = Color {
        hue: 4321,
        saturation: 9999,
        brightness: 12345,
        kelvin: 3500,
    };
    assert!(matches_fade(c, c, c, 7, 10));
    assert!(matches_fade(c, c, c, 10_000_000, 1));
}

#[test]
fn test_fade_tolerance_boundary() {
    // one channel fading 0 -> 20000 over 10s; at 5s the expected value is
    // 10000 and 5% of the swing is 1000
    let before = Color {
        hue: 0,
        saturation: 0,
        brightness: 0,
        kelvin: 3500,
    };
    let target = Color {
        hue: 20000,
        saturation: 0,
        brightness: 0,
        kelvin: 3500,
    };
    let just_inside = Color {
        hue: 9000,
        saturation: 0,
        brightness: 0,
        kelvin: 3500,
    };
    let just_outside = Color {
        hue: 8999,
        saturation: 0,
        brightness: 0,
        kelvin: 3500,
    };
    assert!(matches_fade(before, target, just_inside, 5000, 10000));
    assert!(!matches_fade(before, target, just_outside, 5000, 10000));
}

#[test]
fn test_fade_clamps_overlong_elapsed() {
    // an elapsed time past the total counts as a finished fade
    let before = Color {
        hue: 0,
        saturation: 0,
        brightness: 0,
        kelvin: 3500,
    };
    let target = Color {
        hue: 0,
        saturation: 0,
        brightness: 40000,
        kelvin: 3500,
    };
    let near_target = Color {
        hue: 0,
        saturation: 0,
        brightness: 39000,
        kelvin: 3500,
    };
    assert!(matches_fade(before, target, near_target, 99_000, 10_000));
}

#[test]
fn test_fade_target_drops_brightness() {
    let c = Color {
        hue: 1111,
        saturation: 2222,
        brightness: 65535,
        kelvin: 3456,
    };
    let faded = fade_target(c);
    assert_eq!(faded.brightness, MIN);
    assert_eq!(faded.brightness, 328);
    assert_eq!(faded.hue, 1111);
    assert_eq!(faded.saturation, 2222);
    assert_eq!(faded.kelvin, 3456);
}

#[test]
fn test_color_update() {
    let a = Color {
        hue: 1,
        saturation: 2,
        brightness: 3,
        kelvin: 4,
    };
    let b = Color {
        hue: 1,
        saturation: 2,
        brightness: 9,
        kelvin: 4,
    };
    assert_eq!(color_update(a, a), None);
    assert_eq!(color_update(a, b), Some(b));
}

#[test]
fn test_raw_message() {
    let message = Message::LightSetPower {
        level: 0xFF,
        duration: 0,
    };
    let raw_message = raw_message(&BuildOptions::default(), message).unwrap();
    raw_message.validate();
    assert_eq!(raw_message.packed_size(), 42);
    assert_eq!(
        raw_message.pack().unwrap(),
        vec![
            42, 0, 0, 52, 0, 0, 0, 0, 0, 0, 0, 0, 0, 0, 0, 0, 0, 0, 0, 0, 0, 0, 0, 0, 0, 0, 0,
            0, 0, 0, 0, 0, 117, 0, 0, 0, 255, 255, 0, 0, 0, 0
        ]
    );
}

#[test]
fn test_codec_round_trip() {
    // a message encoded to wire bytes decodes back to the same message
    let options = BuildOptions::default();
    let bytes = encode_message(&options, Message::LightGet).unwrap();
    assert!(frame_ok_check(&bytes));
    let back = decode_message(&bytes).unwrap();
    assert_eq!(back, Message::LightGet);
}

#[test]
fn test_decode_rejects_foreign_protocol() {
    // an all-zero buffer claims protocol 0: safe to decode, but an error
    let bytes = [0u8; 36];
    assert!(frame_ok_check(&bytes));
    let err = decode_message(&bytes);
    assert!(matches!(err, Err(LightError::Protocol(_))));
}

#[test]
fn test_frame_check_rejects_unaddressable() {
    // protocol 1024 with the addressable bit clear would make the decoder
    // assert; the check refuses it
    let bytes = [0, 0, 0, 0x04, 0, 0, 0, 0];
    assert!(!frame_ok_check(&bytes));
}

#[test]
fn test_frame_check_rejects_bad_size() {
    // a full header whose claimed size is smaller than the header itself
    let mut bytes = [0u8; 36];
    bytes[0] = 10;
    bytes[3] = 0x14; // protocol 1024, addressable
    assert!(!frame_ok_check(&bytes));
    // with a believable size the same header passes
    bytes[0] = 36;
    assert!(frame_ok_check(&bytes));
}

#[test]
fn test_frame_check_accepts_short_buffers() {
    // truncated buffers are decoder errors, not panics, so the check lets
    // them through
    assert!(frame_ok_check(&[]));
    assert!(frame_ok_check(&[1, 2, 3]));
}
