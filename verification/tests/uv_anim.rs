use yaobow_shared::uv_anim::{decode_keyframes, UvKeyBits};

// The PAL4 water overlays encode a 33.333 s duration.
const WATER_DURATION_BITS: u32 = 0x4205_5556;

fn scale(k: &UvKeyBits) -> [f32; 2] {
    [f32::from_bits(k.scale[0]), f32::from_bits(k.scale[1])]
}

fn offset(k: &UvKeyBits) -> [f32; 2] {
    [f32::from_bits(k.offset[0]), f32::from_bits(k.offset[1])]
}

fn put_floats(raw: &mut [u8], at: usize, floats: &[f32]) {
    for (i, v) in floats.iter().enumerate() {
        raw[at + i * 4..at + i * 4 + 4].copy_from_slice(&v.to_le_bytes());
    }
}

#[test]
fn decode_finds_keyframes_around_duration_separator() {
    let mut raw = vec![0u8; 96];
    put_floats(&mut raw, 36, &[0.0f32, 0.0, 1.0, 0.0, 0.0, 0.0, 0.0]);
    raw[64..68].copy_from_slice(&WATER_DURATION_BITS.to_le_bytes());
    put_floats(&mut raw, 68, &[0.0f32, 1.0, 1.0, 0.0, -1.0, 1.0, 0.0]);

    let keys = decode_keyframes(&raw, WATER_DURATION_BITS);
    // kf0 has sx=0 -> clamped to 1; sy=1; offset (0, 0).
    assert_eq!(scale(&keys.kf0), [1.0, 1.0]);
    assert_eq!(offset(&keys.kf0), [0.0, 0.0]);
    // kf1: sx=1, sy=1, tx=-1, ty=1.
    assert_eq!(scale(&keys.kf1), [1.0, 1.0]);
    assert_eq!(offset(&keys.kf1), [-1.0, 1.0]);
}

#[test]
fn decode_returns_identity_when_no_duration() {
    let keys = decode_keyframes(&vec![0u8; 96], 0.0f32.to_bits());
    assert_eq!(scale(&keys.kf0), [1.0, 1.0]);
    assert_eq!(scale(&keys.kf1), [1.0, 1.0]);
    assert_eq!(offset(&keys.kf0), [0.0, 0.0]);
    assert_eq!(offset(&keys.kf1), [0.0, 0.0]);
}

#[test]
fn decode_finds_keyframes_by_nonwater_duration() {
    let duration = 100.0f32;
    let mut raw = vec![0u8; 96];
    put_floats(&mut raw, 36, &[0.0f32, 1.0, 1.0, 0.0, 0.0, 0.0, 0.0]);
    raw[64..68].copy_from_slice(&duration.to_le_bytes());
    put_floats(&mut raw, 68, &[0.0f32, 1.0, 1.0, 0.0, -1.0, 0.0, 0.0]);

    let keys = decode_keyframes(&raw, duration.to_bits());
    assert_eq!(scale(&keys.kf0), [1.0, 1.0]);
    assert_eq!(offset(&keys.kf0), [0.0, 0.0]);
    assert_eq!(scale(&keys.kf1), [1.0, 1.0]);
    assert_eq!(offset(&keys.kf1), [-1.0, 0.0]);
}

#[test]
fn decode_ignores_a_separator_in_the_last_four_bytes() {
    // The search stops before the final four bytes: a duration there is
    // not taken as the separator.
    let mut raw = vec![0u8; 40];
    raw[36..40].copy_from_slice(&WATER_DURATION_BITS.to_le_bytes());
    put_floats(&mut raw, 8, &[0.0f32, 2.0, 3.0, 0.0, 4.0, 5.0]);
    let keys = decode_keyframes(&raw, WATER_DURATION_BITS);
    assert_eq!(scale(&keys.kf0), [1.0, 1.0]);
    assert_eq!(offset(&keys.kf0), [0.0, 0.0]);
}

#[test]
fn decode_keeps_keyframe_zero_identity_when_separator_is_early() {
    let mut raw = vec![0u8; 64];
    raw[4..8].copy_from_slice(&WATER_DURATION_BITS.to_le_bytes());
    put_floats(&mut raw, 8, &[0.0f32, 2.0, 3.0, 0.0, 4.0, 5.0, 0.0]);
    let keys = decode_keyframes(&raw, WATER_DURATION_BITS);
    assert_eq!(scale(&keys.kf0), [1.0, 1.0]);
    assert_eq!(scale(&keys.kf1), [2.0, 3.0]);
    assert_eq!(offset(&keys.kf1), [4.0, 5.0]);
}
