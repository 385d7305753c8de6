//! PAL4 water UV-animation keyframes. A `_water.uva` animation stores its
//! two keyframes in a raw blob; the animation's duration is encoded a
//! second time, as a little-endian `f32`, between them. The keyframes are
//! found around the first occurrence of that duration. Each keyframe is a
//! record of seven `f32` laid out as `[?, sx, sy, ?, tx, ty, ?]`.
//!
//! All values here are the IEEE-754 bit patterns of the `f32` fields; the
//! engine turns them into floats with `f32::from_bits`.
use vstd::prelude::*;

verus! {

/// Bit pattern of `1.0f32`.
pub const ONE_BITS: u32 = 0x3F80_0000;

/// Bit pattern of `1e-6f32`, below which a scale counts as degenerate.
pub const TINY_SCALE_BITS: u32 = 0x3586_37BD;

/// One keyframe: scale and offset, as `f32` bit patterns.
#[derive(Debug, Clone, Copy)]
pub struct UvKeyBits {
    pub scale: [u32; 2],
    pub offset: [u32; 2],
}

/// The two keyframes of an animation.
#[derive(Debug, Clone, Copy)]
pub struct UvKeyframeBits {
    pub kf0: UvKeyBits,
    pub kf1: UvKeyBits,
}

pub open spec fn identity_key() -> UvKeyBits {
    UvKeyBits { scale: [ONE_BITS, ONE_BITS], offset: [0u32, 0u32] }
}

/// Byte `k` (0 to 3) of `bits` in little-endian order.
pub open spec fn le_byte(bits: u32, k: int) -> u8 {
    if k == 0 {
        (bits % 256) as u8
    } else if k == 1 {
        ((bits / 256) % 256) as u8
    } else if k == 2 {
        ((bits / 65536) % 256) as u8
    } else {
        (bits / 16777216) as u8
    }
}

/// The little-endian `u32` at `raw[off..off + 4]`.
pub open spec fn le_word(raw: Seq<u8>, off: int) -> u32 {
    (raw[off] + raw[off + 1] * 256 + raw[off + 2] * 65536 + raw[off + 3] * 16777216) as u32
}

/// `raw[i..i + 4]` holds `bits` in little-endian order.
pub open spec fn matches_at(raw: Seq<u8>, i: int, bits: u32) -> bool {
    &&& raw[i] == le_byte(bits, 0)
    &&& raw[i + 1] == le_byte(bits, 1)
    &&& raw[i + 2] == le_byte(bits, 2)
    &&& raw[i + 3] == le_byte(bits, 3)
}

/// The search for the duration looks at the positions below this bound.
pub open spec fn search_bound(len: int) -> int {
    if len >= 4 { len - 4 } else { 0 }
}

/// Position of the first occurrence of the duration, if any.
pub open spec fn separator_at(raw: Seq<u8>, bits: u32) -> Option<int> {
    if exists|i: int| 0 <= i < search_bound(raw.len() as int) && #[trigger] matches_at(raw, i, bits) {
        Some(
            choose|i: int|
                0 <= i < search_bound(raw.len() as int) && #[trigger] matches_at(raw, i, bits) && forall|j: int|
                    0 <= j < i ==> !#[trigger] matches_at(raw, j, bits),
        )
    } else {
        None
    }
}

/// A scale whose magnitude is below `1e-6` (including `-0.0`) becomes
/// `1.0`, so the keyframe does not collapse the surface.
pub open spec fn clamp_scale(bits: u32) -> u32 {
    if bits & 0x7FFF_FFFFu32 < TINY_SCALE_BITS {
        ONE_BITS
    } else {
        bits
    }
}

/// The keyframe in the 28-byte record at `raw[off..off + 28]`.
pub open spec fn frame_at(raw: Seq<u8>, off: int) -> UvKeyBits {
    UvKeyBits {
        scale: [clamp_scale(le_word(raw, off + 4)), clamp_scale(le_word(raw, off + 8))],
        offset: [le_word(raw, off + 16), le_word(raw, off + 20)],
    }
}

/// The keyframes of an animation with keyframe blob `raw` and duration
/// bits `duration_bits`: keyframe 1 in the 28 bytes after the duration
/// and keyframe 0 in the 28 bytes before it, where they fit; the identity
/// elsewhere, and throughout when the duration is zero or absent.
pub open spec fn keyframes(raw: Seq<u8>, duration_bits: u32) -> UvKeyframeBits {
    if duration_bits == 0 {
        UvKeyframeBits { kf0: identity_key(), kf1: identity_key() }
    } else {
        match separator_at(raw, duration_bits) {
            None => UvKeyframeBits { kf0: identity_key(), kf1: identity_key() },
            Some(i) => UvKeyframeBits {
                kf0: if i >= 28 { frame_at(raw, i - 28) } else { identity_key() },
                kf1: if i + 32 <= raw.len() { frame_at(raw, i + 4) } else { identity_key() },
            },
        }
    }
}

fn read_le_word(raw: &[u8], off: usize) -> (r: u32)
    requires
        off + 4 <= raw@.len(),
    ensures
        r == le_word(raw@, off as int),
{
    let _n = raw.len();
    raw[off] as u32 + raw[off + 1] as u32 * 256 + raw[off + 2] as u32 * 65536 + raw[off + 3] as u32 * 16777216
}

fn clamp_scale_bits(bits: u32) -> (r: u32)
    ensures
        r == clamp_scale(bits),
{
    if bits & 0x7FFF_FFFFu32 < TINY_SCALE_BITS {
        ONE_BITS
    } else {
        bits
    }
}

fn parse_uv_frame(raw: &[u8], off: usize) -> (r: UvKeyBits)
    requires
        off + 28 <= raw@.len(),
    ensures
        r == frame_at(raw@, off as int),
{
    let _n = raw.len();
    UvKeyBits {
        scale: [clamp_scale_bits(read_le_word(raw, off + 4)), clamp_scale_bits(read_le_word(raw, off + 8))],
        offset: [read_le_word(raw, off + 16), read_le_word(raw, off + 20)],
    }
}

fn identity() -> (r: UvKeyBits)
    ensures
        r == identity_key(),
{
    UvKeyBits { scale: [ONE_BITS, ONE_BITS], offset: [0, 0] }
}

/// Decodes the two keyframes of an animation's keyframe blob.
pub fn decode_keyframes(raw: &[u8], duration_bits: u32) -> (r: UvKeyframeBits)
    ensures
        r == keyframes(raw@, duration_bits),
{
    let mut kf0 = identity();
    let mut kf1 = identity();
    if duration_bits == 0 {
        return UvKeyframeBits { kf0, kf1 };
    }
    let b0 = (duration_bits % 256) as u8;
    let b1 = ((duration_bits / 256) % 256) as u8;
    let b2 = ((duration_bits / 65536) % 256) as u8;
    let b3 = (duration_bits / 16777216) as u8;
    let n = raw.len();
    let end = n.saturating_sub(4);
    let mut i: usize = 0;
    while i < end && !(raw[i] == b0 && raw[i + 1] == b1 && raw[i + 2] == b2 && raw[i + 3] == b3)
        invariant
            i <= end,
            n == raw@.len(),
            end == search_bound(raw@.len() as int),
            b0 == le_byte(duration_bits, 0),
            b1 == le_byte(duration_bits, 1),
            b2 == le_byte(duration_bits, 2),
            b3 == le_byte(duration_bits, 3),
            forall|j: int| 0 <= j < i ==> !#[trigger] matches_at(raw@, j, duration_bits),
        decreases end - i,
    {
        i = i + 1;
    }
    let found: Option<usize> = if i < end {
        Some(i)
    } else {
        None
    };
    proof {
        match found {
            Some(f) => {
                assert(matches_at(raw@, f as int, duration_bits));
                let c = choose|c: int|
                    0 <= c < search_bound(raw@.len() as int) && #[trigger] matches_at(raw@, c, duration_bits) && forall|j: int|
                        0 <= j < c ==> !#[trigger] matches_at(raw@, j, duration_bits);
                if c < f {
                    assert(!matches_at(raw@, c, duration_bits));
                } else if c > f {
                    assert(!matches_at(raw@, f as int, duration_bits));
                }
                assert(separator_at(raw@, duration_bits) == Some(f as int));
            },
            None => {
                assert(separator_at(raw@, duration_bits) is None);
            },
        }
    }
    if let Some(i) = found {
        if n - (i + 4) >= 28 {
            kf1 = parse_uv_frame(raw, i + 4);
        }
        if i >= 28 {
            kf0 = parse_uv_frame(raw, i - 28);
        }
    }
    UvKeyframeBits { kf0, kf1 }
}

/// Where the animation's duration first occurs in the blob, at index
/// `i`, the keyframes are read around it: keyframe 0 from the 28-byte
/// record ending at `i` (scale words at `i - 24` and `i - 20`, offset
/// words at `i - 12` and `i - 8`) when it fits, and keyframe 1 from the
/// record starting at `i + 4` (scale words at `i + 8` and `i + 12`, offset
/// words at `i + 20` and `i + 24`) when it fits; a scale below `1e-6` in
/// magnitude reads as `1.0`. Without a nonzero duration in the blob both
/// keyframes are the identity.
pub proof fn law_keyframes_around_duration(raw: Seq<u8>, duration_bits: u32, i: int)
    ensures
        duration_bits != 0 && 0 <= i < search_bound(raw.len() as int) && matches_at(raw, i, duration_bits) && (forall|j: int|
            0 <= j < i ==> !#[trigger] matches_at(raw, j, duration_bits)) ==> {
            let k = keyframes(raw, duration_bits);
            &&& i >= 28 ==> {
                &&& k.kf0.scale[0] == clamp_scale(le_word(raw, i - 24))
                &&& k.kf0.scale[1] == clamp_scale(le_word(raw, i - 20))
                &&& k.kf0.offset[0] == le_word(raw, i - 12)
                &&& k.kf0.offset[1] == le_word(raw, i - 8)
            }
            &&& i < 28 ==> k.kf0.scale == [ONE_BITS, ONE_BITS] && k.kf0.offset == [0u32, 0u32]
            &&& i + 32 <= raw.len() ==> {
                &&& k.kf1.scale[0] == clamp_scale(le_word(raw, i + 8))
                &&& k.kf1.scale[1] == clamp_scale(le_word(raw, i + 12))
                &&& k.kf1.offset[0] == le_word(raw, i + 20)
                &&& k.kf1.offset[1] == le_word(raw, i + 24)
            }
            &&& i + 32 > raw.len() ==> k.kf1.scale == [ONE_BITS, ONE_BITS] && k.kf1.offset == [0u32, 0u32]
        },
        (duration_bits == 0 || !(exists|j: int| 0 <= j < search_bound(raw.len() as int) && #[trigger] matches_at(raw, j, duration_bits))) ==> {
            let k = keyframes(raw, duration_bits);
            &&& k.kf0.scale == [ONE_BITS, ONE_BITS] && k.kf0.offset == [0u32, 0u32]
            &&& k.kf1.scale == [ONE_BITS, ONE_BITS] && k.kf1.offset == [0u32, 0u32]
        },
        forall|bits: u32| #![trigger clamp_scale(bits)] (bits & 0x7FFF_FFFFu32) >= TINY_SCALE_BITS ==> clamp_scale(bits) == bits,
        forall|bits: u32| #![trigger clamp_scale(bits)] (bits & 0x7FFF_FFFFu32) < TINY_SCALE_BITS ==> clamp_scale(bits) == ONE_BITS,
{
    if duration_bits != 0 && 0 <= i < search_bound(raw.len() as int) && matches_at(raw, i, duration_bits) && (forall|j: int|
        0 <= j < i ==> !#[trigger] matches_at(raw, j, duration_bits)) {
        let c = choose|c: int|
            0 <= c < search_bound(raw.len() as int) && #[trigger] matches_at(raw, c, duration_bits) && forall|j: int|
                0 <= j < c ==> !#[trigger] matches_at(raw, j, duration_bits);
        if c < i {
            assert(!matches_at(raw, c, duration_bits));
        } else if c > i {
            assert(!matches_at(raw, i, duration_bits));
        }
        assert(separator_at(raw, duration_bits) == Some(i));
    }
}

} // verus!
