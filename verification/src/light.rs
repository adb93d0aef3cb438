//! Colors, the fade-trajectory consistency check, and the pure
//! encode/decode half of the lighting-protocol client.
//!
//! The sockets that carry the encoded bytes live outside the library; what
//! stands here is everything about a color change that is a function of
//! plain values: whether an observed color still lies on an expected linear
//! fade, whether a freshly computed color warrants a command at all, and the
//! packing and unpacking of protocol messages through `lifx_core`.

use vstd::math::abs;
use vstd::prelude::*;

verus! {

/// Minimum light brightness that is still on/visible:
/// 2% of full scale, rounded up (`328 = 0x148`).
pub const MIN: u16 = 328;

/// Maximum light brightness: 100% of full scale (`0xFFFF`).
pub const MAX: u16 = u16::MAX;

/// Deviation tolerance for a fade to count as unchanged, as a percentage of
/// the intended swing on each channel.
pub const MATCHING_THRESHOLD_PERCENT: u64 = 5;

/// A hue-saturation-brightness-kelvin color, the four bounded numeric
/// channels a light is driven by.
#[derive(Clone, Copy, Debug, PartialEq, Eq, Structural)]
pub struct Color {
    pub hue: u16,
    pub saturation: u16,
    pub brightness: u16,
    pub kelvin: u16,
}

/// Whether one channel of an observed color lies within tolerance of the
/// linear interpolation from `before` to `target` at time `elapsed` of
/// `total`.
///
/// With progress `p = clamp(elapsed / total, 0, 1)` the expected value is
/// `before + (target - before) * p`; the deviation is the distance of
/// `current` from it, as a fraction of the intended swing `target - before`.
/// A channel with zero swing deviates by nothing.  Stated exactly over the
/// integers by multiplying the comparison through by `total` and the swing.
pub open spec fn channel_matches(
    before: int,
    target: int,
    current: int,
    elapsed: int,
    total: int,
) -> bool {
    let swing = target - before;
    let e = if elapsed > total {
        total
    } else {
        elapsed
    };
    let offset = (before - current) * total + swing * e;
    swing == 0 || 100 * abs(offset) <= (MATCHING_THRESHOLD_PERCENT as int) * abs(swing) * total
}

/// Whether an observed color is consistent with a fade from `before_color`
/// to `target_color` that has run for `elapsed_ms` of `total_ms`: either the
/// fade has visibly finished, or every channel lies within tolerance of its
/// interpolation path.
pub open spec fn spec_matches_fade(
    before_color: Color,
    target_color: Color,
    current_color: Color,
    elapsed_ms: int,
    total_ms: int,
) -> bool {
    ||| current_color == target_color
    ||| {
        &&& channel_matches(
            before_color.hue as int,
            target_color.hue as int,
            current_color.hue as int,
            elapsed_ms,
            total_ms,
        )
        &&& channel_matches(
            before_color.saturation as int,
            target_color.saturation as int,
            current_color.saturation as int,
            elapsed_ms,
            total_ms,
        )
        &&& channel_matches(
            before_color.brightness as int,
            target_color.brightness as int,
            current_color.brightness as int,
            elapsed_ms,
            total_ms,
        )
        &&& channel_matches(
            before_color.kelvin as int,
            target_color.kelvin as int,
            current_color.kelvin as int,
            elapsed_ms,
            total_ms,
        )
    }
}

/// `|a * b| <= bound_a * bound_b` when `|a| <= bound_a` and `0 <= b <= bound_b`.
proof fn lemma_mul_bound(a: int, b: int, bound_a: int, bound_b: int)
    by (nonlinear_arith)
    requires
        -bound_a <= a <= bound_a,
        0 <= b <= bound_b,
    ensures
        -(bound_a * bound_b) <= a * b <= bound_a * bound_b,
{
}

/// One channel of the fade check, computed exactly in wide integers.
fn channel_ok(before: u16, target: u16, current: u16, elapsed: u64, total: u64) -> (r: bool)
    requires
        elapsed <= total,
        total >= 1,
    ensures
        r == channel_matches(before as int, target as int, current as int, elapsed as int, total as int),
{
    let swing: i128 = target as i128 - before as i128;
    if swing == 0 {
        return true;
    }
    let t: i128 = total as i128;
    let e: i128 = elapsed as i128;
    let base: i128 = before as i128 - current as i128;
    proof {
        lemma_mul_bound(base as int, t as int, 0xFFFF, u64::MAX as int);
        lemma_mul_bound(swing as int, e as int, 0xFFFF, u64::MAX as int);
    }
    let offset: i128 = base * t + swing * e;
    let abs_offset: i128 = if offset < 0 {
        -offset
    } else {
        offset
    };
    let abs_swing: i128 = if swing < 0 {
        -swing
    } else {
        swing
    };
    proof {
        lemma_mul_bound(5 * (abs_swing as int), t as int, 5 * 0xFFFFint, u64::MAX as int);
    }
    100 * abs_offset <= 5 * abs_swing * t
}

/// Interpolation to find out if the current color is between the before
/// color and the target color, where the elapsed fading time matches.
///
/// Returns false as soon as any of the four color channels has strayed more
/// than [`MATCHING_THRESHOLD_PERCENT`] percent of its intended swing from
/// the interpolation path.  Durations are in milliseconds; a fade of zero
/// total duration is a caller contract violation, ruled out here.
pub fn matches_fade(
    before_color: Color,
    target_color: Color,
    current_color: Color,
    fading_time_ms: u64,
    fading_target_ms: u64,
) -> (r: bool)
    requires
        fading_target_ms >= 1,
    ensures
        r == spec_matches_fade(
            before_color,
            target_color,
            current_color,
            fading_time_ms as int,
            fading_target_ms as int,
        ),
{
    if current_color == target_color {
        return true;
    }
    let e = if fading_time_ms > fading_target_ms {
        fading_target_ms
    } else {
        fading_time_ms
    };
    let r = channel_ok(before_color.hue, target_color.hue, current_color.hue, e, fading_target_ms)
        && channel_ok(
        before_color.saturation,
        target_color.saturation,
        current_color.saturation,
        e,
        fading_target_ms,
    ) && channel_ok(
        before_color.brightness,
        target_color.brightness,
        current_color.brightness,
        e,
        fading_target_ms,
    ) && channel_ok(
        before_color.kelvin,
        target_color.kelvin,
        current_color.kelvin,
        e,
        fading_target_ms,
    );
    r
}

/// Law: a fade whose observed color already equals its target always
/// matches, whatever the elapsed and total durations.
pub proof fn lemma_fade_at_target_matches(
    before_color: Color,
    target_color: Color,
    elapsed_ms: int,
    total_ms: int,
)
    ensures
        spec_matches_fade(before_color, target_color, target_color, elapsed_ms, total_ms),
{
}

/// Law: a fade with zero swing on every channel — before, target and
/// current all the same color — always matches.
pub proof fn lemma_constant_fade_matches(color: Color, elapsed_ms: int, total_ms: int)
    ensures
        spec_matches_fade(color, color, color, elapsed_ms, total_ms),
{
}

/// The decision inside a color change: a freshly computed color warrants a
/// command exactly when it differs from what the light shows now.
pub fn color_update(current_color: Color, new_color: Color) -> (r: Option<Color>)
    ensures
        new_color == current_color ==> r is None,
        new_color != current_color ==> r == Some(new_color),
{
    if new_color != current_color {
        Some(new_color)
    } else {
        None
    }
}

#[verifier::external_type_specification]
#[verifier::external_body]
pub struct ExMessage(lifx_core::Message);

#[verifier::external_type_specification]
#[verifier::external_body]
pub struct ExRawMessage(lifx_core::RawMessage);

#[verifier::external_type_specification]
#[verifier::external_body]
pub struct ExBuildOptions(lifx_core::BuildOptions);

#[verifier::external_type_specification]
#[verifier::external_body]
pub struct ExLifxError(lifx_core::Error);

/// An error from the lighting-protocol codec, carrying what the protocol
/// crate reported.
#[derive(Debug)]
pub enum LightError {
    Protocol(lifx_core::Error),
}

/// The message size a wire frame claims for itself: a little-endian 16-bit
/// count in its first two bytes.
pub open spec fn frame_size_of(b: Seq<u8>) -> int {
    (b[0] as int) + 256 * (b[1] as int)
}

/// The protocol number a wire frame claims: the low twelve bits of the
/// little-endian 16-bit word at offset 2.
pub open spec fn frame_protocol_of(b: Seq<u8>) -> int {
    (b[2] as int) + 256 * ((b[3] as int) % 16)
}

/// The addressable flag of a wire frame: bit 12 of the word at offset 2.
pub open spec fn frame_addressable_of(b: Seq<u8>) -> bool {
    ((b[3] as int) / 16) % 2 == 1
}

/// Whether a byte buffer is safe to hand to the frame decoder.
///
/// The decoder reports truncated buffers and foreign protocol numbers as
/// errors, but asserts outright on a frame that carries the right protocol
/// number with the addressable flag clear, and slices by the frame's own
/// claimed size once the full 36-byte header is present; such buffers are
/// excluded here.
pub open spec fn frame_ok(b: Seq<u8>) -> bool {
    &&& (b.len() >= 8 && frame_protocol_of(b) == 1024 ==> frame_addressable_of(b))
    &&& (b.len() >= 36 && frame_protocol_of(b) == 1024 && frame_addressable_of(b) ==> 36
        <= frame_size_of(b) && frame_size_of(b) <= b.len())
}

/// Decide [`frame_ok`] for a byte buffer, so that a caller holding raw bytes
/// from a socket can test them before decoding.
pub fn frame_ok_check(bytes: &[u8]) -> (r: bool)
    ensures
        r == frame_ok(bytes@),
{
    let n = bytes.len();
    if n < 8 {
        return true;
    }
    let b3 = *vstd::slice::slice_index_get(bytes, 3);
    let protocol: u32 = *vstd::slice::slice_index_get(bytes, 2) as u32 + 256 * (b3 as u32 % 16);
    if protocol != 1024 {
        return true;
    }
    if (b3 / 16) % 2 != 1 {
        return false;
    }
    if n < 36 {
        return true;
    }
    let size: usize = *vstd::slice::slice_index_get(bytes, 0) as usize + 256 * (*vstd::slice::slice_index_get(bytes, 1) as usize);
    36 <= size && size <= n
}

/// Relies on `lifx_core::RawMessage::build`: pure construction of a
/// wire-level frame from a message and build options; it encodes every
/// message kind by infallible writes into a fresh vector, and neither
/// panics nor does I/O.
pub assume_specification [ lifx_core::RawMessage::build ](
    options: &lifx_core::BuildOptions,
    typ: lifx_core::Message,
) -> (r: Result<lifx_core::RawMessage, lifx_core::Error>);

/// Relies on `lifx_core::RawMessage::pack`: pure serialization of a frame
/// into bytes; it writes only into a fresh vector and does not panic.
pub assume_specification [ lifx_core::RawMessage::pack ](
    msg: &lifx_core::RawMessage,
) -> (r: Result<Vec<u8>, lifx_core::Error>);

/// Relies on `lifx_core::RawMessage::unpack`: pure parsing of bytes into a
/// frame.  It returns an error on truncated buffers and foreign protocol
/// numbers, but panics on the buffers that [`frame_ok`] excludes.
pub assume_specification [ lifx_core::RawMessage::unpack ](v: &[u8]) -> (r: Result<
    lifx_core::RawMessage,
    lifx_core::Error,
>)
    requires
        frame_ok(v@),
;

/// Relies on `lifx_core::Message::from_raw`: pure decoding of a frame's
/// payload into a message, with an error for unknown or malformed payloads;
/// it reads the payload through fallible cursors and does not panic.
pub assume_specification [ lifx_core::Message::from_raw ](msg: &lifx_core::RawMessage) -> (r:
    Result<lifx_core::Message, lifx_core::Error>);

/// Get the wire-level frame for `message`, built with `options`.
pub fn raw_message(
    options: &lifx_core::BuildOptions,
    message: lifx_core::Message,
) -> (r: Result<lifx_core::RawMessage, LightError>) {
    match lifx_core::RawMessage::build(options, message) {
        Ok(raw) => Ok(raw),
        Err(e) => Err(LightError::Protocol(e)),
    }
}

/// Encode `message` into the bytes to send on the wire: build the frame,
/// then serialize it.
pub fn encode_message(
    options: &lifx_core::BuildOptions,
    message: lifx_core::Message,
) -> (r: Result<Vec<u8>, LightError>) {
    let raw = match raw_message(options, message) {
        Ok(raw) => raw,
        Err(e) => {
            return Err(e);
        },
    };
    match raw.pack() {
        Ok(bytes) => Ok(bytes),
        Err(e) => Err(LightError::Protocol(e)),
    }
}

/// Decode bytes received from the wire into a message: parse the frame,
/// then its payload.  The caller must have screened the bytes with
/// [`frame_ok_check`] first.
pub fn decode_message(bytes: &[u8]) -> (r: Result<lifx_core::Message, LightError>)
    requires
        frame_ok(bytes@),
{
    let raw = match lifx_core::RawMessage::unpack(bytes) {
        Ok(raw) => raw,
        Err(e) => {
            return Err(LightError::Protocol(e));
        },
    };
    match lifx_core::Message::from_raw(&raw) {
        Ok(message) => Ok(message),
        Err(e) => Err(LightError::Protocol(e)),
    }
}

} // verus!
