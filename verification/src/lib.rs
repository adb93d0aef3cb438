//! Reactive core of a presence-triggered lighting controller: a cancellable,
//! restartable countdown timer modelled as a state machine, a fixed-capacity
//! ring buffer for trend sampling, and a fade-trajectory consistency check.

use vstd::prelude::*;

pub mod buffer;
pub mod light;
pub mod temperature;
pub mod timer;

pub use buffer::FixedBuffer;

verus! {

/// Signals that can be sent to a timer worker.
#[allow(non_camel_case_types)]
#[derive(Clone, Copy, Debug, PartialEq)]
pub enum SIGNAL<T> {
    /// Start the timer, resetting the countdown.
    START,
    /// Terminate the whole timer worker.
    TERMINATE,
    /// Carry an arbitrary message to the worker.
    OTHER(T),
}

/// Actions delivered to the callback registered with a timer.
#[allow(non_camel_case_types)]
#[derive(Clone, Copy, Debug, PartialEq)]
pub enum ACTION {
    /// The timer was (re)started; `restarted` is true when it was already counting down.
    START { restarted: bool },
    /// The idle timeout was reached.
    TIMEOUT,
}

/// Timeout for the presence timer, in milliseconds (10 minutes).
pub const TIMEOUT_MS: u64 = 60 * 10 * 1000;

/// Timeout for socket reads and writes, in milliseconds (30 seconds).
pub const SOCKET_TIMEOUT_MS: u64 = 30 * 1000;

/// Duration the light takes to completely fade out after the idle timeout,
/// in milliseconds (3 minutes).
pub const FADE_DURATION_MS: u64 = 60 * 3 * 1000;

/// The color a light fades to when going dark: the input color with its
/// brightness dropped to the minimum still-visible level.
pub fn fade_target(color: light::Color) -> (r: light::Color)
    ensures
        r.brightness == light::MIN,
        r.hue == color.hue,
        r.saturation == color.saturation,
        r.kelvin == color.kelvin,
{
    light::Color { brightness: light::MIN, ..color }
}

} // verus!
