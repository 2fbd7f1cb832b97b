//! Transition settings for wallpaper changes: which animation, how many
//! frames per second, and how long.

use vstd::prelude::*;
use crate::text::str_eq;

verus! {

/// Transition types for wallpaper changes.
#[derive(Debug, Clone, Copy, PartialEq, Eq, Structural)]
pub enum TransitionKind {
    Fade,
    Wipe,
    Wave,
    Center,
    Outer,
    Random,
    /// No animation: the new image replaces the old at once (named `none`).
    Instant,
}

impl Default for TransitionKind {
    fn default() -> (r: Self)
        ensures
            r == TransitionKind::Fade,
    {
        TransitionKind::Fade
    }
}

/// Parameters controlling the animation.
#[derive(Debug, Clone, Copy, PartialEq, Eq)]
pub struct TransitionConfig {
    pub kind: TransitionKind,
    /// Frames per second.
    pub fps: u32,
    /// Total duration in milliseconds.
    pub duration_ms: u32,
}

impl Default for TransitionConfig {
    fn default() -> (r: Self)
        ensures
            r.kind == TransitionKind::Fade,
            r.fps == 30,
            r.duration_ms == 400,
    {
        Self { kind: TransitionKind::Fade, fps: 30, duration_ms: 400 }
    }
}

impl TransitionConfig {
    /// Create a new TransitionConfig with custom FPS.
    pub fn with_fps(kind: TransitionKind, duration_ms: u32, fps: u32) -> (r: Self)
        ensures
            r.kind == kind,
            r.duration_ms == duration_ms,
            r.fps == fps,
    {
        Self { kind, fps, duration_ms }
    }
}

/// The transition a configuration names; unknown names mean `Fade`.
pub open spec fn kind_named(name: Seq<char>) -> TransitionKind {
    if name == "fade"@ {
        TransitionKind::Fade
    } else if name == "wipe"@ {
        TransitionKind::Wipe
    } else if name == "wave"@ {
        TransitionKind::Wave
    } else if name == "center"@ {
        TransitionKind::Center
    } else if name == "outer"@ {
        TransitionKind::Outer
    } else if name == "random"@ {
        TransitionKind::Random
    } else if name == "none"@ {
        TransitionKind::Instant
    } else {
        TransitionKind::Fade
    }
}

/// The transition named in the display configuration.
pub fn transition_kind_from_name(name: &str) -> (r: TransitionKind)
    ensures
        r == kind_named(name@),
{
    if str_eq(name, "fade") {
        TransitionKind::Fade
    } else if str_eq(name, "wipe") {
        TransitionKind::Wipe
    } else if str_eq(name, "wave") {
        TransitionKind::Wave
    } else if str_eq(name, "center") {
        TransitionKind::Center
    } else if str_eq(name, "outer") {
        TransitionKind::Outer
    } else if str_eq(name, "random") {
        TransitionKind::Random
    } else if str_eq(name, "none") {
        TransitionKind::Instant
    } else {
        TransitionKind::Fade
    }
}

/// The transition settings the wallpaper backend takes from the display
/// configuration; the duration keeps its low 32 bits.
pub fn transition_config_for(name: &str, fps: u32, duration_ms: u64) -> (r: TransitionConfig)
    ensures
        r.kind == kind_named(name@),
        r.fps == fps,
        r.duration_ms == duration_ms % 0x1_0000_0000,
{
    let d = (duration_ms & 0xffff_ffff) as u32;
    assert((duration_ms & 0xffff_ffff) == duration_ms % 0x1_0000_0000) by (bit_vector);
    TransitionConfig { kind: transition_kind_from_name(name), fps, duration_ms: d }
}

/// How many frames a transition of `duration_ms` at `fps` frames per second
/// has: the frame rate times the duration in seconds, rounded to the nearest
/// whole frame (a half rounds up), at least one and at most `u32::MAX`.
pub open spec fn frame_count_spec(fps: u32, duration_ms: u32) -> u32 {
    let r = (fps * duration_ms + 500) / 1000;
    if r == 0 {
        1
    } else if r > u32::MAX {
        u32::MAX
    } else {
        r as u32
    }
}

/// How many frames a transition has.
pub fn frame_count(fps: u32, duration_ms: u32) -> (n: u32)
    ensures
        n == frame_count_spec(fps, duration_ms),
{
    assert(fps * duration_ms + 500 <= u64::MAX) by (nonlinear_arith)
        requires
            fps <= u32::MAX,
            duration_ms <= u32::MAX,
    {
        assert(fps * duration_ms <= (u32::MAX as int) * (u32::MAX as int));
    }
    let p: u64 = (fps as u64) * (duration_ms as u64);
    let r: u64 = (p + 500) / 1000;
    if r == 0 {
        1
    } else if r > u32::MAX as u64 {
        u32::MAX
    } else {
        r as u32
    }
}

} // verus!
