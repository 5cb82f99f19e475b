use vstd::prelude::*;

verus! {

// ---------------------------------------------------------------------------
// Units.
//
// All scheduling arithmetic is exact integer arithmetic.
//
//   * times are milliseconds (`u64`);
//   * the speed factor is permille: 1000 means nominal speed;
//   * horizontal geometry is held in sub-pixel "position units", with one
//     pixel equal to `POS_UNITS_PER_PX` units.
//
// `POS_UNITS_PER_PX` is `SCROLL_DURATION_MS * PERMILLE * PERMILLE`.  With that
// choice, a scrolling message spawned over a viewport of `W` pixels with a
// text width of `w` pixels and a spawn-time speed factor of `s` permille has
// the integer velocity `(W + w) * s` position units per (millisecond *
// permille of tick-time speed), and every per-tick advance
// `velocity * dt * speed` is computed without any rounding.  At nominal speed
// (spawn and tick factors both 1000) a message therefore crosses `W + w`
// pixels in exactly `SCROLL_DURATION_MS` milliseconds.
// ---------------------------------------------------------------------------

/// Milliseconds a scrolling message takes to cross the viewport plus its own
/// width at nominal speed.
pub const SCROLL_DURATION_MS: u64 = 8000;

/// Scale of the speed factor: a factor of `PERMILLE` is nominal speed.
pub const PERMILLE: u64 = 1000;

/// Position units per pixel: `SCROLL_DURATION_MS * PERMILLE * PERMILLE`.
pub const POS_UNITS_PER_PX: i64 = 8_000_000_000;

/// Largest accepted pixel dimension (viewport sides, text widths, paddings).
pub const MAX_DIM_PX: u32 = 100_000;

/// Largest accepted speed factor, in permille (one hundred times nominal).
pub const MAX_SPEED_FACTOR: u32 = 100_000;

/// Largest accepted row count for any of the three pools.
pub const MAX_ROWS_LIMIT: usize = 100_000;

/// Milliseconds a top- or bottom-centered message stays on screen.
pub const DWELL_TIME_MS: u64 = 5000;

/// Largest velocity a scrolling instance can be spawned with:
/// `2 * MAX_DIM_PX * MAX_SPEED_FACTOR` position units per (ms * permille).
pub const MAX_VELOCITY: u64 = 20_000_000_000;

/// Largest on-screen coordinate in position units: `MAX_DIM_PX * POS_UNITS_PER_PX`.
pub const MAX_POS_UNITS: i64 = 800_000_000_000_000;

/// RGBA color of a message, one byte per channel.
#[derive(Clone, Copy, Debug, PartialEq, Eq, Structural)]
pub struct Color {
    pub r: u8,
    pub g: u8,
    pub b: u8,
    pub a: u8,
}

/// How a message is placed: scrolling right-to-left across a lane, or held
/// centered at the top or bottom of the viewport for a fixed dwell.
#[derive(Clone, Copy, Debug, PartialEq, Eq, Structural)]
pub enum DanmakuMode {
    Scroll,
    TopCenter,
    BottomCenter,
}

/// One timed message, immutable once admitted.
#[derive(Debug, PartialEq, Eq)]
pub struct Danmaku {
    pub content: String,
    /// Scheduled start, in milliseconds of playback time.
    pub start: u64,
    pub color: Color,
    pub mode: DanmakuMode,
}

impl Clone for Danmaku {
    fn clone(&self) -> (result: Danmaku)
        ensures
            result == *self,
    {
        Danmaku {
            content: self.content.clone(),
            start: self.start,
            color: self.color,
            mode: self.mode,
        }
    }
}

/// A live scrolling message.  `x` is the left edge of the text in position
/// units; it starts at the right edge of the viewport and decreases.
/// `handle` names the laid-out text block in the embedder's arena; the core
/// never inspects it.
#[derive(Debug)]
pub struct ScrollingDanmaku {
    pub danmaku: Danmaku,
    pub handle: u64,
    /// Left edge, in position units.
    pub x: i64,
    /// Lane index.
    pub row: usize,
    /// Leftward speed, in position units per (millisecond * permille).
    pub velocity: u64,
    /// Text width, in position units.
    pub width: i64,
}

impl Clone for ScrollingDanmaku {
    fn clone(&self) -> (result: ScrollingDanmaku)
        ensures
            result == *self,
    {
        ScrollingDanmaku {
            danmaku: self.danmaku.clone(),
            handle: self.handle,
            x: self.x,
            row: self.row,
            velocity: self.velocity,
            width: self.width,
        }
    }
}

/// A live top- or bottom-centered message occupying one fixed row until its
/// dwell runs out.
#[derive(Debug)]
pub struct CenterDanmaku {
    pub danmaku: Danmaku,
    pub handle: u64,
    /// Text width, in pixels.
    pub width: u64,
    /// Row index into the owning pool's occupancy array.
    pub row: usize,
    /// Milliseconds of dwell left; always positive while live.
    pub remaining_time: u64,
}

impl Clone for CenterDanmaku {
    fn clone(&self) -> (result: CenterDanmaku)
        ensures
            result == *self,
    {
        CenterDanmaku {
            danmaku: self.danmaku.clone(),
            handle: self.handle,
            width: self.width,
            row: self.row,
            remaining_time: self.remaining_time,
        }
    }
}

} // verus!
