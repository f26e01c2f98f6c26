//! Configuration for the cursor trail effect.
//!
//! Ratios that are conceptually fractional (`spread`, `opacity`) are
//! carried in per-mille fixed point: `1000` stands for 1.0.

use vstd::prelude::*;

verus! {

/// The per-mille representation of 1.0 for `spread` and `opacity`.
pub const PERMILLE: u32 = 1000;

/// Largest animation duration the engine accepts, in milliseconds.
pub const MAX_DURATION: u64 = 1_000_000_000;

/// Largest spread multiplier the engine accepts (one thousand, per-mille).
pub const MAX_SPREAD: u32 = 1_000_000;

/// Configuration for the cursor trail effect.
#[derive(Debug, Clone, Copy, PartialEq, Eq, Structural)]
pub struct CursorTrailConfig {
    /// Enable the cursor trail effect.
    pub enabled: bool,
    /// Cursor trail dwell time in milliseconds.  The trail animation only
    /// follows cursors that have stayed in their position for longer than
    /// this value, which prevents trails during rapid cursor movements.
    pub dwell_threshold: u64,
    /// Animation duration in milliseconds for leading edge corners to
    /// reach the cursor.
    pub duration: u64,
    /// Duration multiplier for the trailing edge, per-mille
    /// (trailing duration = duration * spread / 1000).  Must be greater
    /// than 1000: the trailing edge must be slower than the leading edge.
    pub spread: u32,
    /// Minimum distance (in cells) to trigger the cursor trail.
    pub distance_threshold: usize,
    /// Maximum opacity for the cursor trail, per-mille (0 to 1000).
    pub opacity: u32,
}

impl CursorTrailConfig {
    /// Whether the configuration passes validation.
    pub open spec fn valid(self) -> bool {
        self.spread > PERMILLE && self.opacity <= PERMILLE
    }

    /// Validates the configuration values.
    pub fn validate(&self) -> (r: Result<(), &'static str>)
        ensures
            r is Ok <==> self.valid(),
            self.spread <= PERMILLE ==> (r matches Err(m) && m@
                == "cursor_trail.spread must be > 1.0: the trailing edge must be slower than the leading edge"@),
            self.spread > PERMILLE && self.opacity > PERMILLE ==> (r matches Err(m) && m@
                == "cursor_trail.opacity must be between 0.0 and 1.0"@),
    {
        if self.spread <= PERMILLE {
            return Err(
                "cursor_trail.spread must be > 1.0: the trailing edge must be slower than the leading edge",
            );
        }
        if self.opacity > PERMILLE {
            return Err("cursor_trail.opacity must be between 0.0 and 1.0");
        }
        Ok(())
    }
}

impl Default for CursorTrailConfig {
    /// The effect is off by default; the remaining fields carry the
    /// documented defaults.
    fn default() -> (c: Self)
        ensures
            c.enabled == false,
            c.dwell_threshold == 50,
            c.duration == 100,
            c.spread == 4000,
            c.distance_threshold == 2,
            c.opacity == 800,
            c.valid(),
    {
        CursorTrailConfig {
            enabled: false,
            dwell_threshold: default_dwell_threshold(),
            duration: default_duration(),
            spread: default_spread(),
            distance_threshold: default_distance_threshold(),
            opacity: default_opacity(),
        }
    }
}

/// Default animation duration: leading edges reach about 99.9% of the
/// distance to the target in this many milliseconds.
pub fn default_duration() -> (r: u64)
    ensures
        r == 100,
{
    100
}

/// Default spread: the trailing edge takes four times the duration.
pub fn default_spread() -> (r: u32)
    ensures
        r == 4000,
{
    4000
}

/// Default minimum distance, in cells, to trigger the trail.
pub fn default_distance_threshold() -> (r: usize)
    ensures
        r == 2,
{
    2
}

/// Default dwell time in milliseconds.
pub fn default_dwell_threshold() -> (r: u64)
    ensures
        r == 50,
{
    50
}

/// Default maximum opacity, per-mille.
pub fn default_opacity() -> (r: u32)
    ensures
        r == 800,
{
    800
}

} // verus!
