use vstd::prelude::*;

verus! {

/// Fixed-point unit of ratios, steering and speed: one whole is a million.
pub const SCALE: i64 = 1_000_000;

/// Steering is clamped to this magnitude by the control law (0.9).
pub const TURN_LIMIT: i64 = 900_000;

/// A blue ratio at or above this (0.6) means the forward marker fills the
/// view, and steering is left alone.
pub const BLUE_DOMINANCE: i64 = 600_000;

/// Steering magnitudes below this (0.01) count as this in the speed law.
pub const MIN_TURN: i64 = 10_000;

/// How many horizon estimates are averaged.
pub const HORIZON_WINDOW: usize = 60;

/// The tunable constants of segmentation and control. Ratios, steering and
/// speeds are in millionths; gain and decay in thousandths.
#[derive(Clone, Copy, Debug, PartialEq, Eq, Structural)]
pub struct Tuning {
    /// Grayscale level below which a pixel counts as black.
    pub gray_level: u8,
    /// Cutoff of the blue mask of each channel plane.
    pub blue_cutoff: u8,
    /// Cutoff of the green mask of each channel plane.
    pub green_cutoff: u8,
    /// Cutoff of the red mask of each channel plane.
    pub red_cutoff: u8,
    /// Steering gain on the red-green difference, in thousandths.
    pub gain_permille: i64,
    /// Speed at full steering: speed is this over the steering magnitude.
    pub speed_numerator: i64,
    pub min_speed: i64,
    pub max_speed: i64,
    /// Share of the steering kept after each tick, in thousandths.
    pub decay_permille: i64,
}

impl Tuning {
    pub open spec fn wf(&self) -> bool {
        &&& 0 <= self.gain_permille <= 10_000
        &&& 0 <= self.speed_numerator <= SCALE
        &&& 0 <= self.min_speed <= self.max_speed
        &&& 0 <= self.decay_permille < 1000
    }

    /// The values the vehicle drives with: black below 30, cutoffs 200 for
    /// blue and green and 150 for red, gain 1.8, speed 0.001 over the
    /// steering within [0.002, 0.03], decay to 0.3.
    pub fn standard() -> (r: Tuning)
        ensures
            r.wf(),
            r.gray_level == 30,
            r.blue_cutoff == 200,
            r.green_cutoff == 200,
            r.red_cutoff == 150,
            r.gain_permille == 1800,
            r.speed_numerator == 1000,
            r.min_speed == 2000,
            r.max_speed == 30_000,
            r.decay_permille == 300,
    {
        Tuning {
            gray_level: 30,
            blue_cutoff: 200,
            green_cutoff: 200,
            red_cutoff: 150,
            gain_permille: 1800,
            speed_numerator: 1000,
            min_speed: 2000,
            max_speed: 30_000,
            decay_permille: 300,
        }
    }
}

} // verus!
