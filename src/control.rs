use vstd::prelude::*;
use std::collections::VecDeque;
use crate::protocol::Command;
use crate::tuning::{BLUE_DOMINANCE, HORIZON_WINDOW, MIN_TURN, SCALE, TURN_LIMIT, Tuning};

verus! {

pub open spec fn abs(x: int) -> int {
    if x >= 0 {
        x
    } else {
        -x
    }
}

pub open spec fn clamp(v: int, lo: int, hi: int) -> int {
    if v < lo {
        lo
    } else if v > hi {
        hi
    } else {
        v
    }
}

/// `x` times `g` thousandths, truncated toward zero.
pub open spec fn scaled(x: int, g: int) -> int {
    if x >= 0 {
        x * g / 1000
    } else {
        -((-x) * g / 1000)
    }
}

/// Share of activated pixels of each colour, in millionths.
#[derive(Clone, Copy, Debug, PartialEq, Eq, Structural)]
pub struct Ratios {
    pub blue: i64,
    pub green: i64,
    pub red: i64,
}

impl Ratios {
    pub open spec fn wf(&self) -> bool {
        &&& 0 <= self.blue <= SCALE
        &&& 0 <= self.green <= SCALE
        &&& 0 <= self.red <= SCALE
    }
}

/// Steering after the update: unchanged while blue dominates, else moved
/// against the red-green difference by the gain and clamped to the limit.
pub open spec fn steer_spec(turn: int, r: Ratios, t: Tuning) -> int {
    if r.blue < BLUE_DOMINANCE {
        clamp(turn - scaled(r.red - r.green, t.gain_permille as int), -TURN_LIMIT, TURN_LIMIT as int)
    } else {
        turn
    }
}

/// Speed for a steering value: inversely proportional to the steering
/// magnitude (at least `MIN_TURN`), clamped to the tuning's range.
pub open spec fn speed_spec(turn: int, t: Tuning) -> int {
    let m = if abs(turn) >= MIN_TURN { abs(turn) } else { MIN_TURN as int };
    clamp(t.speed_numerator * SCALE / m, t.min_speed as int, t.max_speed as int)
}

/// Steering after decay.
pub open spec fn decay_spec(turn: int, t: Tuning) -> int {
    scaled(turn, t.decay_permille as int)
}

/// Steering after `k` decays.
pub open spec fn decay_n(turn: int, t: Tuning, k: nat) -> int
    decreases k,
{
    if k == 0 {
        turn
    } else {
        decay_spec(decay_n(turn, t, (k - 1) as nat), t)
    }
}

fn scale_toward_zero(x: i64, g: i64) -> (r: i64)
    requires
        -2 * SCALE <= x <= 2 * SCALE,
        0 <= g <= 10_000,
    ensures
        r == scaled(x as int, g as int),
{
    if x >= 0 {
        proof {
            assert(0 <= x * g <= 2 * SCALE * 10_000) by (nonlinear_arith)
                requires
                    0 <= x <= 2 * SCALE,
                    0 <= g <= 10_000;
        }
        x * g / 1000
    } else {
        let y = -x;
        proof {
            assert(0 <= y * g <= 2 * SCALE * 10_000) by (nonlinear_arith)
                requires
                    0 <= y <= 2 * SCALE,
                    0 <= g <= 10_000;
        }
        -(y * g / 1000)
    }
}

/// The steering update of the control law.
pub fn steer(turn: i64, r: Ratios, t: &Tuning) -> (out: i64)
    requires
        -TURN_LIMIT <= turn <= TURN_LIMIT,
        r.wf(),
        t.wf(),
    ensures
        out == steer_spec(turn as int, r, *t),
        -TURN_LIMIT <= out <= TURN_LIMIT,
{
    if r.blue >= BLUE_DOMINANCE {
        return turn;
    }
    let push = scale_toward_zero(r.red - r.green, t.gain_permille);
    proof {
        assert(-20 * SCALE <= push <= 20 * SCALE) by (nonlinear_arith)
            requires
                push == scaled((r.red - r.green) as int, t.gain_permille as int),
                -SCALE <= r.red - r.green <= SCALE,
                0 <= t.gain_permille <= 10_000;
    }
    let v = turn - push;
    if v < -TURN_LIMIT {
        -TURN_LIMIT
    } else if v > TURN_LIMIT {
        TURN_LIMIT
    } else {
        v
    }
}

/// The speed of the control law for a steering value.
pub fn speed_for(turn: i64, t: &Tuning) -> (out: i64)
    requires
        -TURN_LIMIT <= turn <= TURN_LIMIT,
        t.wf(),
    ensures
        out == speed_spec(turn as int, *t),
        t.min_speed <= out <= t.max_speed,
{
    let a = if turn >= 0 { turn } else { -turn };
    let m = if a >= MIN_TURN { a } else { MIN_TURN };
    proof {
        assert(0 <= t.speed_numerator * SCALE <= SCALE * SCALE) by (nonlinear_arith)
            requires
                0 <= t.speed_numerator <= SCALE;
    }
    let s = t.speed_numerator * SCALE / m;
    if s < t.min_speed {
        t.min_speed
    } else if s > t.max_speed {
        t.max_speed
    } else {
        s
    }
}

/// Steering after one decay.
pub fn decay(turn: i64, t: &Tuning) -> (out: i64)
    requires
        -TURN_LIMIT <= turn <= TURN_LIMIT,
        t.wf(),
    ensures
        out == decay_spec(turn as int, *t),
        abs(out as int) <= abs(turn as int),
{
    let out = scale_toward_zero(turn, t.decay_permille);
    proof {
        lemma_decay_shrinks(turn as int, *t);
    }
    out
}

/// Decay never grows the steering, and shrinks any non-zero steering.
pub proof fn lemma_decay_shrinks(turn: int, t: Tuning)
    requires
        t.wf(),
    ensures
        abs(decay_spec(turn, t)) <= abs(turn),
        turn != 0 ==> abs(decay_spec(turn, t)) < abs(turn),
        decay_spec(turn, t) == 0 || (decay_spec(turn, t) > 0) == (turn > 0),
{
    let a = abs(turn);
    let g = t.decay_permille as int;
    assert(0 <= a * g / 1000 <= a && (a > 0 ==> a * g / 1000 < a)) by (nonlinear_arith)
        requires
            a >= 0,
            0 <= g < 1000;
}

/// With steering left alone by the control law (blue dominating), each tick
/// decays the steering by the tuning's factor, its magnitude strictly falls
/// while it is not zero, and after as many ticks as its magnitude it is zero.
pub proof fn lemma_decay_to_rest(turn: int, r: Ratios, t: Tuning, k: nat)
    requires
        t.wf(),
        r.blue >= BLUE_DOMINANCE,
    ensures
        decay_spec(steer_spec(turn, r, t), t) == scaled(turn, t.decay_permille as int),
        decay_n(turn, t, k) != 0 ==> abs(decay_n(turn, t, k + 1)) < abs(decay_n(turn, t, k)),
        abs(decay_n(turn, t, k)) <= if abs(turn) > k { abs(turn) - k } else { 0 },
    decreases k,
{
    lemma_decay_shrinks(decay_n(turn, t, k), t);
    if k > 0 {
        lemma_decay_to_rest(turn, r, t, (k - 1) as nat);
        let p = decay_n(turn, t, (k - 1) as nat);
        lemma_decay_shrinks(p, t);
    }
}

/// The state carried from frame to frame.
pub struct CarState {
    /// Steering, in millionths.
    pub wheels_turn: i64,
    /// Throttle, in millionths.
    pub speed: i64,
    /// The latest raw horizon estimates, newest first.
    pub previous_horizons: VecDeque<usize>,
}

impl CarState {
    pub open spec fn wf(&self) -> bool {
        &&& -TURN_LIMIT <= self.wheels_turn <= TURN_LIMIT
        &&& self.previous_horizons@.len() <= HORIZON_WINDOW
    }

    /// At rest: no steering, no speed, no horizon seen.
    pub fn new() -> (r: CarState)
        ensures
            r.wf(),
            r.wheels_turn == 0,
            r.speed == 0,
            r.previous_horizons@.len() == 0,
    {
        CarState { wheels_turn: 0, speed: 0, previous_horizons: VecDeque::new() }
    }

    /// Applies the control law to this frame's ratios: the throttle and
    /// steering commands to send, after which the steering decays.
    pub fn control_step(&mut self, r: Ratios, t: &Tuning) -> (cmds: (Command, Command))
        requires
            old(self).wf(),
            r.wf(),
            t.wf(),
        ensures
            final(self).wf(),
            final(self).previous_horizons@ == old(self).previous_horizons@,
            ({
                let turn = steer_spec(old(self).wheels_turn as int, r, *t);
                &&& final(self).speed == speed_spec(turn, *t)
                &&& final(self).wheels_turn == decay_spec(turn, *t)
                &&& cmds.0 == (Command::Forward { value: final(self).speed })
                &&& cmds.1 matches Command::Turn { value } && value == turn
            }),
            t.min_speed <= final(self).speed <= t.max_speed,
            cmds.1 matches Command::Turn { value } && -TURN_LIMIT <= value <= TURN_LIMIT,
    {
        let turn = steer(self.wheels_turn, r, t);
        let speed = speed_for(turn, t);
        self.speed = speed;
        self.wheels_turn = decay(turn, t);
        (Command::Forward { value: speed }, Command::Turn { value: turn })
    }
}

} // verus!
