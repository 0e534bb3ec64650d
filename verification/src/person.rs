//! A person in the epidemic simulation: a position and velocity in
//! fixed-point pixels, a health state in the three states of the SIR
//! model, an infection timer, and a quarantine flag.

use crate::numeric::{isqrt, isqrt_spec, lemma_isqrt_bounds, lemma_mul_div_le, mul_div, mul_div_spec};
use crate::rng;
use crate::settings::{
    AREA_CAP, MARGIN_FROM_WALL, MOVING_SPEED, QUARANTINE_AREA_SIZE, RECOVERY_CAP, SCALE,
    SIMULATION_AREA_SIZE, TIME_STEP_CAP, VELOCITY_CAP,
};
use vstd::prelude::*;

verus! {

/// A person's state in the three states of the SIR epidemic model.
///
/// - `Susceptible`: has not caught the disease yet but could
/// - `Infected`: currently sick and able to spread the disease
/// - `Recovered`: immune; never becomes sick or contagious again
#[derive(Clone, Copy, PartialEq, Eq, Structural)]
pub enum PersonState {
    Susceptible,
    Infected,
    Recovered,
}

/// A person in the epidemic simulation.
///
/// Coordinates and velocities are fixed-point pixels (`SCALE` units per
/// pixel); the infection timer is fixed-point seconds.
#[derive(Clone, Copy, PartialEq, Eq, Structural)]
pub struct Person {
    pub x: i64,
    pub y: i64,
    pub velocity_x: i64,
    pub velocity_y: i64,
    pub state: PersonState,
    pub infection_duration: i64,
    pub is_in_quarantine: bool,
}

/// The side length of the area a person currently moves in: the main
/// community, or the quarantine zone once relocated there.
pub open spec fn active_bound(is_in_quarantine: bool) -> int {
    if is_in_quarantine {
        QUARANTINE_AREA_SIZE as int
    } else {
        SIMULATION_AREA_SIZE as int
    }
}

/// One axis of a kinematic step: the coordinate after moving by
/// `vel * dt` and reflecting at the walls `margin` and `bound - margin`
/// by exact clamping.
pub open spec fn reflect_pos(pos: int, vel: int, dt: int, bound: int) -> int {
    let moved = pos + mul_div_spec(vel, dt, SCALE as int);
    if moved <= MARGIN_FROM_WALL as int {
        MARGIN_FROM_WALL as int
    } else if moved >= bound - MARGIN_FROM_WALL as int {
        bound - MARGIN_FROM_WALL as int
    } else {
        moved
    }
}

/// One axis of a kinematic step: the velocity after the move, flipped
/// exactly when the coordinate hit a wall.
pub open spec fn reflect_vel(pos: int, vel: int, dt: int, bound: int) -> int {
    let moved = pos + mul_div_spec(vel, dt, SCALE as int);
    if moved <= MARGIN_FROM_WALL as int || moved >= bound - MARGIN_FROM_WALL as int {
        -vel
    } else {
        vel
    }
}

/// Squared Euclidean distance between two people, in squared fixed-point
/// pixels.
pub open spec fn dist_sq(a: Person, b: Person) -> int {
    (a.x - b.x) * (a.x - b.x) + (a.y - b.y) * (a.y - b.y)
}

/// After one kinematic step the coordinate lies on or inside the margins
/// of its area.
pub proof fn lemma_reflect_pos_in_margins(pos: int, vel: int, dt: int, bound: int)
    requires
        2 * MARGIN_FROM_WALL <= bound,
    ensures
        MARGIN_FROM_WALL <= reflect_pos(pos, vel, dt, bound) <= bound - MARGIN_FROM_WALL,
{
}

/// A heading built from a point on the fixed-point unit circle keeps the
/// speed at `MOVING_SPEED` up to rounding: the squared velocity norm is
/// at most the squared speed, and less than four units of speed below it.
proof fn lemma_heading_speed(ux: int, uy: int, vx: int, vy: int)
    requires
        -SCALE <= ux <= SCALE,
        uy == isqrt_spec(SCALE * SCALE - ux * ux) || uy == -isqrt_spec(SCALE * SCALE - ux * ux),
        vx == mul_div_spec(ux, MOVING_SPEED as int, SCALE as int),
        vy == mul_div_spec(uy, MOVING_SPEED as int, SCALE as int),
    ensures
        vx * vx + vy * vy <= MOVING_SPEED * MOVING_SPEED,
        (MOVING_SPEED - 4) * (MOVING_SPEED - 4) <= vx * vx + vy * vy,
{
    let aux = if ux >= 0 { ux } else { -ux };
    assert(aux * aux == ux * ux && 0 <= ux * ux) by (nonlinear_arith)
        requires
            0 <= aux,
            aux == ux || aux == -ux;
    assert(SCALE * SCALE == 1_000_000) by (nonlinear_arith)
        requires
            SCALE == 1000;
    let n = SCALE * SCALE - ux * ux;
    assert(aux * aux <= 1_000_000) by (nonlinear_arith)
        requires
            0 <= aux <= 1000;
    let auy = isqrt_spec(n);
    lemma_isqrt_bounds(n);
    assert(auy <= 1000) by (nonlinear_arith)
        requires
            0 <= auy,
            auy * auy <= 1_000_000;
    assert(uy == auy || uy == -auy);
    assert(auy * auy >= n - 2001) by (nonlinear_arith)
        requires
            n < (auy + 1) * (auy + 1),
            0 <= auy <= 1000;

    assert(0 <= aux * 1250 && 0 <= auy * 1250) by (nonlinear_arith)
        requires
            0 <= aux,
            0 <= auy;
    vstd::arithmetic::div_mod::lemma_div_pos_is_pos(aux * 1250, 1000);
    vstd::arithmetic::div_mod::lemma_div_pos_is_pos(auy * 1250, 1000);
    if ux >= 0 {
        assert(ux * (MOVING_SPEED as int) == aux * 1250);
    } else {
        assert(-ux * (MOVING_SPEED as int) == aux * 1250);
    }
    if uy == auy {
        assert(uy * (MOVING_SPEED as int) == auy * 1250);
    } else {
        assert(-uy * (MOVING_SPEED as int) == auy * 1250);
    }
    let avx = if vx >= 0 { vx } else { -vx };
    let avy = if vy >= 0 { vy } else { -vy };
    assert(avx == (aux * 1250) / 1000);
    assert(avy == (auy * 1250) / 1000);

    vstd::arithmetic::div_mod::lemma_remainder(aux * 1250, 1000);
    vstd::arithmetic::div_mod::lemma_remainder(auy * 1250, 1000);
    assert(avx * 1000 <= aux * 1250 <= avx * 1000 + 999) by (nonlinear_arith)
        requires
            0 <= aux * 1250 - ((aux * 1250) / 1000) * 1000 < 1000,
            avx == (aux * 1250) / 1000;
    assert(avy * 1000 <= auy * 1250 <= avy * 1000 + 999) by (nonlinear_arith)
        requires
            0 <= auy * 1250 - ((auy * 1250) / 1000) * 1000 < 1000,
            avy == (auy * 1250) / 1000;

    assert(avx * avx * 1_000_000 <= aux * aux * 1_562_500) by (nonlinear_arith)
        requires
            0 <= avx,
            0 <= aux,
            avx * 1000 <= aux * 1250;
    assert(avy * avy * 1_000_000 <= auy * auy * 1_562_500) by (nonlinear_arith)
        requires
            0 <= avy,
            0 <= auy,
            avy * 1000 <= auy * 1250;
    assert(avx * avx * 1_000_000 >= aux * aux * 1_562_500 - 2_497_500 * aux - 998_001)
        by (nonlinear_arith)
        requires
            0 <= avx,
            0 <= aux,
            aux * 1250 <= avx * 1000 + 999,
            avx * 1000 <= aux * 1250;
    assert(avy * avy * 1_000_000 >= auy * auy * 1_562_500 - 2_497_500 * auy - 998_001)
        by (nonlinear_arith)
        requires
            0 <= avy,
            0 <= auy,
            auy * 1250 <= avy * 1000 + 999,
            avy * 1000 <= auy * 1250;

    assert(vx * vx == avx * avx && vy * vy == avy * avy) by (nonlinear_arith)
        requires
            avx == vx || avx == -vx,
            avy == vy || avy == -vy;
    assert(aux * aux + auy * auy <= 1_000_000);
    assert(aux * aux + auy * auy >= 997_999);
    assert(MOVING_SPEED * MOVING_SPEED == 1_562_500) by (nonlinear_arith)
        requires
            MOVING_SPEED == 1250;
    assert((MOVING_SPEED - 4) * (MOVING_SPEED - 4) == 1_552_516) by (nonlinear_arith)
        requires
            MOVING_SPEED == 1250;
    assert((vx * vx + vy * vy) * 1_000_000 <= 1_562_500_000_000);
    assert(vx * vx + vy * vy <= 1_562_500);
    assert(aux + auy <= 2000);
    assert((vx * vx + vy * vy) * 1_000_000 >= 997_999 * 1_562_500 - 2_497_500 * 2000 - 2
        * 998_001);
    assert(vx * vx + vy * vy >= 1_554_376);
}

/// Law (boundary reflection): a person at or past the low wall on the x
/// axis who is still moving inward comes out of one kinematic step
/// standing exactly on the margin with the x velocity sign-flipped, while
/// the y axis is computed from the y coordinate and velocity alone.
pub proof fn lemma_boundary_reflection(p: Person, dt: int)
    requires
        p.wf(),
        p.x <= MARGIN_FROM_WALL,
        p.velocity_x < 0,
        0 < dt,
    ensures
        p.moved_spec(dt).x == MARGIN_FROM_WALL,
        p.moved_spec(dt).velocity_x == -p.velocity_x,
        p.moved_spec(dt).y == reflect_pos(
            p.y as int,
            p.velocity_y as int,
            dt,
            active_bound(p.is_in_quarantine),
        ) as i64,
        p.moved_spec(dt).velocity_y == reflect_vel(
            p.y as int,
            p.velocity_y as int,
            dt,
            active_bound(p.is_in_quarantine),
        ) as i64,
{
    let vx = p.velocity_x as int;
    let delta = mul_div_spec(vx, dt, SCALE as int);
    assert(0 <= -vx * dt) by (nonlinear_arith)
        requires
            vx < 0,
            0 < dt;
    vstd::arithmetic::div_mod::lemma_div_pos_is_pos(-vx * dt, SCALE as int);
    assert(delta <= 0);
}

impl Person {
    /// The shape every person in a community keeps: coordinates inside
    /// the working range, bounded velocity components, and an infection
    /// timer that is zero outside the `Infected` state.
    pub open spec fn wf(self) -> bool {
        &&& 0 <= self.x <= AREA_CAP
        &&& 0 <= self.y <= AREA_CAP
        &&& -VELOCITY_CAP <= self.velocity_x <= VELOCITY_CAP
        &&& -VELOCITY_CAP <= self.velocity_y <= VELOCITY_CAP
        &&& 0 <= self.infection_duration <= RECOVERY_CAP
        &&& (self.state != PersonState::Infected ==> self.infection_duration == 0)
    }

    /// This person after one kinematic step of `dt` seconds: both axes
    /// move and reflect independently against the active area's walls.
    pub open spec fn moved_spec(self, dt: int) -> Person {
        let bound = active_bound(self.is_in_quarantine);
        Person {
            x: reflect_pos(self.x as int, self.velocity_x as int, dt, bound) as i64,
            y: reflect_pos(self.y as int, self.velocity_y as int, dt, bound) as i64,
            velocity_x: reflect_vel(self.x as int, self.velocity_x as int, dt, bound) as i64,
            velocity_y: reflect_vel(self.y as int, self.velocity_y as int, dt, bound) as i64,
            ..self
        }
    }

    /// Builds a person at a uniformly random position of the main area,
    /// moving at `MOVING_SPEED` along a random heading (a random point on
    /// the circle of that radius), healthy and outside quarantine.
    pub fn new() -> (p: Person)
        ensures
            p.wf(),
            0 <= p.x < SIMULATION_AREA_SIZE,
            0 <= p.y < SIMULATION_AREA_SIZE,
            -MOVING_SPEED <= p.velocity_x <= MOVING_SPEED,
            -MOVING_SPEED <= p.velocity_y <= MOVING_SPEED,
            p.velocity_x != 0 || p.velocity_y != 0,
            p.velocity_x * p.velocity_x + p.velocity_y * p.velocity_y <= MOVING_SPEED
                * MOVING_SPEED,
            (MOVING_SPEED - 4) * (MOVING_SPEED - 4) <= p.velocity_x * p.velocity_x + p.velocity_y
                * p.velocity_y,
            p.state == PersonState::Susceptible,
            p.infection_duration == 0,
            !p.is_in_quarantine,
    {
        let x = rng::sample_range(0, SIMULATION_AREA_SIZE);
        let y = rng::sample_range(0, SIMULATION_AREA_SIZE);
        let ux = rng::sample_range(-SCALE, SCALE + 1);
        proof {
            assert(0 <= SCALE * SCALE - ux * ux <= SCALE * SCALE) by (nonlinear_arith)
                requires
                    -SCALE <= ux <= SCALE;
        }
        let uy_mag = isqrt(SCALE * SCALE - ux * ux);
        proof {
            lemma_isqrt_bounds((SCALE * SCALE - ux * ux) as int);
            assert(uy_mag <= SCALE) by (nonlinear_arith)
                requires
                    0 <= uy_mag,
                    uy_mag * uy_mag <= SCALE * SCALE;
        }
        let flip = rng::sample_range(0, 2);
        let uy: i64 = if flip == 0 {
            uy_mag
        } else {
            -uy_mag
        };
        let vx = mul_div(ux, MOVING_SPEED, SCALE);
        let vy = mul_div(uy, MOVING_SPEED, SCALE);
        proof {
            lemma_mul_div_le(ux as int, MOVING_SPEED as int, SCALE as int, MOVING_SPEED as int);
            lemma_mul_div_le(uy as int, MOVING_SPEED as int, SCALE as int, MOVING_SPEED as int);
            lemma_heading_speed(ux as int, uy as int, vx as int, vy as int);
            if ux == 0 {
                crate::numeric::lemma_isqrt_unique((SCALE * SCALE - ux * ux) as int, SCALE as int);
                assert(uy == SCALE || uy == -SCALE);
                assert(SCALE * MOVING_SPEED == MOVING_SPEED * SCALE) by (nonlinear_arith);
                vstd::arithmetic::div_mod::lemma_div_multiples_vanish(
                    MOVING_SPEED as int,
                    SCALE as int,
                );
                assert(vy != 0);
            } else {
                let aux = if ux > 0 { ux as int } else { -(ux as int) };
                assert(aux * MOVING_SPEED >= 1 * SCALE) by (nonlinear_arith)
                    requires
                        1 <= aux,
                        0 < SCALE <= MOVING_SPEED;
                assert(SCALE * 1 == 1 * SCALE) by (nonlinear_arith);
                vstd::arithmetic::div_mod::lemma_div_multiples_vanish(1, SCALE as int);
                vstd::arithmetic::div_mod::lemma_div_is_ordered(
                    1 * SCALE,
                    aux * MOVING_SPEED,
                    SCALE as int,
                );
                assert(vx != 0);
            }
        }
        Person {
            x,
            y,
            velocity_x: vx,
            velocity_y: vy,
            state: PersonState::Susceptible,
            infection_duration: 0,
            is_in_quarantine: false,
        }
    }

    /// Marks this person as relocated to the quarantine zone.
    pub fn move_to_quarantine(&mut self)
        ensures
            *final(self) == (Person { is_in_quarantine: true, ..*old(self) }),
    {
        self.is_in_quarantine = true;
    }

    /// Moves this person by one time step of `time_frame_per_second`
    /// seconds and reflects it at the walls of its active area.
    pub fn update_position(&mut self, time_frame_per_second: i64)
        requires
            old(self).wf(),
            0 <= time_frame_per_second <= TIME_STEP_CAP,
        ensures
            *final(self) == old(self).moved_spec(time_frame_per_second as int),
            final(self).wf(),
    {
        proof {
            let vx0 = self.velocity_x as int;
            let vy0 = self.velocity_y as int;
            let dt0 = time_frame_per_second as int;
            assert(vx0 * dt0 <= VELOCITY_CAP * TIME_STEP_CAP
                && (-vx0) * dt0 <= VELOCITY_CAP * TIME_STEP_CAP
                && vy0 * dt0 <= VELOCITY_CAP * TIME_STEP_CAP
                && (-vy0) * dt0 <= VELOCITY_CAP * TIME_STEP_CAP) by (nonlinear_arith)
                requires
                    -VELOCITY_CAP <= vx0 <= VELOCITY_CAP,
                    -VELOCITY_CAP <= vy0 <= VELOCITY_CAP,
                    0 <= dt0 <= TIME_STEP_CAP;
        }
        let dx = mul_div(self.velocity_x, time_frame_per_second, SCALE);
        let dy = mul_div(self.velocity_y, time_frame_per_second, SCALE);
        proof {
            lemma_mul_div_le(
                old(self).velocity_x as int,
                time_frame_per_second as int,
                SCALE as int,
                (VELOCITY_CAP as int) * (TIME_STEP_CAP as int) / (SCALE as int),
            );
            lemma_mul_div_le(
                old(self).velocity_y as int,
                time_frame_per_second as int,
                SCALE as int,
                (VELOCITY_CAP as int) * (TIME_STEP_CAP as int) / (SCALE as int),
            );
        }
        self.x = self.x + dx;
        self.y = self.y + dy;

        let max_size = if self.is_in_quarantine {
            QUARANTINE_AREA_SIZE
        } else {
            SIMULATION_AREA_SIZE
        };

        if self.x <= MARGIN_FROM_WALL {
            self.velocity_x = -self.velocity_x;
            self.x = MARGIN_FROM_WALL;
        }
        if self.x >= max_size - MARGIN_FROM_WALL {
            self.velocity_x = -self.velocity_x;
            self.x = max_size - MARGIN_FROM_WALL;
        }
        if self.y <= MARGIN_FROM_WALL {
            self.velocity_y = -self.velocity_y;
            self.y = MARGIN_FROM_WALL;
        }
        if self.y >= max_size - MARGIN_FROM_WALL {
            self.velocity_y = -self.velocity_y;
            self.y = max_size - MARGIN_FROM_WALL;
        }
    }

    /// Whether this person is currently susceptible.
    pub fn is_susceptible(&self) -> (r: bool)
        ensures
            r == (self.state == PersonState::Susceptible),
    {
        matches!(self.state, PersonState::Susceptible)
    }

    /// Whether this person is currently infected.
    pub fn is_infected(&self) -> (r: bool)
        ensures
            r == (self.state == PersonState::Infected),
    {
        matches!(self.state, PersonState::Infected)
    }

    /// Euclidean distance to another person, in fixed-point pixels,
    /// rounded down to a whole fixed-point unit.
    pub fn calculate_distance(&self, other: &Person) -> (d: i64)
        requires
            self.wf(),
            other.wf(),
        ensures
            d == isqrt_spec(dist_sq(*self, *other)),
            0 <= d,
    {
        let dx = self.x - other.x;
        let dy = self.y - other.y;
        proof {
            assert(0 <= dx * dx <= AREA_CAP * AREA_CAP && 0 <= dy * dy <= AREA_CAP * AREA_CAP)
                by (nonlinear_arith)
                requires
                    -AREA_CAP <= dx <= AREA_CAP,
                    -AREA_CAP <= dy <= AREA_CAP;
            lemma_isqrt_bounds((dx * dx + dy * dy) as int);
        }
        isqrt(dx * dx + dy * dy)
    }
}

} // verus!
