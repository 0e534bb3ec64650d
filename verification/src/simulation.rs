//! The simulation controller: owns the community and the statistics
//! history, runs the per-tick pipeline (quarantine relocation, social
//! distancing, kinematics and recovery, infection spread, statistics
//! snapshot), and rebuilds both on a restart.

use crate::numeric::{
    isqrt, isqrt_spec, lemma_component_le_isqrt, lemma_isqrt_bounds, lemma_mul_div_le,
    lemma_mul_div_opposite, lemma_mul_div_sign, mul_div, mul_div_spec,
};
use crate::person::{dist_sq, Person, PersonState};
use crate::rng;
use crate::settings::{
    AREA_CAP, COMMUNITY_CAP, FORCE_CAP, INFECTION_PROBABILITY, INITIAL_INFECTED_PEOPLE,
    MARGIN_FROM_WALL, QUARANTINE_AREA_SIZE, RADIUS_CAP, RECOVERY_CAP, SCALE, SIMULATION_AREA_SIZE,
    SOCIAL_DISTANCING_MAX_SPEED, TIME_STEP_CAP, VELOCITY_CAP,
};
use vstd::prelude::*;

verus! {

/// The error a restart reports when the configured initial infected count
/// had to be clamped to fit inside the community.
#[derive(Clone, Copy, Debug, PartialEq, Eq, Structural)]
pub enum ConfigError {
    InvalidConfiguration,
}

/// How many members of `s` are in state `st`.
pub open spec fn count_state(s: Seq<Person>, st: PersonState) -> int
    decreases s.len(),
{
    if s.len() == 0 {
        0
    } else {
        count_state(s.drop_last(), st) + if s.last().state == st {
            1int
        } else {
            0int
        }
    }
}

/// How many members of `s` are or have been infected.
pub open spec fn count_ever_infected(s: Seq<Person>) -> int {
    count_state(s, PersonState::Infected) + count_state(s, PersonState::Recovered)
}

/// A state count is between zero and the community size.
pub proof fn lemma_count_state_bounds(s: Seq<Person>, st: PersonState)
    ensures
        0 <= count_state(s, st) <= s.len(),
    decreases s.len(),
{
    if s.len() > 0 {
        lemma_count_state_bounds(s.drop_last(), st);
    }
}

/// Law: every member is in exactly one state, so the three state counts
/// always add up to the community size.
pub proof fn lemma_state_counts_total(s: Seq<Person>)
    ensures
        count_state(s, PersonState::Susceptible) + count_state(s, PersonState::Infected)
            + count_state(s, PersonState::Recovered) == s.len(),
    decreases s.len(),
{
    if s.len() > 0 {
        lemma_state_counts_total(s.drop_last());
    }
}

/// Two communities whose members are in state `st` at exactly the same
/// indices have the same count of that state.
pub proof fn lemma_count_state_pointwise(s1: Seq<Person>, s2: Seq<Person>, st: PersonState)
    requires
        s1.len() == s2.len(),
        forall|i: int|
            0 <= i < s1.len() ==> ((#[trigger] s1[i].state == st) <==> (#[trigger] s2[i].state
                == st)),
    ensures
        count_state(s1, st) == count_state(s2, st),
    decreases s1.len(),
{
    if s1.len() > 0 {
        assert(forall|i: int|
            0 <= i < s1.drop_last().len() ==> s1.drop_last()[i] == s1[i] && s2.drop_last()[i]
                == s2[i]);
        lemma_count_state_pointwise(s1.drop_last(), s2.drop_last(), st);
        assert(s1.last() == s1[s1.len() - 1]);
        assert(s2.last() == s2[s1.len() - 1]);
    }
}

/// Law: in a well-formed simulation, every person outside the `Infected`
/// state carries a zero infection timer.
pub proof fn lemma_timer_zero_outside_infection(s: Simulation)
    requires
        s.wf(),
    ensures
        forall|i: int|
            0 <= i < s.community@.len() && (#[trigger] s.community@[i]).state
                != PersonState::Infected ==> s.community@[i].infection_duration == 0,
{
}

/// Whether `b` lies within `radius` of `a`, by Euclidean distance
/// (inclusive).
pub open spec fn within_radius(a: Person, b: Person, radius: int) -> bool {
    dist_sq(a, b) <= radius * radius
}

/// Whether some currently infected member of `s` lies within `radius`
/// of `p`.
pub open spec fn exposed(s: Seq<Person>, p: Person, radius: int) -> bool {
    exists|j: int|
        0 <= j < s.len() && s[j].state == PersonState::Infected && within_radius(p, s[j], radius)
}

/// Whether the member of `s` at index `i` is at risk this tick:
/// susceptible, with some infected member within `radius`.
pub open spec fn vulnerable(s: Seq<Person>, i: int, radius: int) -> bool {
    s[i].state == PersonState::Susceptible && exposed(s, s[i], radius)
}

/// The same person, freshly infected.
pub open spec fn infected_person(p: Person) -> Person {
    Person { state: PersonState::Infected, infection_duration: 0, ..p }
}

/// The health-state machine after `dt` seconds: an infected person's
/// timer advances, and reaching `recovered_days` makes the person
/// recovered with the timer reset to zero; everyone else is unchanged.
pub open spec fn health_step(p: Person, dt: int, recovered_days: int) -> Person {
    if p.state == PersonState::Infected {
        if p.infection_duration + dt >= recovered_days {
            Person { state: PersonState::Recovered, infection_duration: 0, ..p }
        } else {
            Person { infection_duration: (p.infection_duration + dt) as i64, ..p }
        }
    } else {
        p
    }
}

/// One deterministic per-person step of the tick pipeline: the recovery
/// check followed by the kinematic move.
pub open spec fn stepped_person(p: Person, dt: int, recovered_days: int) -> Person {
    health_step(p, dt, recovered_days).moved_spec(dt)
}

/// The health state machine only ever moves forward: Susceptible to
/// Infected to Recovered, never backward.
pub open spec fn state_progression(before: PersonState, after: PersonState) -> bool {
    ||| after == before
    ||| (before == PersonState::Susceptible && after == PersonState::Infected)
    ||| (before == PersonState::Infected && after == PersonState::Recovered)
}

/// Law (recovery threshold): an infected person whose accumulated timer
/// stays under the threshold remains infected with the larger timer; the
/// step that reaches the threshold yields a recovered person with the
/// timer reset to zero.
pub proof fn lemma_recovery_threshold(p: Person, dt: int, recovered_days: int)
    requires
        p.state == PersonState::Infected,
        0 <= p.infection_duration,
        0 < dt,
        p.infection_duration + dt <= i64::MAX,
    ensures
        p.infection_duration + dt >= recovered_days ==> health_step(p, dt, recovered_days)
            == (Person { state: PersonState::Recovered, infection_duration: 0, ..p }),
        p.infection_duration + dt < recovered_days ==> health_step(p, dt, recovered_days).state
            == PersonState::Infected && health_step(p, dt, recovered_days).infection_duration
            == p.infection_duration + dt,
{
}

/// Two communities in which exactly the same indices hold people who are
/// or have been infected carry the same total of infected plus recovered.
pub proof fn lemma_ever_infected_pointwise(s1: Seq<Person>, s2: Seq<Person>)
    requires
        s1.len() == s2.len(),
        forall|i: int|
            0 <= i < s1.len() ==> (((#[trigger] s1[i].state) == PersonState::Infected || s1[i].state
                == PersonState::Recovered) <==> (((#[trigger] s2[i].state)
                == PersonState::Infected) || s2[i].state == PersonState::Recovered)),
    ensures
        count_ever_infected(s1) == count_ever_infected(s2),
    decreases s1.len(),
{
    if s1.len() > 0 {
        assert(forall|i: int|
            0 <= i < s1.drop_last().len() ==> s1.drop_last()[i] == s1[i] && s2.drop_last()[i]
                == s2[i]);
        lemma_ever_infected_pointwise(s1.drop_last(), s2.drop_last());
        assert(s1.last() == s1[s1.len() - 1]);
        assert(s2.last() == s2[s1.len() - 1]);
    }
}

/// Whether two people repel each other under social distancing: distinct
/// positions, closer than the radius.
pub open spec fn pair_repulsion(a: Person, b: Person, radius: int) -> bool {
    0 < dist_sq(a, b) < radius * radius
}

/// One coordinate of the repulsion a neighbour at coordinate difference
/// `delta` exerts: the unit vector away from the neighbour scaled by the
/// linear falloff `(radius - d) / radius`, where `d` is the distance
/// rounded down to a whole fixed-point unit.
pub open spec fn repulsion_component(delta: int, d: int, radius: int) -> int
    recommends
        0 < d,
        0 < radius,
{
    mul_div_spec(delta, (radius - d) * (SCALE as int), d * radius)
}

/// The social-distancing force on member `i` of `s`, summed over the
/// members with index below `upto`.
pub open spec fn force_on_upto(s: Seq<Person>, i: int, radius: int, upto: int) -> (int, int)
    decreases upto,
{
    if upto <= 0 {
        (0, 0)
    } else {
        let prev = force_on_upto(s, i, radius, upto - 1);
        let j = upto - 1;
        if j != i && pair_repulsion(s[i], s[j], radius) {
            let d = isqrt_spec(dist_sq(s[i], s[j]));
            (
                prev.0 + repulsion_component(s[i].x - s[j].x, d, radius),
                prev.1 + repulsion_component(s[i].y - s[j].y, d, radius),
            )
        } else {
            prev
        }
    }
}

/// The total social-distancing force on member `i` of `s`.
pub open spec fn force_on(s: Seq<Person>, i: int, radius: int) -> (int, int) {
    force_on_upto(s, i, radius, s.len() as int)
}

/// For a repelling pair, the distance floor is at least one unit and
/// under the radius, and each force contribution stays within one
/// fixed-point unit per axis.
pub proof fn lemma_repulsion_bounds(a: Person, b: Person, radius: int)
    requires
        a.wf(),
        b.wf(),
        0 <= radius <= RADIUS_CAP,
        pair_repulsion(a, b, radius),
    ensures
        0 < radius,
        1 <= isqrt_spec(dist_sq(a, b)) < radius,
        -SCALE <= repulsion_component(a.x - b.x, isqrt_spec(dist_sq(a, b)), radius) <= SCALE,
        -SCALE <= repulsion_component(a.y - b.y, isqrt_spec(dist_sq(a, b)), radius) <= SCALE,
{
    let s = dist_sq(a, b);
    let d = isqrt_spec(s);
    let k = SCALE as int;
    lemma_isqrt_bounds(s);
    assert(0 < radius) by (nonlinear_arith)
        requires
            0 <= radius,
            0 < radius * radius;
    assert(d < radius) by (nonlinear_arith)
        requires
            0 <= d,
            0 < radius,
            d * d <= s,
            s < radius * radius;
    assert(1 <= d) by (nonlinear_arith)
        requires
            0 <= d,
            0 < s,
            s < (d + 1) * (d + 1);
    let dx = a.x - b.x;
    let dy = a.y - b.y;
    let adx = if dx >= 0 { dx } else { -dx };
    let ady = if dy >= 0 { dy } else { -dy };
    assert(adx * adx == dx * dx && 0 <= dx * dx) by (nonlinear_arith)
        requires
            0 <= adx,
            adx == dx || adx == -dx;
    assert(ady * ady == dy * dy && 0 <= dy * dy) by (nonlinear_arith)
        requires
            0 <= ady,
            ady == dy || ady == -dy;
    lemma_component_le_isqrt(adx, s);
    lemma_component_le_isqrt(ady, s);
    assert(0 <= (radius - d) * k) by (nonlinear_arith)
        requires
            d < radius,
            0 < k;
    assert(0 < d * radius) by (nonlinear_arith)
        requires
            0 < d,
            0 < radius;
    assert(adx * ((radius - d) * k) <= k * (d * radius) && ady * ((radius - d) * k) <= k * (d
        * radius)) by (nonlinear_arith)
        requires
            0 <= adx <= d,
            0 <= ady <= d,
            0 < d < radius,
            0 < k;
    assert(dx * ((radius - d) * k) <= adx * ((radius - d) * k) && (-dx) * ((radius - d) * k) <= adx
        * ((radius - d) * k)) by (nonlinear_arith)
        requires
            dx <= adx,
            -dx <= adx,
            0 <= (radius - d) * k;
    assert(dy * ((radius - d) * k) <= ady * ((radius - d) * k) && (-dy) * ((radius - d) * k) <= ady
        * ((radius - d) * k)) by (nonlinear_arith)
        requires
            dy <= ady,
            -dy <= ady,
            0 <= (radius - d) * k;
    lemma_mul_div_le(dx, (radius - d) * k, d * radius, k);
    lemma_mul_div_le(dy, (radius - d) * k, d * radius, k);
}

/// Law (social distancing, direction): in a two-person community whose
/// pair is closer than the radius but not coincident, each person's
/// force is exactly the single pairwise contribution, it never points
/// toward the other person on either axis (each component carries the
/// sign of the matching coordinate difference, up to rounding toward
/// zero), and the two forces are exact opposites.
pub proof fn lemma_two_person_repulsion(s: Seq<Person>, radius: int)
    requires
        s.len() == 2,
        s[0].wf(),
        s[1].wf(),
        0 <= radius <= RADIUS_CAP,
        pair_repulsion(s[0], s[1], radius),
    ensures
        force_on(s, 0, radius).0 == repulsion_component(
            s[0].x - s[1].x,
            isqrt_spec(dist_sq(s[0], s[1])),
            radius,
        ),
        force_on(s, 0, radius).1 == repulsion_component(
            s[0].y - s[1].y,
            isqrt_spec(dist_sq(s[0], s[1])),
            radius,
        ),
        (s[0].x - s[1].x) * force_on(s, 0, radius).0 >= 0,
        (s[0].y - s[1].y) * force_on(s, 0, radius).1 >= 0,
        force_on(s, 1, radius).0 == -force_on(s, 0, radius).0,
        force_on(s, 1, radius).1 == -force_on(s, 0, radius).1,
{
    let d = isqrt_spec(dist_sq(s[0], s[1]));
    let m = (radius - d) * (SCALE as int);
    lemma_repulsion_bounds(s[0], s[1], radius);
    assert(dist_sq(s[1], s[0]) == dist_sq(s[0], s[1])) by (nonlinear_arith);
    assert(pair_repulsion(s[1], s[0], radius));
    assert(force_on_upto(s, 0, radius, 0) == (0int, 0int));
    assert(force_on_upto(s, 0, radius, 1) == (0int, 0int));
    assert(force_on_upto(s, 1, radius, 0) == (0int, 0int));
    assert(force_on_upto(s, 1, radius, 2) == force_on_upto(s, 1, radius, 1));
    assert(force_on(s, 0, radius).0 == repulsion_component(s[0].x - s[1].x, d, radius));
    assert(force_on(s, 1, radius).0 == repulsion_component(s[1].x - s[0].x, d, radius));
    assert(0 <= m) by (nonlinear_arith)
        requires
            d < radius,
            0 < SCALE,
            m == (radius - d) * (SCALE as int);
    assert(0 < d * radius) by (nonlinear_arith)
        requires
            0 < d,
            0 < radius;
    lemma_mul_div_opposite(s[0].x - s[1].x, m, d * radius);
    lemma_mul_div_opposite(s[0].y - s[1].y, m, d * radius);
    lemma_mul_div_sign(s[0].x - s[1].x, m, d * radius);
    lemma_mul_div_sign(s[0].y - s[1].y, m, d * radius);
}

/// Law (social distancing, falloff): the repulsion grows as the pair
/// gets closer. For two distances `d1 < d2` inside the radius, the exact
/// per-unit-of-offset strength `(radius - d) / (d * radius)` is strictly
/// larger at the smaller distance (stated cross-multiplied, before
/// rounding toward zero).
pub proof fn lemma_falloff_monotonic(d1: int, d2: int, radius: int)
    requires
        1 <= d1 < d2 < radius,
    ensures
        (radius - d1) * (d2 * radius) > (radius - d2) * (d1 * radius),
{
    assert((radius - d1) * (d2 * radius) > (radius - d2) * (d1 * radius)) by (nonlinear_arith)
        requires
            1 <= d1 < d2 < radius;
}

/// Law (speed cap): when the damped force leaves a person's speed at or
/// under `max_speed`, the velocity is kept exactly as computed; when the
/// speed exceeds the cap, the rescaled velocity's speed, measured in
/// whole fixed-point units, is back at or under the cap.
pub proof fn lemma_speed_cap(vx: int, vy: int, fx: int, fy: int, max_speed: int)
    requires
        0 < max_speed,
    ensures
        ({
            let nvx = vx + mul_div_spec(fx, 1, 4);
            let nvy = vy + mul_div_spec(fy, 1, 4);
            isqrt_spec(nvx * nvx + nvy * nvy) <= max_speed ==> applied_velocity(
                vx,
                vy,
                fx,
                fy,
                max_speed,
            ) == (nvx, nvy)
        }),
        ({
            let nvx = vx + mul_div_spec(fx, 1, 4);
            let nvy = vy + mul_div_spec(fy, 1, 4);
            let r = applied_velocity(vx, vy, fx, fy, max_speed);
            isqrt_spec(nvx * nvx + nvy * nvy) > max_speed ==> isqrt_spec(r.0 * r.0 + r.1 * r.1)
                <= max_speed
        }),
{
    let nvx = vx + mul_div_spec(fx, 1, 4);
    let nvy = vy + mul_div_spec(fy, 1, 4);
    let n = nvx * nvx + nvy * nvy;
    assert(0 <= nvx * nvx && 0 <= nvy * nvy) by (nonlinear_arith);
    lemma_isqrt_bounds(n);
    let q = isqrt_spec(n);
    let big = q > max_speed;
    if big {
        let m = max_speed;
        let anvx = if nvx >= 0 { nvx } else { -nvx };
        let anvy = if nvy >= 0 { nvy } else { -nvy };
        let a = anvx * m;
        let b = anvy * m;
        assert(anvx * anvx == nvx * nvx) by (nonlinear_arith)
            requires
                anvx == nvx || anvx == -nvx;
        assert(anvy * anvy == nvy * nvy) by (nonlinear_arith)
            requires
                anvy == nvy || anvy == -nvy;
        assert(0 <= a && 0 <= b) by (nonlinear_arith)
            requires
                0 <= anvx,
                0 <= anvy,
                0 < m,
                a == anvx * m,
                b == anvy * m;
        let rx = mul_div_spec(nvx, m, q);
        let ry = mul_div_spec(nvy, m, q);
        let arx = a / q;
        let ary = b / q;
        assert(nvx * m == a || (-nvx) * m == a) by (nonlinear_arith)
            requires
                anvx == nvx || anvx == -nvx,
                a == anvx * m;
        assert(nvy * m == b || (-nvy) * m == b) by (nonlinear_arith)
            requires
                anvy == nvy || anvy == -nvy,
                b == anvy * m;
        assert(rx == arx || rx == -arx);
        assert(ry == ary || ry == -ary);
        vstd::arithmetic::div_mod::lemma_fundamental_div_mod(a, q);
        vstd::arithmetic::div_mod::lemma_remainder_lower(a, q);
        vstd::arithmetic::div_mod::lemma_fundamental_div_mod(b, q);
        vstd::arithmetic::div_mod::lemma_remainder_lower(b, q);
        vstd::arithmetic::div_mod::lemma_div_pos_is_pos(a, q);
        vstd::arithmetic::div_mod::lemma_div_pos_is_pos(b, q);
        assert(arx * q <= a) by (nonlinear_arith)
            requires
                a == q * arx + a % q,
                0 <= a % q;
        assert(ary * q <= b) by (nonlinear_arith)
            requires
                b == q * ary + b % q,
                0 <= b % q;
        assert(arx * arx * (q * q) <= a * a) by (nonlinear_arith)
            requires
                0 <= arx,
                0 <= q,
                0 <= a,
                arx * q <= a;
        assert(ary * ary * (q * q) <= b * b) by (nonlinear_arith)
            requires
                0 <= ary,
                0 <= q,
                0 <= b,
                ary * q <= b;
        assert(a * a == nvx * nvx * (m * m) && b * b == nvy * nvy * (m * m)) by (nonlinear_arith)
            requires
                a == anvx * m,
                b == anvy * m,
                anvx * anvx == nvx * nvx,
                anvy * anvy == nvy * nvy;
        assert(rx * rx == arx * arx && ry * ry == ary * ary) by (nonlinear_arith)
            requires
                rx == arx || rx == -arx,
                ry == ary || ry == -ary;
        assert((rx * rx + ry * ry) * (q * q) <= n * (m * m)) by (nonlinear_arith)
            requires
                rx * rx == arx * arx,
                ry * ry == ary * ary,
                arx * arx * (q * q) <= a * a,
                ary * ary * (q * q) <= b * b,
                a * a == nvx * nvx * (m * m),
                b * b == nvy * nvy * (m * m),
                n == nvx * nvx + nvy * nvy;
        assert(rx * rx + ry * ry < (m + 1) * (m + 1)) by (nonlinear_arith)
            requires
                (rx * rx + ry * ry) * (q * q) <= n * (m * m),
                n < (q + 1) * (q + 1),
                0 < m,
                m + 1 <= q,
                0 <= rx * rx + ry * ry;
        assert(0 <= rx * rx && 0 <= ry * ry) by (nonlinear_arith);
        lemma_isqrt_bounds(rx * rx + ry * ry);
        let qq = isqrt_spec(rx * rx + ry * ry);
        assert(qq <= m) by (nonlinear_arith)
            requires
                0 <= qq,
                0 < m,
                qq * qq <= rx * rx + ry * ry,
                rx * rx + ry * ry < (m + 1) * (m + 1);
    }
}

/// The initial infected count a restart actually uses: the configured
/// count clamped into `[1, community_size]`.
pub open spec fn effective_initial_infected(configured: int, size: int) -> int {
    if configured < 1 {
        1
    } else if configured > size {
        size
    } else {
        configured
    }
}

/// Counting over a community whose first `k` members are infected and
/// the rest susceptible.
pub proof fn lemma_count_infected_prefix(s: Seq<Person>, k: int)
    requires
        0 <= k <= s.len(),
        forall|i: int|
            0 <= i < s.len() ==> (#[trigger] s[i]).state == (if i < k {
                PersonState::Infected
            } else {
                PersonState::Susceptible
            }),
    ensures
        count_state(s, PersonState::Infected) == k,
        count_state(s, PersonState::Susceptible) == s.len() - k,
        count_state(s, PersonState::Recovered) == 0,
    decreases s.len(),
{
    if s.len() > 0 {
        let pre = s.drop_last();
        assert(forall|i: int| 0 <= i < pre.len() ==> pre[i] == s[i]);
        assert(s.last() == s[s.len() - 1]);
        if k == s.len() {
            lemma_count_infected_prefix(pre, k - 1);
        } else {
            lemma_count_infected_prefix(pre, k);
        }
    }
}

/// A person's velocity pair after one damped force application: a quarter
/// of the force is added to each component, and a speed above `max_speed`
/// is scaled back down to it.
pub open spec fn applied_velocity(vx: int, vy: int, fx: int, fy: int, max_speed: int) -> (
    int,
    int,
) {
    let nvx = vx + mul_div_spec(fx, 1, 4);
    let nvy = vy + mul_div_spec(fy, 1, 4);
    let speed = isqrt_spec(nvx * nvx + nvy * nvy);
    if speed > max_speed {
        (mul_div_spec(nvx, max_speed, speed), mul_div_spec(nvy, max_speed, speed))
    } else {
        (nvx, nvy)
    }
}

/// Member `i` of the snapshot `s` after the social-distancing phase: the
/// same person with the damped force, computed over the whole snapshot,
/// applied to the velocity and the speed capped.
pub open spec fn distanced_person(s: Seq<Person>, i: int, radius: int) -> Person {
    let f = force_on(s, i, radius);
    let nv = applied_velocity(
        s[i].velocity_x as int,
        s[i].velocity_y as int,
        f.0,
        f.1,
        SOCIAL_DISTANCING_MAX_SPEED as int,
    );
    Person { velocity_x: nv.0 as i64, velocity_y: nv.1 as i64, ..s[i] }
}

/// What one pipeline pass of `dt` seconds guarantees of the community
/// `post` grown from the simulation `pre`: every member advances by the
/// quarantine relocation, social distancing, recovery check and
/// kinematic move as configured, and the stochastic transmission is the
/// only remaining freedom.
pub open spec fn community_advanced(pre: Simulation, post: Seq<Person>, dt: int) -> bool {
    let s = pre.community@;
    let rd = pre.recovered_days as int;
    let radius_sd = pre.social_distancing_radius as int;
    &&& post.len() == s.len()
    &&& forall|i: int|
        0 <= i < s.len() ==> state_progression(s[i].state, (#[trigger] post[i]).state)
    &&& forall|i: int|
        0 <= i < s.len() ==> (#[trigger] post[i]).is_in_quarantine == (s[i].is_in_quarantine || (
        pre.quarantine_enabled && s[i].state == PersonState::Infected))
    &&& forall|i: int|
        0 <= i < s.len() && s[i].state != PersonState::Susceptible ==> (#[trigger] post[i]).state
            == health_step(s[i], dt, rd).state && post[i].infection_duration == health_step(
            s[i],
            dt,
            rd,
        ).infection_duration
    &&& forall|i: int|
        0 <= i < s.len() && s[i].state == PersonState::Susceptible ==> (#[trigger] post[i]).infection_duration
            == 0
    &&& (pre.infection_probability <= 0 ==> forall|i: int|
        0 <= i < s.len() ==> (#[trigger] post[i]).state == health_step(s[i], dt, rd).state)
    &&& (pre.infection_probability <= 0 ==> count_ever_infected(post) == count_ever_infected(s)
        && count_state(post, PersonState::Susceptible) == count_state(
        s,
        PersonState::Susceptible,
    ))
    &&& ((!pre.social_distancing_enabled && !pre.quarantine_enabled) ==> forall|i: int|
        0 <= i < s.len() ==> ((#[trigger] post[i]) == stepped_person(s[i], dt, rd) || post[i]
            == infected_person(stepped_person(s[i], dt, rd))))
    &&& ((!pre.social_distancing_enabled && !pre.quarantine_enabled && pre.infection_probability
        <= 0) ==> forall|i: int|
        0 <= i < s.len() ==> (#[trigger] post[i]) == stepped_person(s[i], dt, rd))
    &&& ((pre.social_distancing_enabled && !pre.quarantine_enabled) ==> forall|i: int|
        0 <= i < s.len() ==> ((#[trigger] post[i]) == stepped_person(
            distanced_person(s, i, radius_sd),
            dt,
            rd,
        ) || post[i] == infected_person(stepped_person(distanced_person(s, i, radius_sd), dt, rd))))
    &&& ((pre.social_distancing_enabled && !pre.quarantine_enabled && pre.infection_probability
        <= 0) ==> forall|i: int|
        0 <= i < s.len() ==> (#[trigger] post[i]) == stepped_person(
            distanced_person(s, i, radius_sd),
            dt,
            rd,
        ))
    &&& (pre.quarantine_enabled ==> forall|i: int|
        0 <= i < s.len() && s[i].state == PersonState::Infected ==> MARGIN_FROM_WALL <= (
        #[trigger] post[i]).x <= QUARANTINE_AREA_SIZE - MARGIN_FROM_WALL && MARGIN_FROM_WALL
            <= post[i].y <= QUARANTINE_AREA_SIZE - MARGIN_FROM_WALL)
}

/// A share of `count` out of `total`, as a fixed-point percentage.
pub open spec fn percent_spec(count: int, total: int) -> int
    recommends
        0 < total,
{
    count * 100 * (SCALE as int) / total
}

/// The epidemic simulation: a community of people, the statistics history
/// as four parallel sequences, and the configuration in force.
pub struct Simulation {
    pub community: Vec<Person>,
    pub total_time: Vec<i64>,
    pub community_size: usize,
    pub initial_infected_count: usize,
    pub recovered_days: i64,
    pub infected_radius: i64,
    pub ui_infected_radius: i64,
    pub infection_probability: i64,
    pub infected_chart: Vec<i64>,
    pub susceptible_chart: Vec<i64>,
    pub recovered_chart: Vec<i64>,
    pub social_distancing_radius: i64,
    pub social_distancing_enabled: bool,
    pub quarantine_enabled: bool,
}

impl Simulation {
    /// Validity of the configuration fields alone.
    pub open spec fn params_wf(self) -> bool {
        &&& 1 <= self.community_size <= COMMUNITY_CAP
        &&& 0 <= self.recovered_days <= RECOVERY_CAP
        &&& 0 <= self.infected_radius <= RADIUS_CAP
        &&& 0 <= self.ui_infected_radius <= RADIUS_CAP
        &&& 0 <= self.infection_probability
        &&& 0 <= self.social_distancing_radius <= RADIUS_CAP
    }

    /// The shape a simulation keeps between ticks: valid configuration,
    /// a community of well-formed people, and four statistics sequences
    /// of equal, non-zero length.
    pub open spec fn wf(self) -> bool {
        &&& self.params_wf()
        &&& self.community@.len() <= COMMUNITY_CAP
        &&& forall|i: int| 0 <= i < self.community@.len() ==> (#[trigger] self.community@[i]).wf()
        &&& 1 <= self.total_time@.len()
        &&& self.total_time@.len() == self.infected_chart@.len()
        &&& self.total_time@.len() == self.susceptible_chart@.len()
        &&& self.total_time@.len() == self.recovered_chart@.len()
        &&& forall|i: int| 0 <= i < self.total_time@.len() ==> 0 <= #[trigger] self.total_time@[i]
    }

    /// The two simulations have the same configuration fields.
    pub open spec fn same_config(self, other: Simulation) -> bool {
        &&& self.community_size == other.community_size
        &&& self.initial_infected_count == other.initial_infected_count
        &&& self.recovered_days == other.recovered_days
        &&& self.infected_radius == other.infected_radius
        &&& self.ui_infected_radius == other.ui_infected_radius
        &&& self.infection_probability == other.infection_probability
        &&& self.social_distancing_radius == other.social_distancing_radius
        &&& self.social_distancing_enabled == other.social_distancing_enabled
        &&& self.quarantine_enabled == other.quarantine_enabled
    }

    /// The two simulations have the same statistics history.
    pub open spec fn same_history(self, other: Simulation) -> bool {
        &&& self.total_time@ == other.total_time@
        &&& self.infected_chart@ == other.infected_chart@
        &&& self.susceptible_chart@ == other.susceptible_chart@
        &&& self.recovered_chart@ == other.recovered_chart@
    }

    /// How many members of the community are currently in state `st`.
    pub fn count_in_state(&self, st: PersonState) -> (n: usize)
        requires
            self.community@.len() <= COMMUNITY_CAP,
        ensures
            n == count_state(self.community@, st),
            n <= self.community@.len(),
    {
        let mut n: usize = 0;
        let mut i: usize = 0;
        proof {
            assert(self.community@.subrange(0, 0) =~= Seq::<Person>::empty());
        }
        while i < self.community.len()
            invariant
                i <= self.community@.len(),
                self.community@.len() <= COMMUNITY_CAP,
                n == count_state(self.community@.subrange(0, i as int), st),
                n <= i,
            decreases self.community@.len() - i,
        {
            proof {
                let pre = self.community@.subrange(0, i as int);
                let post = self.community@.subrange(0, i + 1);
                assert(post.drop_last() =~= pre);
                assert(post.last() == self.community@[i as int]);
                lemma_count_state_bounds(pre, st);
            }
            if self.community[i].state == st {
                n = n + 1;
            }
            i = i + 1;
        }
        proof {
            assert(self.community@.subrange(0, self.community@.len() as int) =~= self.community@);
            lemma_count_state_bounds(self.community@, st);
        }
        n
    }

    /// Whether some currently infected member of the community lies
    /// within the infection radius of `person`.
    pub fn is_within_infected_radius(&self, person: &Person) -> (r: bool)
        requires
            self.wf(),
            person.wf(),
        ensures
            r == exposed(self.community@, *person, self.infected_radius as int),
    {
        let mut i: usize = 0;
        while i < self.community.len()
            invariant
                self.wf(),
                person.wf(),
                i <= self.community@.len(),
                !exists|j: int|
                    0 <= j < i && self.community@[j].state == PersonState::Infected
                        && within_radius(*person, self.community@[j], self.infected_radius as int),
            decreases self.community@.len() - i,
        {
            let member = self.community[i];
            if member.state == PersonState::Infected {
                let dx = person.x - member.x;
                let dy = person.y - member.y;
                proof {
                    assert(0 <= dx * dx <= AREA_CAP * AREA_CAP
                        && 0 <= dy * dy <= AREA_CAP
                        * AREA_CAP) by (nonlinear_arith)
                        requires
                            -AREA_CAP <= dx <= AREA_CAP,
                            -AREA_CAP <= dy <= AREA_CAP;
                    assert(0 <= self.infected_radius * self.infected_radius <= RADIUS_CAP
                        * RADIUS_CAP) by (nonlinear_arith)
                        requires
                            0 <= self.infected_radius <= RADIUS_CAP;
                }
                let d_sq = dx * dx + dy * dy;
                if d_sq <= self.infected_radius * self.infected_radius {
                    return true;
                }
            }
            i = i + 1;
        }
        false
    }

    /// Collects the indices of all at-risk members: the susceptible
    /// people with some infected member within the infection radius,
    /// in increasing index order.
    pub fn find_vulnerable_people(&self) -> (v: Vec<usize>)
        requires
            self.wf(),
        ensures
            forall|k: int| 0 <= k < v@.len() ==> (#[trigger] v@[k]) < self.community@.len(),
            forall|k1: int, k2: int| 0 <= k1 < k2 < v@.len() ==> v@[k1] < v@[k2],
            forall|i: int|
                0 <= i < self.community@.len() ==> (v@.contains(i as usize) <==> vulnerable(
                    self.community@,
                    i,
                    self.infected_radius as int,
                )),
    {
        let mut v: Vec<usize> = Vec::new();
        let mut i: usize = 0;
        while i < self.community.len()
            invariant
                self.wf(),
                i <= self.community@.len(),
                forall|k: int| 0 <= k < v@.len() ==> (#[trigger] v@[k]) < i,
                forall|k1: int, k2: int| 0 <= k1 < k2 < v@.len() ==> v@[k1] < v@[k2],
                forall|j: int|
                    0 <= j < i ==> (v@.contains(j as usize) <==> vulnerable(
                        self.community@,
                        j,
                        self.infected_radius as int,
                    )),
            decreases self.community@.len() - i,
        {
            let person = self.community[i];
            let ghost pre = v@;
            if person.is_susceptible() && self.is_within_infected_radius(&person) {
                v.push(i);
                proof {
                    assert(v@ == pre.push(i as usize));
                    assert(v@[v@.len() - 1] == i as usize);
                    assert(forall|k: int| 0 <= k < pre.len() ==> v@[k] == pre[k]);
                    assert forall|j: int| 0 <= j < i + 1 implies (#[trigger] v@.contains(
                        j as usize,
                    ) <==> vulnerable(self.community@, j, self.infected_radius as int)) by {
                        if j == i {
                            assert(v@[v@.len() - 1] == (j as usize));
                            assert(v@.contains(j as usize));
                        } else {
                            if pre.contains(j as usize) {
                                let k = choose|k: int|
                                    0 <= k < pre.len() && pre[k] == (j as usize);
                                assert(v@[k] == (j as usize));
                                assert(v@.contains(j as usize));
                            }
                            if v@.contains(j as usize) {
                                let k = choose|k: int| 0 <= k < v@.len() && v@[k] == (j as usize);
                                assert(k < pre.len());
                                assert(pre.contains(j as usize));
                            }
                        }
                    }
                }
            } else {
                proof {
                    if v@.contains(i as usize) {
                        let k = choose|k: int| 0 <= k < v@.len() && v@[k] == (i as usize);
                        assert(v@[k] < i);
                    }
                }
            }
            i = i + 1;
        }
        v
    }

    /// Decides one transmission: an at-risk person becomes infected
    /// exactly when the drawn value lies below the transmission
    /// probability.
    pub fn transmission_occurs(draw: i64, probability: i64) -> (r: bool)
        ensures
            r == (draw < probability),
    {
        draw < probability
    }

    /// Runs the stochastic transmission step. The at-risk set is computed
    /// from the current snapshot first; each at-risk person then
    /// independently becomes infected with probability
    /// `infection_probability`; everyone else is untouched. With a
    /// non-positive probability the community is left exactly as it was.
    pub fn spread_infection(&mut self)
        requires
            old(self).wf(),
        ensures
            final(self).wf(),
            final(self).same_config(*old(self)),
            final(self).same_history(*old(self)),
            final(self).community@.len() == old(self).community@.len(),
            forall|i: int|
                0 <= i < old(self).community@.len() && !vulnerable(
                    old(self).community@,
                    i,
                    old(self).infected_radius as int,
                ) ==> final(self).community@[i] == old(self).community@[i],
            forall|i: int|
                0 <= i < old(self).community@.len() && vulnerable(
                    old(self).community@,
                    i,
                    old(self).infected_radius as int,
                ) ==> (final(self).community@[i] == old(self).community@[i]
                    || final(self).community@[i] == infected_person(old(self).community@[i])),
            old(self).infection_probability <= 0
                ==> final(self).community@ == old(self).community@,
            old(self).infection_probability >= SCALE ==> forall|i: int|
                0 <= i < old(self).community@.len() && vulnerable(
                    old(self).community@,
                    i,
                    old(self).infected_radius as int,
                ) ==> #[trigger] final(self).community@[i] == infected_person(
                    old(self).community@[i],
                ),
    {
        let vulnerable_people = self.find_vulnerable_people();
        let ghost orig = self.community@;
        let ghost radius = self.infected_radius as int;
        let mut k: usize = 0;
        while k < vulnerable_people.len()
            invariant
                self.wf(),
                self.same_config(*old(self)),
                self.same_history(*old(self)),
                orig == old(self).community@,
                radius == old(self).infected_radius as int,
                self.community@.len() == orig.len(),
                k <= vulnerable_people@.len(),
                forall|k2: int|
                    0 <= k2 < vulnerable_people@.len() ==> (#[trigger] vulnerable_people@[k2])
                        < orig.len(),
                forall|i: int|
                    0 <= i < orig.len() ==> (vulnerable_people@.contains(i as usize) <==> vulnerable(
                        orig,
                        i,
                        radius,
                    )),
                forall|i: int|
                    0 <= i < orig.len() && !vulnerable(orig, i, radius)
                        ==> self.community@[i] == orig[i],
                forall|i: int|
                    0 <= i < orig.len() && vulnerable(orig, i, radius) ==> (self.community@[i]
                        == orig[i] || self.community@[i] == infected_person(orig[i])),
                old(self).infection_probability <= 0 ==> self.community@ == orig,
                forall|k1: int, k2: int|
                    0 <= k1 < k2 < vulnerable_people@.len() ==> vulnerable_people@[k1]
                        < vulnerable_people@[k2],
                old(self).infection_probability >= SCALE ==> forall|k2: int|
                    0 <= k2 < k ==> self.community@[(#[trigger] vulnerable_people@[k2]) as int]
                        == infected_person(orig[vulnerable_people@[k2] as int]),
            decreases vulnerable_people@.len() - k,
        {
            let index = vulnerable_people[k];
            proof {
                assert(vulnerable_people@[k as int] == index);
                assert(vulnerable_people@.contains(index));
                assert(vulnerable(orig, index as int, radius));
                assert(forall|k2: int|
                    0 <= k2 < k ==> (#[trigger] vulnerable_people@[k2]) < index);
            }
            let random = rng::sample_range(0, SCALE);
            if Self::transmission_occurs(random, self.infection_probability) {
                let mut p = self.community[index];
                p.state = PersonState::Infected;
                p.infection_duration = 0;
                self.community[index] = p;
                proof {
                    assert(self.community@[index as int] == infected_person(orig[index as int]));
                }
            }
            k = k + 1;
        }
        proof {
            if old(self).infection_probability >= SCALE {
                let v = vulnerable_people@;
                assert forall|i: int|
                    0 <= i < orig.len() && vulnerable(orig, i, radius) implies #[trigger] self
                    .community@[i] == infected_person(orig[i]) by {
                    assert(v.contains(i as usize));
                    let k2 = choose|k2: int| 0 <= k2 < v.len() && v[k2] == (i as usize);
                    assert(self.community@[v[k2] as int] == infected_person(orig[v[k2] as int]));
                }
            }
        }
    }

    /// Computes the social-distancing repulsion force on the person at
    /// `own_index`: the sum, over every other person closer than the
    /// social-distancing radius but not coincident, of the unit vector
    /// away from that person scaled by the linear falloff
    /// `(radius - d) / radius`.
    pub fn calculate_social_distancing_force(&self, own_index: usize) -> (f: (i64, i64))
        requires
            self.wf(),
            own_index < self.community@.len(),
        ensures
            f.0 == force_on(
                self.community@,
                own_index as int,
                self.social_distancing_radius as int,
            ).0,
            f.1 == force_on(
                self.community@,
                own_index as int,
                self.social_distancing_radius as int,
            ).1,
            -FORCE_CAP <= f.0 <= FORCE_CAP,
            -FORCE_CAP <= f.1 <= FORCE_CAP,
    {
        let ghost radius = self.social_distancing_radius as int;
        let mut x: i64 = 0;
        let mut y: i64 = 0;
        let person = self.community[own_index];
        let mut j: usize = 0;
        while j < self.community.len()
            invariant
                self.wf(),
                own_index < self.community@.len(),
                person == self.community@[own_index as int],
                radius == self.social_distancing_radius as int,
                j <= self.community@.len(),
                x == force_on_upto(self.community@, own_index as int, radius, j as int).0,
                y == force_on_upto(self.community@, own_index as int, radius, j as int).1,
                -1000 * (j as int) <= x <= 1000 * (j as int),
                -1000 * (j as int) <= y <= 1000 * (j as int),
            decreases self.community@.len() - j,
        {
            let ghost fprev = force_on_upto(self.community@, own_index as int, radius, j as int);
            if j != own_index {
                let other = self.community[j];
                let dx = person.x - other.x;
                let dy = person.y - other.y;
                proof {
                    assert(0 <= dx * dx <= AREA_CAP * AREA_CAP && 0 <= dy * dy <= AREA_CAP
                        * AREA_CAP) by (nonlinear_arith)
                        requires
                            -AREA_CAP <= dx <= AREA_CAP,
                            -AREA_CAP <= dy <= AREA_CAP;
                    assert(0 <= self.social_distancing_radius * self.social_distancing_radius
                        <= RADIUS_CAP * RADIUS_CAP) by (nonlinear_arith)
                        requires
                            0 <= self.social_distancing_radius <= RADIUS_CAP;
                }
                let d_sq = dx * dx + dy * dy;
                let r = self.social_distancing_radius;
                if d_sq > 0 && d_sq < r * r {
                    proof {
                        assert(d_sq as int == dist_sq(person, other));
                        assert(pair_repulsion(person, other, radius));
                        lemma_repulsion_bounds(person, other, radius);
                    }
                    let d = isqrt(d_sq);
                    proof {
                        assert(d as int == isqrt_spec(dist_sq(person, other)));
                        assert(dx * ((r - d) * SCALE) <= AREA_CAP * (RADIUS_CAP * SCALE) && (-dx)
                            * ((r - d) * SCALE) <= AREA_CAP * (RADIUS_CAP * SCALE) && dy * ((r - d)
                            * SCALE) <= AREA_CAP * (RADIUS_CAP * SCALE) && (-dy) * ((r - d)
                            * SCALE) <= AREA_CAP * (RADIUS_CAP * SCALE)) by (nonlinear_arith)
                            requires
                                -AREA_CAP <= dx <= AREA_CAP,
                                -AREA_CAP <= dy <= AREA_CAP,
                                0 <= (r - d) <= RADIUS_CAP,
                                0 < SCALE;
                        assert(0 < d * r <= RADIUS_CAP * RADIUS_CAP) by (nonlinear_arith)
                            requires
                                0 < d < r <= RADIUS_CAP;
                    }
                    let fx = mul_div(dx, (r - d) * SCALE, d * r);
                    let fy = mul_div(dy, (r - d) * SCALE, d * r);
                    proof {
                        assert(fx == repulsion_component(
                            person.x - other.x,
                            isqrt_spec(dist_sq(person, other)),
                            radius,
                        ));
                        assert(fy == repulsion_component(
                            person.y - other.y,
                            isqrt_spec(dist_sq(person, other)),
                            radius,
                        ));
                        assert(-SCALE <= fx <= SCALE && -SCALE <= fy <= SCALE);
                        assert(force_on_upto(self.community@, own_index as int, radius, j + 1).0
                            == fprev.0 + fx && force_on_upto(
                            self.community@,
                            own_index as int,
                            radius,
                            j + 1,
                        ).1 == fprev.1 + fy);
                    }
                    x = x + fx;
                    y = y + fy;
                } else {
                    proof {
                        assert(!pair_repulsion(person, other, radius));
                        assert(force_on_upto(self.community@, own_index as int, radius, j + 1)
                            == fprev);
                    }
                }
            } else {
                proof {
                    assert(force_on_upto(self.community@, own_index as int, radius, j + 1)
                        == fprev);
                }
            }
            j = j + 1;
        }
        (x, y)
    }

    /// Applies precomputed social-distancing forces, one per person, in
    /// order: a quarter of each force is added to the matching person's
    /// velocity, and any speed that then exceeds
    /// `SOCIAL_DISTANCING_MAX_SPEED` is scaled back down to the cap.
    pub fn apply_forces(&mut self, forces: Vec<(i64, i64)>)
        requires
            old(self).wf(),
            forces@.len() == old(self).community@.len(),
            forall|k: int|
                0 <= k < forces@.len() ==> -FORCE_CAP <= (#[trigger] forces@[k]).0 <= FORCE_CAP
                    && -FORCE_CAP <= forces@[k].1 <= FORCE_CAP,
        ensures
            final(self).wf(),
            final(self).same_config(*old(self)),
            final(self).same_history(*old(self)),
            final(self).community@.len() == old(self).community@.len(),
            forall|i: int|
                0 <= i < old(self).community@.len() ==> {
                    let o = old(self).community@[i];
                    let nv = applied_velocity(
                        o.velocity_x as int,
                        o.velocity_y as int,
                        forces@[i].0 as int,
                        forces@[i].1 as int,
                        SOCIAL_DISTANCING_MAX_SPEED as int,
                    );
                    #[trigger] final(self).community@[i] == Person {
                        velocity_x: nv.0 as i64,
                        velocity_y: nv.1 as i64,
                        ..o
                    }
                },
    {
        let ghost orig = self.community@;
        let mut i: usize = 0;
        while i < self.community.len()
            invariant
                self.wf(),
                self.same_config(*old(self)),
                self.same_history(*old(self)),
                orig == old(self).community@,
                self.community@.len() == orig.len(),
                forces@.len() == orig.len(),
                forall|k: int|
                    0 <= k < forces@.len() ==> -FORCE_CAP <= (#[trigger] forces@[k]).0 <= FORCE_CAP
                        && -FORCE_CAP <= forces@[k].1 <= FORCE_CAP,
                i <= orig.len(),
                forall|j: int| i <= j < orig.len() ==> self.community@[j] == orig[j],
                forall|j: int|
                    0 <= j < i ==> {
                        let o = orig[j];
                        let nv = applied_velocity(
                            o.velocity_x as int,
                            o.velocity_y as int,
                            forces@[j].0 as int,
                            forces@[j].1 as int,
                            SOCIAL_DISTANCING_MAX_SPEED as int,
                        );
                        #[trigger] self.community@[j] == Person {
                            velocity_x: nv.0 as i64,
                            velocity_y: nv.1 as i64,
                            ..o
                        }
                    },
            decreases orig.len() - i,
        {
            let mut p = self.community[i];
            let force = forces[i];
            let dvx = mul_div(force.0, 1, 4);
            let dvy = mul_div(force.1, 1, 4);
            proof {
                lemma_mul_div_le(force.0 as int, 1, 4, FORCE_CAP as int);
                lemma_mul_div_le(force.1 as int, 1, 4, FORCE_CAP as int);
            }
            p.velocity_x = p.velocity_x + dvx;
            p.velocity_y = p.velocity_y + dvy;
            let nvx = p.velocity_x;
            let nvy = p.velocity_y;
            proof {
                assert(0 <= nvx * nvx < 2_000_000_000_000_000_000 && 0 <= nvy * nvy
                    < 2_000_000_000_000_000_000) by (nonlinear_arith)
                    requires
                        -(VELOCITY_CAP + FORCE_CAP) <= nvx <= VELOCITY_CAP + FORCE_CAP,
                        -(VELOCITY_CAP + FORCE_CAP) <= nvy <= VELOCITY_CAP + FORCE_CAP;
            }
            let speed = isqrt(nvx * nvx + nvy * nvy);
            if speed > SOCIAL_DISTANCING_MAX_SPEED {
                proof {
                    let anvx = if nvx >= 0 { nvx as int } else { -(nvx as int) };
                    let anvy = if nvy >= 0 { nvy as int } else { -(nvy as int) };
                    assert(anvx * anvx == nvx * nvx && anvy * anvy == nvy * nvy)
                        by (nonlinear_arith)
                        requires
                            anvx == nvx || anvx == -nvx,
                            anvy == nvy || anvy == -nvy;
                    lemma_component_le_isqrt(anvx, (nvx * nvx + nvy * nvy) as int);
                    lemma_component_le_isqrt(anvy, (nvx * nvx + nvy * nvy) as int);
                    assert(nvx * SOCIAL_DISTANCING_MAX_SPEED <= SOCIAL_DISTANCING_MAX_SPEED
                        * (speed as int) && (-nvx) * SOCIAL_DISTANCING_MAX_SPEED
                        <= SOCIAL_DISTANCING_MAX_SPEED * (speed as int) && nvy
                        * SOCIAL_DISTANCING_MAX_SPEED <= SOCIAL_DISTANCING_MAX_SPEED * (
                    speed as int) && (-nvy) * SOCIAL_DISTANCING_MAX_SPEED
                        <= SOCIAL_DISTANCING_MAX_SPEED * (speed as int)) by (nonlinear_arith)
                        requires
                            anvx <= speed as int,
                            anvy <= speed as int,
                            anvx == nvx || anvx == -nvx,
                            anvy == nvy || anvy == -nvy,
                            0 <= anvx,
                            0 <= anvy,
                            0 < SOCIAL_DISTANCING_MAX_SPEED;
                    lemma_mul_div_le(
                        nvx as int,
                        SOCIAL_DISTANCING_MAX_SPEED as int,
                        speed as int,
                        SOCIAL_DISTANCING_MAX_SPEED as int,
                    );
                    lemma_mul_div_le(
                        nvy as int,
                        SOCIAL_DISTANCING_MAX_SPEED as int,
                        speed as int,
                        SOCIAL_DISTANCING_MAX_SPEED as int,
                    );
                }
                p.velocity_x = mul_div(nvx, SOCIAL_DISTANCING_MAX_SPEED, speed);
                p.velocity_y = mul_div(nvy, SOCIAL_DISTANCING_MAX_SPEED, speed);
            } else {
                proof {
                    let anvx = if nvx >= 0 { nvx as int } else { -(nvx as int) };
                    let anvy = if nvy >= 0 { nvy as int } else { -(nvy as int) };
                    assert(anvx * anvx == nvx * nvx && anvy * anvy == nvy * nvy)
                        by (nonlinear_arith)
                        requires
                            anvx == nvx || anvx == -nvx,
                            anvy == nvy || anvy == -nvy;
                    lemma_component_le_isqrt(anvx, (nvx * nvx + nvy * nvy) as int);
                    lemma_component_le_isqrt(anvy, (nvx * nvx + nvy * nvy) as int);
                }
            }
            self.community[i] = p;
            i = i + 1;
        }
    }

    /// When quarantine is enabled, relocates every currently infected
    /// person to a uniformly random position inside the quarantine zone's
    /// margins and marks the person quarantined; otherwise does nothing.
    pub fn move_infected_to_quarantine(&mut self)
        requires
            old(self).wf(),
        ensures
            final(self).wf(),
            final(self).same_config(*old(self)),
            final(self).same_history(*old(self)),
            final(self).community@.len() == old(self).community@.len(),
            !old(self).quarantine_enabled ==> final(self).community@ == old(self).community@,
            old(self).quarantine_enabled ==> forall|i: int|
                0 <= i < old(self).community@.len() ==> {
                    let o = old(self).community@[i];
                    let f = #[trigger] final(self).community@[i];
                    if o.state == PersonState::Infected {
                        &&& f.is_in_quarantine
                        &&& MARGIN_FROM_WALL <= f.x < QUARANTINE_AREA_SIZE - MARGIN_FROM_WALL
                        &&& MARGIN_FROM_WALL <= f.y < QUARANTINE_AREA_SIZE - MARGIN_FROM_WALL
                        &&& f.velocity_x == o.velocity_x
                        &&& f.velocity_y == o.velocity_y
                        &&& f.state == o.state
                        &&& f.infection_duration == o.infection_duration
                    } else {
                        f == o
                    }
                },
    {
        if !self.quarantine_enabled {
            return ;
        }
        let ghost orig = self.community@;
        let mut i: usize = 0;
        while i < self.community.len()
            invariant
                self.wf(),
                self.same_config(*old(self)),
                self.same_history(*old(self)),
                orig == old(self).community@,
                self.community@.len() == orig.len(),
                i <= orig.len(),
                forall|j: int| i <= j < orig.len() ==> self.community@[j] == orig[j],
                forall|j: int|
                    0 <= j < i ==> {
                        let o = orig[j];
                        let f = #[trigger] self.community@[j];
                        if o.state == PersonState::Infected {
                            &&& f.is_in_quarantine
                            &&& MARGIN_FROM_WALL <= f.x < QUARANTINE_AREA_SIZE - MARGIN_FROM_WALL
                            &&& MARGIN_FROM_WALL <= f.y < QUARANTINE_AREA_SIZE - MARGIN_FROM_WALL
                            &&& f.velocity_x == o.velocity_x
                            &&& f.velocity_y == o.velocity_y
                            &&& f.state == o.state
                            &&& f.infection_duration == o.infection_duration
                        } else {
                            f == o
                        }
                    },
            decreases orig.len() - i,
        {
            let mut person = self.community[i];
            if person.state == PersonState::Infected {
                person.x = rng::sample_range(
                    MARGIN_FROM_WALL,
                    QUARANTINE_AREA_SIZE - MARGIN_FROM_WALL,
                );
                person.y = rng::sample_range(
                    MARGIN_FROM_WALL,
                    QUARANTINE_AREA_SIZE - MARGIN_FROM_WALL,
                );
                person.move_to_quarantine();
                self.community[i] = person;
            }
            i = i + 1;
        }
    }

    /// A share of `count` out of `total` people, as a fixed-point
    /// percentage rounded down.
    fn percent(count: usize, total: usize) -> (r: i64)
        requires
            0 < total <= COMMUNITY_CAP,
            count <= total,
        ensures
            r == percent_spec(count as int, total as int),
            0 <= r <= 100 * SCALE,
    {
        proof {
            assert((count as int) * 100 * (SCALE as int) <= 100_000_000_000) by (nonlinear_arith)
                requires
                    0 <= count <= 1_000_000,
                    SCALE == 1000;
        }
        let num: u64 = (count as u64) * 100 * (SCALE as u64);
        let r: u64 = num / (total as u64);
        proof {
            let c = count as int;
            let t = total as int;
            let k = 100 * (SCALE as int);
            assert(c * 100 * (SCALE as int) <= t * k) by (nonlinear_arith)
                requires
                    0 <= c <= t,
                    0 < SCALE,
                    k == 100 * (SCALE as int);
            vstd::arithmetic::div_mod::lemma_div_is_ordered(c * 100 * (SCALE as int), t * k, t);
            vstd::arithmetic::div_mod::lemma_div_multiples_vanish(k, t);
            assert(t * k == k * t) by (nonlinear_arith);
            vstd::arithmetic::div_mod::lemma_div_pos_is_pos(c * 100 * (SCALE as int), t);
        }
        r as i64
    }

    /// Appends one statistics snapshot to the history: the elapsed time
    /// advanced by `dt`, and the percentage of the community currently
    /// in each of the three states.
    pub fn update_chart(&mut self, time_frame_per_second: i64)
        requires
            old(self).wf(),
            old(self).community@.len() > 0,
            0 <= time_frame_per_second <= TIME_STEP_CAP,
            old(self).total_time@.last() + time_frame_per_second <= i64::MAX,
        ensures
            final(self).wf(),
            final(self).same_config(*old(self)),
            final(self).community@ == old(self).community@,
            final(self).total_time@ == old(self).total_time@.push(
                (old(self).total_time@.last() + time_frame_per_second) as i64,
            ),
            final(self).infected_chart@ == old(self).infected_chart@.push(
                percent_spec(
                    count_state(old(self).community@, PersonState::Infected),
                    old(self).community@.len() as int,
                ) as i64,
            ),
            final(self).susceptible_chart@ == old(self).susceptible_chart@.push(
                percent_spec(
                    count_state(old(self).community@, PersonState::Susceptible),
                    old(self).community@.len() as int,
                ) as i64,
            ),
            final(self).recovered_chart@ == old(self).recovered_chart@.push(
                percent_spec(
                    count_state(old(self).community@, PersonState::Recovered),
                    old(self).community@.len() as int,
                ) as i64,
            ),
    {
        let total_people = self.community.len();
        let last = self.total_time[self.total_time.len() - 1];
        self.total_time.push(last + time_frame_per_second);

        let current_infected = self.count_in_state(PersonState::Infected);
        let infected_percent = Self::percent(current_infected, total_people);
        self.infected_chart.push(infected_percent);

        let current_susceptible = self.count_in_state(PersonState::Susceptible);
        let susceptible_percent = Self::percent(current_susceptible, total_people);
        self.susceptible_chart.push(susceptible_percent);

        let current_recovered = self.count_in_state(PersonState::Recovered);
        let recovered_percent = Self::percent(current_recovered, total_people);
        self.recovered_chart.push(recovered_percent);
    }

    /// Runs one full pipeline pass over the community, in the fixed
    /// order: quarantine relocation, social distancing, the recovery
    /// check and kinematic move for every person, and finally the
    /// infection spread.
    #[verifier::rlimit(100)]
    pub fn update_community(&mut self, time_frame_per_second: i64)
        requires
            old(self).wf(),
            0 <= time_frame_per_second <= TIME_STEP_CAP,
        ensures
            final(self).wf(),
            final(self).same_config(*old(self)),
            final(self).same_history(*old(self)),
            final(self).community@.len() == old(self).community@.len(),
            community_advanced(*old(self), final(self).community@, time_frame_per_second as int),
    {
        let ghost a = self.community@;
        let ghost dt = time_frame_per_second as int;
        let ghost rd = self.recovered_days as int;
        let ghost radius_sd = self.social_distancing_radius as int;
        self.move_infected_to_quarantine();
        let ghost b = self.community@;

        if self.social_distancing_enabled {
            let mut forces: Vec<(i64, i64)> = Vec::new();
            let mut i: usize = 0;
            while i < self.community.len()
                invariant
                    self.wf(),
                    i <= self.community@.len(),
                    forces@.len() == i as int,
                    forall|k: int|
                        0 <= k < i ==> (#[trigger] forces@[k]).0 == force_on(
                            self.community@,
                            k,
                            self.social_distancing_radius as int,
                        ).0 && forces@[k].1 == force_on(
                            self.community@,
                            k,
                            self.social_distancing_radius as int,
                        ).1,
                    forall|k: int|
                        0 <= k < i ==> -FORCE_CAP <= (#[trigger] forces@[k]).0 <= FORCE_CAP
                            && -FORCE_CAP <= forces@[k].1 <= FORCE_CAP,
                decreases self.community@.len() - i,
            {
                let f = self.calculate_social_distancing_force(i);
                forces.push(f);
                i = i + 1;
            }
            let ghost fseq = forces@;
            self.apply_forces(forces);
            proof {
                assert forall|k: int| 0 <= k < b.len() implies #[trigger] self.community@[k]
                    == distanced_person(b, k, radius_sd) by {
                    assert(fseq[k].0 == force_on(b, k, radius_sd).0);
                    assert(fseq[k].1 == force_on(b, k, radius_sd).1);
                }
            }
        }
        let ghost c = self.community@;

        let mut i: usize = 0;
        while i < self.community.len()
            invariant
                self.wf(),
                self.same_config(*old(self)),
                self.same_history(*old(self)),
                c.len() == self.community@.len(),
                rd == self.recovered_days as int,
                0 <= time_frame_per_second <= TIME_STEP_CAP,
                dt == time_frame_per_second as int,
                i <= c.len(),
                forall|j: int| i <= j < c.len() ==> self.community@[j] == c[j],
                forall|j: int| 0 <= j < c.len() ==> (#[trigger] c[j]).wf(),
                forall|j: int|
                    0 <= j < i ==> #[trigger] self.community@[j] == stepped_person(c[j], dt, rd),
            decreases c.len() - i,
        {
            let mut person = self.community[i];
            if person.state == PersonState::Infected {
                person.infection_duration = person.infection_duration + time_frame_per_second;
                if person.infection_duration >= self.recovered_days {
                    person.infection_duration = 0;
                    person.state = PersonState::Recovered;
                }
            }
            proof {
                assert(person == health_step(c[i as int], dt, rd));
            }
            person.update_position(time_frame_per_second);
            self.community[i] = person;
            i = i + 1;
        }
        let ghost d = self.community@;

        self.spread_infection();

        proof {
            let e = self.community@;
            let radius = old(self).infected_radius as int;
            assert forall|i: int| 0 <= i < a.len() implies (#[trigger] e[i]).wf()
                && state_progression(a[i].state, e[i].state) && e[i].is_in_quarantine
                == (a[i].is_in_quarantine || (old(self).quarantine_enabled && a[i].state
                == PersonState::Infected)) && (a[i].state != PersonState::Susceptible ==> e[i].state
                == health_step(a[i], dt, rd).state && e[i].infection_duration == health_step(
                a[i],
                dt,
                rd,
            ).infection_duration) && (a[i].state == PersonState::Susceptible
                ==> e[i].infection_duration == 0) && (old(self).infection_probability <= 0
                ==> e[i].state == health_step(a[i], dt, rd).state) by {
                assert(b[i].state == a[i].state && b[i].infection_duration
                    == a[i].infection_duration);
                assert(c[i].state == b[i].state && c[i].infection_duration
                    == b[i].infection_duration && c[i].is_in_quarantine == b[i].is_in_quarantine);
                assert(d[i] == stepped_person(c[i], dt, rd));
                if vulnerable(d, i, radius) {
                    assert(e[i] == d[i] || e[i] == infected_person(d[i]));
                } else {
                    assert(e[i] == d[i]);
                }
                if old(self).infection_probability <= 0 {
                    assert(e[i] == d[i]);
                }
            }
            if old(self).infection_probability <= 0 {
                assert forall|i: int|
                    0 <= i < a.len() implies (((#[trigger] a[i].state) == PersonState::Infected
                    || a[i].state == PersonState::Recovered) <==> (((#[trigger] e[i].state)
                    == PersonState::Infected) || e[i].state == PersonState::Recovered)) by {}
                lemma_ever_infected_pointwise(a, e);
                assert forall|i: int|
                    0 <= i < a.len() implies (((#[trigger] a[i].state)
                    == PersonState::Susceptible) <==> ((#[trigger] e[i].state)
                    == PersonState::Susceptible)) by {}
                lemma_count_state_pointwise(a, e, PersonState::Susceptible);
            }
            if !old(self).social_distancing_enabled && !old(self).quarantine_enabled {
                assert(b == a);
                assert(c == b);
                assert forall|i: int| 0 <= i < a.len() implies ((#[trigger] self.community@[i])
                    == stepped_person(a[i], dt, rd) || self.community@[i] == infected_person(
                    stepped_person(a[i], dt, rd),
                )) by {
                    assert(d[i] == stepped_person(c[i], dt, rd));
                    assert(c[i] == a[i]);
                }
                if old(self).infection_probability <= 0 {
                    assert forall|i: int| 0 <= i < a.len() implies (#[trigger] self.community@[i])
                        == stepped_person(a[i], dt, rd) by {
                        assert(d[i] == stepped_person(c[i], dt, rd));
                        assert(c[i] == a[i]);
                        assert(e[i] == d[i]);
                    }
                }
            }
            if old(self).social_distancing_enabled && !old(self).quarantine_enabled {
                assert(b == a);
                assert forall|i: int| 0 <= i < a.len() implies ((#[trigger] self.community@[i])
                    == stepped_person(distanced_person(a, i, radius_sd), dt, rd)
                    || self.community@[i] == infected_person(
                    stepped_person(distanced_person(a, i, radius_sd), dt, rd),
                )) by {
                    assert(c[i] == distanced_person(b, i, radius_sd));
                    assert(d[i] == stepped_person(c[i], dt, rd));
                }
                if old(self).infection_probability <= 0 {
                    assert forall|i: int| 0 <= i < a.len() implies (#[trigger] self.community@[i])
                        == stepped_person(distanced_person(a, i, radius_sd), dt, rd) by {
                        assert(c[i] == distanced_person(b, i, radius_sd));
                        assert(d[i] == stepped_person(c[i], dt, rd));
                        assert(e[i] == d[i]);
                    }
                }
            }
            if old(self).quarantine_enabled {
                assert forall|i: int|
                    0 <= i < a.len() && a[i].state == PersonState::Infected implies MARGIN_FROM_WALL
                    <= (#[trigger] self.community@[i]).x <= QUARANTINE_AREA_SIZE - MARGIN_FROM_WALL
                    && MARGIN_FROM_WALL <= self.community@[i].y <= QUARANTINE_AREA_SIZE
                    - MARGIN_FROM_WALL by {
                    assert(b[i].is_in_quarantine && MARGIN_FROM_WALL <= b[i].x
                        < QUARANTINE_AREA_SIZE - MARGIN_FROM_WALL && MARGIN_FROM_WALL <= b[i].y
                        < QUARANTINE_AREA_SIZE - MARGIN_FROM_WALL);
                    assert(c[i].x == b[i].x && c[i].y == b[i].y && c[i].is_in_quarantine);
                    assert(d[i] == stepped_person(c[i], dt, rd));
                    let h = health_step(c[i], dt, rd);
                    assert(h.x == c[i].x && h.y == c[i].y && h.velocity_x == c[i].velocity_x
                        && h.velocity_y == c[i].velocity_y && h.is_in_quarantine);
                    crate::person::lemma_reflect_pos_in_margins(
                        h.x as int,
                        h.velocity_x as int,
                        dt,
                        crate::person::active_bound(h.is_in_quarantine),
                    );
                    crate::person::lemma_reflect_pos_in_margins(
                        h.y as int,
                        h.velocity_y as int,
                        dt,
                        crate::person::active_bound(h.is_in_quarantine),
                    );
                    assert(d[i].state != PersonState::Susceptible);
                    assert(!vulnerable(d, i, radius));
                    assert(e[i] == d[i]);
                }
            }
            assert(community_advanced(*old(self), self.community@, dt));
        }
    }

    /// Advances the whole simulation by one tick of `dt` seconds: runs
    /// the pipeline over the community, then appends the statistics
    /// snapshot computed from the updated community.
    pub fn tick(&mut self, time_frame_per_second: i64)
        requires
            old(self).wf(),
            old(self).community@.len() > 0,
            0 <= time_frame_per_second <= TIME_STEP_CAP,
            old(self).total_time@.last() + time_frame_per_second <= i64::MAX,
        ensures
            final(self).wf(),
            final(self).same_config(*old(self)),
            final(self).community@.len() == old(self).community@.len(),
            community_advanced(*old(self), final(self).community@, time_frame_per_second as int),
            final(self).total_time@ == old(self).total_time@.push(
                (old(self).total_time@.last() + time_frame_per_second) as i64,
            ),
            final(self).infected_chart@ == old(self).infected_chart@.push(
                percent_spec(
                    count_state(final(self).community@, PersonState::Infected),
                    final(self).community@.len() as int,
                ) as i64,
            ),
            final(self).susceptible_chart@ == old(self).susceptible_chart@.push(
                percent_spec(
                    count_state(final(self).community@, PersonState::Susceptible),
                    final(self).community@.len() as int,
                ) as i64,
            ),
            final(self).recovered_chart@ == old(self).recovered_chart@.push(
                percent_spec(
                    count_state(final(self).community@, PersonState::Recovered),
                    final(self).community@.len() as int,
                ) as i64,
            ),
            count_state(final(self).community@, PersonState::Susceptible) + count_state(
                final(self).community@,
                PersonState::Infected,
            ) + count_state(final(self).community@, PersonState::Recovered)
                == final(self).community@.len(),
    {
        self.update_community(time_frame_per_second);
        proof {
            assert(community_advanced(
                *old(self),
                self.community@,
                time_frame_per_second as int,
            ));
        }
        self.update_chart(time_frame_per_second);
        proof {
            lemma_state_counts_total(self.community@);
        }
    }

    /// Builds a simulation with the default configuration: a community
    /// of eighty people, `INITIAL_INFECTED_PEOPLE` of them infected, and
    /// the statistics history seeded with the tick-zero snapshot.
    pub fn new() -> (s: Simulation)
        ensures
            s.wf(),
            s.community_size == 80,
            s.initial_infected_count == INITIAL_INFECTED_PEOPLE,
            s.recovered_days == 7 * SCALE,
            s.infected_radius == 3500,
            s.ui_infected_radius == 3500,
            s.infection_probability == INFECTION_PROBABILITY,
            s.social_distancing_radius == 20 * SCALE,
            !s.social_distancing_enabled,
            !s.quarantine_enabled,
            s.community@.len() == 80,
            forall|i: int|
                0 <= i < 80 ==> {
                    let p = #[trigger] s.community@[i];
                    &&& p.wf()
                    &&& p.state == (if i < INITIAL_INFECTED_PEOPLE as int {
                        PersonState::Infected
                    } else {
                        PersonState::Susceptible
                    })
                    &&& p.infection_duration == 0
                    &&& !p.is_in_quarantine
                    &&& 0 <= p.x < SIMULATION_AREA_SIZE
                    &&& 0 <= p.y < SIMULATION_AREA_SIZE
                },
            count_state(s.community@, PersonState::Infected) == INITIAL_INFECTED_PEOPLE as int,
            count_state(s.community@, PersonState::Susceptible) == 80 - INITIAL_INFECTED_PEOPLE as int,
            count_state(s.community@, PersonState::Recovered) == 0,
            s.total_time@ == seq![0i64],
            s.infected_chart@ == seq![percent_spec(INITIAL_INFECTED_PEOPLE as int, 80) as i64],
            s.susceptible_chart@ == seq![
                percent_spec(80 - INITIAL_INFECTED_PEOPLE as int, 80) as i64,
            ],
            s.recovered_chart@ == seq![0i64],
    {
        let mut s = Simulation {
            community: Vec::new(),
            total_time: Vec::new(),
            community_size: 80,
            initial_infected_count: INITIAL_INFECTED_PEOPLE,
            recovered_days: 7 * SCALE,
            infected_radius: 3500,
            ui_infected_radius: 3500,
            infection_probability: INFECTION_PROBABILITY,
            infected_chart: Vec::new(),
            susceptible_chart: Vec::new(),
            recovered_chart: Vec::new(),
            social_distancing_radius: 20 * SCALE,
            social_distancing_enabled: false,
            quarantine_enabled: false,
        };
        let seeded = s.restart();
        proof {
            assert(seeded is Ok);
            assert(effective_initial_infected(INITIAL_INFECTED_PEOPLE as int, 80)
                == INITIAL_INFECTED_PEOPLE as int);
        }
        s
    }

    /// Rebuilds the community at the currently configured size with a
    /// fresh random draw per person, marks the first people infected
    /// (the configured count clamped into `[1, community_size]`), makes
    /// the configured infection radius current, and reseeds the
    /// statistics history with the tick-zero snapshot. Reports
    /// `InvalidConfiguration` exactly when the clamp changed the
    /// configured count.
    pub fn restart(&mut self) -> (r: Result<(), ConfigError>)
        requires
            old(self).params_wf(),
        ensures
            final(self).wf(),
            final(self).community_size == old(self).community_size,
            final(self).initial_infected_count == old(self).initial_infected_count,
            final(self).recovered_days == old(self).recovered_days,
            final(self).ui_infected_radius == old(self).ui_infected_radius,
            final(self).infection_probability == old(self).infection_probability,
            final(self).social_distancing_radius == old(self).social_distancing_radius,
            final(self).social_distancing_enabled == old(self).social_distancing_enabled,
            final(self).quarantine_enabled == old(self).quarantine_enabled,
            final(self).infected_radius == old(self).ui_infected_radius,
            final(self).community@.len() == old(self).community_size,
            forall|i: int|
                0 <= i < final(self).community@.len() ==> {
                    let p = #[trigger] final(self).community@[i];
                    &&& p.wf()
                    &&& p.state == (if i < effective_initial_infected(
                        old(self).initial_infected_count as int,
                        old(self).community_size as int,
                    ) {
                        PersonState::Infected
                    } else {
                        PersonState::Susceptible
                    })
                    &&& p.infection_duration == 0
                    &&& !p.is_in_quarantine
                    &&& 0 <= p.x < SIMULATION_AREA_SIZE
                    &&& 0 <= p.y < SIMULATION_AREA_SIZE
                },
            count_state(final(self).community@, PersonState::Infected)
                == effective_initial_infected(
                old(self).initial_infected_count as int,
                old(self).community_size as int,
            ),
            count_state(final(self).community@, PersonState::Susceptible)
                == old(self).community_size - effective_initial_infected(
                old(self).initial_infected_count as int,
                old(self).community_size as int,
            ),
            count_state(final(self).community@, PersonState::Recovered) == 0,
            final(self).total_time@ == seq![0i64],
            final(self).infected_chart@ == seq![
                percent_spec(
                    effective_initial_infected(
                        old(self).initial_infected_count as int,
                        old(self).community_size as int,
                    ),
                    old(self).community_size as int,
                ) as i64,
            ],
            final(self).susceptible_chart@ == seq![
                percent_spec(
                    old(self).community_size - effective_initial_infected(
                        old(self).initial_infected_count as int,
                        old(self).community_size as int,
                    ),
                    old(self).community_size as int,
                ) as i64,
            ],
            final(self).recovered_chart@ == seq![0i64],
            r is Ok <==> 1 <= old(self).initial_infected_count <= old(self).community_size,
    {
        self.infected_radius = self.ui_infected_radius;
        let mut community: Vec<Person> = Vec::new();
        let mut i: usize = 0;
        while i < self.community_size
            invariant
                community@.len() == i as int,
                i <= self.community_size,
                self.community_size <= COMMUNITY_CAP,
                forall|j: int|
                    0 <= j < i ==> {
                        let p = #[trigger] community@[j];
                        &&& p.wf()
                        &&& p.state == PersonState::Susceptible
                        &&& p.infection_duration == 0
                        &&& !p.is_in_quarantine
                        &&& 0 <= p.x < SIMULATION_AREA_SIZE
                        &&& 0 <= p.y < SIMULATION_AREA_SIZE
                    },
            decreases self.community_size - i,
        {
            community.push(Person::new());
            i = i + 1;
        }
        self.community = community;
        let eff: usize = if self.initial_infected_count < 1 {
            1
        } else if self.initial_infected_count > self.community_size {
            self.community_size
        } else {
            self.initial_infected_count
        };
        let ghost eff_spec = effective_initial_infected(
            old(self).initial_infected_count as int,
            old(self).community_size as int,
        );
        proof {
            assert(eff as int == eff_spec);
        }
        let mut j: usize = 0;
        while j < eff
            invariant
                self.community_size == old(self).community_size,
                self.initial_infected_count == old(self).initial_infected_count,
                self.recovered_days == old(self).recovered_days,
                self.infected_radius == old(self).ui_infected_radius,
                self.ui_infected_radius == old(self).ui_infected_radius,
                self.infection_probability == old(self).infection_probability,
                self.social_distancing_radius == old(self).social_distancing_radius,
                self.social_distancing_enabled == old(self).social_distancing_enabled,
                self.quarantine_enabled == old(self).quarantine_enabled,
                old(self).params_wf(),
                self.community@.len() == self.community_size as int,
                eff <= self.community_size,
                j <= eff,
                forall|m: int|
                    0 <= m < self.community@.len() ==> {
                        let p = #[trigger] self.community@[m];
                        &&& p.wf()
                        &&& p.state == (if m < j as int {
                            PersonState::Infected
                        } else {
                            PersonState::Susceptible
                        })
                        &&& p.infection_duration == 0
                        &&& !p.is_in_quarantine
                        &&& 0 <= p.x < SIMULATION_AREA_SIZE
                        &&& 0 <= p.y < SIMULATION_AREA_SIZE
                    },
            decreases eff - j,
        {
            let mut p = self.community[j];
            p.state = PersonState::Infected;
            p.infection_duration = 0;
            self.community[j] = p;
            j = j + 1;
        }
        proof {
            lemma_count_infected_prefix(self.community@, eff as int);
        }
        self.total_time.clear();
        self.infected_chart.clear();
        self.susceptible_chart.clear();
        self.recovered_chart.clear();
        self.total_time.push(0);
        let infected_percent = Self::percent(eff, self.community_size);
        self.infected_chart.push(infected_percent);
        let susceptible_percent = Self::percent(self.community_size - eff, self.community_size);
        self.susceptible_chart.push(susceptible_percent);
        self.recovered_chart.push(0);
        proof {
            assert(self.total_time@ =~= seq![0i64]);
            assert(self.infected_chart@ =~= seq![
                percent_spec(eff_spec, old(self).community_size as int) as i64,
            ]);
            assert(self.susceptible_chart@ =~= seq![
                percent_spec(
                    old(self).community_size - eff_spec,
                    old(self).community_size as int,
                ) as i64,
            ]);
            assert(self.recovered_chart@ =~= seq![0i64]);
        }
        if eff == self.initial_infected_count {
            Ok(())
        } else {
            Err(ConfigError::InvalidConfiguration)
        }
    }

    /// Configures the community size used by the next restart, clamped
    /// into `[1, COMMUNITY_CAP]`; the running community is untouched.
    pub fn set_community_size(&mut self, size: usize)
        requires
            old(self).wf(),
        ensures
            final(self).wf(),
            final(self).community_size == (if size < 1 {
                1usize
            } else if size > COMMUNITY_CAP {
                COMMUNITY_CAP
            } else {
                size
            }),
            final(self).community@ == old(self).community@,
            final(self).same_history(*old(self)),
            final(self).initial_infected_count == old(self).initial_infected_count,
            final(self).recovered_days == old(self).recovered_days,
            final(self).infected_radius == old(self).infected_radius,
            final(self).ui_infected_radius == old(self).ui_infected_radius,
            final(self).infection_probability == old(self).infection_probability,
            final(self).social_distancing_radius == old(self).social_distancing_radius,
            final(self).social_distancing_enabled == old(self).social_distancing_enabled,
            final(self).quarantine_enabled == old(self).quarantine_enabled,
    {
        self.community_size = if size < 1 {
            1
        } else if size > COMMUNITY_CAP {
            COMMUNITY_CAP
        } else {
            size
        };
    }

    /// Configures the infected count seeded by the next restart; the
    /// value is clamped into `[1, community_size]` only at that restart.
    pub fn set_initial_infected_count(&mut self, count: usize)
        requires
            old(self).wf(),
        ensures
            final(self).wf(),
            final(self).initial_infected_count == count,
            final(self).community@ == old(self).community@,
            final(self).same_history(*old(self)),
            final(self).community_size == old(self).community_size,
            final(self).recovered_days == old(self).recovered_days,
            final(self).infected_radius == old(self).infected_radius,
            final(self).ui_infected_radius == old(self).ui_infected_radius,
            final(self).infection_probability == old(self).infection_probability,
            final(self).social_distancing_radius == old(self).social_distancing_radius,
            final(self).social_distancing_enabled == old(self).social_distancing_enabled,
            final(self).quarantine_enabled == old(self).quarantine_enabled,
    {
        self.initial_infected_count = count;
    }

    /// Configures the infection radius used from the next restart on,
    /// clamped into `[0, RADIUS_CAP]`; the radius in force is untouched
    /// until then.
    pub fn set_infected_radius(&mut self, radius: i64)
        requires
            old(self).wf(),
        ensures
            final(self).wf(),
            final(self).ui_infected_radius == (if radius < 0 {
                0i64
            } else if radius > RADIUS_CAP {
                RADIUS_CAP
            } else {
                radius
            }),
            final(self).community@ == old(self).community@,
            final(self).same_history(*old(self)),
            final(self).community_size == old(self).community_size,
            final(self).initial_infected_count == old(self).initial_infected_count,
            final(self).recovered_days == old(self).recovered_days,
            final(self).infected_radius == old(self).infected_radius,
            final(self).infection_probability == old(self).infection_probability,
            final(self).social_distancing_radius == old(self).social_distancing_radius,
            final(self).social_distancing_enabled == old(self).social_distancing_enabled,
            final(self).quarantine_enabled == old(self).quarantine_enabled,
    {
        self.ui_infected_radius = if radius < 0 {
            0
        } else if radius > RADIUS_CAP {
            RADIUS_CAP
        } else {
            radius
        };
    }

    /// Configures the transmission probability per exposed tick, clamped
    /// to be non-negative (a value of `SCALE` or more infects every
    /// exposed person).
    pub fn set_infection_probability(&mut self, probability: i64)
        requires
            old(self).wf(),
        ensures
            final(self).wf(),
            final(self).infection_probability == (if probability < 0 {
                0i64
            } else {
                probability
            }),
            final(self).community@ == old(self).community@,
            final(self).same_history(*old(self)),
            final(self).community_size == old(self).community_size,
            final(self).initial_infected_count == old(self).initial_infected_count,
            final(self).recovered_days == old(self).recovered_days,
            final(self).infected_radius == old(self).infected_radius,
            final(self).ui_infected_radius == old(self).ui_infected_radius,
            final(self).social_distancing_radius == old(self).social_distancing_radius,
            final(self).social_distancing_enabled == old(self).social_distancing_enabled,
            final(self).quarantine_enabled == old(self).quarantine_enabled,
    {
        self.infection_probability = if probability < 0 {
            0
        } else {
            probability
        };
    }

    /// Switches the social-distancing force model on or off.
    pub fn set_social_distancing_enabled(&mut self, enabled: bool)
        requires
            old(self).wf(),
        ensures
            final(self).wf(),
            final(self).social_distancing_enabled == enabled,
            final(self).community@ == old(self).community@,
            final(self).same_history(*old(self)),
            final(self).community_size == old(self).community_size,
            final(self).initial_infected_count == old(self).initial_infected_count,
            final(self).recovered_days == old(self).recovered_days,
            final(self).infected_radius == old(self).infected_radius,
            final(self).ui_infected_radius == old(self).ui_infected_radius,
            final(self).infection_probability == old(self).infection_probability,
            final(self).social_distancing_radius == old(self).social_distancing_radius,
            final(self).quarantine_enabled == old(self).quarantine_enabled,
    {
        self.social_distancing_enabled = enabled;
    }

    /// Configures the social-distancing radius, clamped into
    /// `[0, RADIUS_CAP]`.
    pub fn set_social_distancing_radius(&mut self, radius: i64)
        requires
            old(self).wf(),
        ensures
            final(self).wf(),
            final(self).social_distancing_radius == (if radius < 0 {
                0i64
            } else if radius > RADIUS_CAP {
                RADIUS_CAP
            } else {
                radius
            }),
            final(self).community@ == old(self).community@,
            final(self).same_history(*old(self)),
            final(self).community_size == old(self).community_size,
            final(self).initial_infected_count == old(self).initial_infected_count,
            final(self).recovered_days == old(self).recovered_days,
            final(self).infected_radius == old(self).infected_radius,
            final(self).ui_infected_radius == old(self).ui_infected_radius,
            final(self).infection_probability == old(self).infection_probability,
            final(self).social_distancing_enabled == old(self).social_distancing_enabled,
            final(self).quarantine_enabled == old(self).quarantine_enabled,
    {
        self.social_distancing_radius = if radius < 0 {
            0
        } else if radius > RADIUS_CAP {
            RADIUS_CAP
        } else {
            radius
        };
    }

    /// Switches the quarantine relocation policy on or off.
    pub fn set_quarantine_enabled(&mut self, enabled: bool)
        requires
            old(self).wf(),
        ensures
            final(self).wf(),
            final(self).quarantine_enabled == enabled,
            final(self).community@ == old(self).community@,
            final(self).same_history(*old(self)),
            final(self).community_size == old(self).community_size,
            final(self).initial_infected_count == old(self).initial_infected_count,
            final(self).recovered_days == old(self).recovered_days,
            final(self).infected_radius == old(self).infected_radius,
            final(self).ui_infected_radius == old(self).ui_infected_radius,
            final(self).infection_probability == old(self).infection_probability,
            final(self).social_distancing_radius == old(self).social_distancing_radius,
            final(self).social_distancing_enabled == old(self).social_distancing_enabled,
    {
        self.quarantine_enabled = enabled;
    }
}

} // verus!
