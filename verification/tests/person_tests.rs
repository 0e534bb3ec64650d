//! Tests for the person type: construction, kinematics with boundary
//! reflection, state queries and distances. Coordinates are fixed-point
//! pixels with 1000 units per pixel.

use epidemic_sim::person::{Person, PersonState};
use epidemic_sim::settings::{MARGIN_FROM_WALL, MOVING_SPEED, SIMULATION_AREA_SIZE};

/// Creating a new person places them within the simulation area.
#[test]
fn test_create_new_person() {
    let person = Person::new();
    assert!(matches!(person.state, PersonState::Susceptible));
    assert_eq!(person.infection_duration, 0);
    assert!(person.x >= 0 && person.x <= SIMULATION_AREA_SIZE);
    assert!(person.y >= 0 && person.y <= SIMULATION_AREA_SIZE);
}

/// The person's position is correct after moving in the community.
#[test]
fn test_update_position_normal() {
    let mut person = Person {
        x: 150_000,
        y: 20_000,
        velocity_x: 2_000,
        velocity_y: 2_000,
        state: PersonState::Susceptible,
        infection_duration: 0,
        is_in_quarantine: false,
    };
    person.update_position(1_000);
    assert_eq!(person.x, 152_000);
    assert_eq!(person.y, 22_000);
}

/// A person bounces back and flips the x velocity at the left border.
/// The right, top and bottom cases use the same principle.
#[test]
fn test_update_position_left_border() {
    let mut person = Person {
        x: 7_000,
        y: 100_000,
        velocity_x: -2_000,
        velocity_y: 2_000,
        state: PersonState::Susceptible,
        infection_duration: 0,
        is_in_quarantine: false,
    };
    person.update_position(1_000);
    assert_eq!(person.x, MARGIN_FROM_WALL);
    assert_eq!(person.velocity_x, 2_000);
    assert_eq!(person.velocity_y, 2_000);
}

/// The distance between two people in the community is Euclidean.
#[test]
fn test_calculate_distance() {
    let person1 = Person {
        x: 10_000,
        y: 20_000,
        velocity_x: 0,
        velocity_y: 0,
        state: PersonState::Susceptible,
        infection_duration: 0,
        is_in_quarantine: false,
    };
    let person2 = Person {
        x: 10_000,
        y: 24_000,
        velocity_x: 0,
        velocity_y: 0,
        state: PersonState::Susceptible,
        infection_duration: 0,
        is_in_quarantine: false,
    };
    let distance = person1.calculate_distance(&person2);
    assert_eq!(distance, 4_000);
}

/// Checks the function that reports whether a person is susceptible.
#[test]
fn test_is_susceptible() {
    let person = Person {
        x: 17_000,
        y: 23_000,
        velocity_x: 2_000,
        velocity_y: 2_000,
        state: PersonState::Susceptible,
        infection_duration: 0,
        is_in_quarantine: false,
    };
    assert!(person.is_susceptible());
}

/// Checks the function that reports whether a person is infected.
#[test]
fn test_is_infected() {
    let person = Person {
        x: 17_000,
        y: 23_000,
        velocity_x: 2_000,
        velocity_y: 2_000,
        state: PersonState::Infected,
        infection_duration: 0,
        is_in_quarantine: false,
    };
    assert!(person.is_infected());
}

/// A new person always moves: the random heading never produces a
/// velocity that is zero on both axes, and positions vary from draw to
/// draw.
#[test]
fn test_new_person_randomness() {
    let mut seen_distinct_x = false;
    let first = Person::new();
    for _ in 0..100 {
        let person = Person::new();
        assert!(person.velocity_x != 0 || person.velocity_y != 0);
        // the speed is the movement speed up to fixed-point rounding
        let norm = person.velocity_x * person.velocity_x + person.velocity_y * person.velocity_y;
        assert!(norm <= MOVING_SPEED * MOVING_SPEED);
        assert!(norm >= (MOVING_SPEED - 4) * (MOVING_SPEED - 4));
        assert!(person.x >= 0 && person.x < SIMULATION_AREA_SIZE);
        assert!(person.y >= 0 && person.y < SIMULATION_AREA_SIZE);
        if person.x != first.x {
            seen_distinct_x = true;
        }
    }
    assert!(seen_distinct_x);
}

/// Both axes reflect independently in the same step at a corner.
#[test]
fn test_update_position_corner() {
    let mut person = Person {
        x: 8_000,
        y: 9_000,
        velocity_x: -2_000,
        velocity_y: -3_000,
        state: PersonState::Susceptible,
        infection_duration: 0,
        is_in_quarantine: false,
    };
    person.update_position(1_000);
    assert_eq!(person.x, MARGIN_FROM_WALL);
    assert_eq!(person.y, MARGIN_FROM_WALL);
    assert_eq!(person.velocity_x, 2_000);
    assert_eq!(person.velocity_y, 3_000);
}

/// A quarantined person reflects against the quarantine zone's bound,
/// not the community's.
#[test]
fn test_update_position_quarantine_bound() {
    let mut person = Person {
        x: 195_000,
        y: 100_000,
        velocity_x: 2_000,
        velocity_y: 0,
        state: PersonState::Infected,
        infection_duration: 1_000,
        is_in_quarantine: true,
    };
    person.update_position(1_000);
    // the quarantine area is 200 pixels wide with a 10 pixel margin
    assert_eq!(person.x, 190_000);
    assert_eq!(person.velocity_x, -2_000);
}
