//! Tests for the simulation controller: construction, restart, the
//! at-risk set, recovery, social distancing and the per-tick pipeline.

use epidemic_sim::person::{Person, PersonState};
use epidemic_sim::settings::INITIAL_INFECTED_PEOPLE;
use epidemic_sim::simulation::{ConfigError, Simulation};

/// A new app is created with the default number of infected people.
#[test]
fn test_create_new_app() {
    let app = Simulation::new();
    assert_eq!(app.total_time[0], 0);
    assert_eq!(app.community_size, 80);
    let infected = app
        .community
        .iter()
        .filter(|p| matches!(p.state, PersonState::Infected))
        .count();
    assert_eq!(infected, INITIAL_INFECTED_PEOPLE);
}

/// A person's position in the community changes after an update; if the
/// position does not change, the velocity must change (a corner case).
#[test]
fn test_update_community_first_person_position() {
    let mut app = Simulation::new();
    let initial_x = app.community[0].x;
    let initial_y = app.community[0].y;
    let initial_velocity_x = app.community[0].velocity_x;
    let initial_velocity_y = app.community[0].velocity_y;
    app.update_community(1_000);
    let new_position_x = app.community[0].x;
    let new_position_y = app.community[0].y;
    let new_velocity_x = app.community[0].velocity_x;
    let new_velocity_y = app.community[0].velocity_y;
    assert!(
        new_position_x != initial_x
            || new_position_y != initial_y
            || new_velocity_x != initial_velocity_x
            || new_velocity_y != initial_velocity_y
    );
}

/// The restart method reseeds the community with the configured number
/// of infected people and makes the configured radius current.
#[test]
fn test_restart_with_new_infected_people() {
    let mut app = Simulation::new();
    app.initial_infected_count = 5;
    app.community_size = 80;
    app.ui_infected_radius = 6_000;
    let _ = app.restart();
    let count = app
        .community
        .iter()
        .filter(|person| matches!(person.state, PersonState::Infected))
        .count();
    assert_eq!(count, 5);
    assert_eq!(app.community.len(), 80);
    assert_eq!(app.infected_radius, 6_000);
    assert_eq!(app.recovered_chart[0], 0);
    let first_infected_percentage = 5 * 100 * 1_000 / 80;
    let first_susceptible_percentage = 75 * 100 * 1_000 / 80;
    assert_eq!(app.infected_chart[0], first_infected_percentage);
    assert_eq!(app.susceptible_chart[0], first_susceptible_percentage);
}

/// True is returned when a normal person is within the radius of an
/// infected person.
#[test]
fn test_is_within_infected_radius_true() {
    let mut app = Simulation::new();
    app.community[0].x = 20_000;
    app.community[0].y = 20_000;
    app.community[1].state = PersonState::Susceptible;
    app.community[1].x = 21_000;
    app.community[1].y = 22_000;

    assert!(app.is_within_infected_radius(&app.community[1]));
}

/// False is returned when no infected person is near.
#[test]
fn test_is_within_infected_radius_false() {
    let mut app = Simulation::new();
    app.community[0].x = 20_000;
    app.community[0].y = 20_000;
    for index in 1..3 {
        app.community[index].state = PersonState::Susceptible;
    }
    app.community[0].x = 80_000;
    app.community[0].y = 80_000;

    assert!(!app.is_within_infected_radius(&app.community[1]));
}

/// Vulnerable people are correctly identified in the community.
#[test]
fn test_find_vulnerable_people() {
    let mut app = Simulation::new();
    app.community[0].x = 20_000;
    app.community[0].y = 20_000;
    app.community[1].state = PersonState::Susceptible;
    app.community[1].x = 21_000;
    app.community[1].y = 22_000;

    let vulnerable = app.find_vulnerable_people();
    assert!(vulnerable.contains(&1));
}

/// An infected person recovers once the timer passes the threshold.
#[test]
fn test_community_update_recovered_person() {
    let mut app = Simulation::new();
    app.update_community(6_000);
    assert!(matches!(app.community[0].state, PersonState::Infected));
    app.update_community(1_000);
    assert!(matches!(app.community[0].state, PersonState::Recovered));
}

/// The social distancing force pushes people away from each other.
#[test]
fn test_calculate_social_distancing_force() {
    let mut app = Simulation::new();
    app.community.clear();
    app.social_distancing_radius = 50_000;
    app.community.push(Person {
        x: 50_000,
        y: 50_000,
        velocity_x: 1_000,
        velocity_y: 1_000,
        state: PersonState::Susceptible,
        infection_duration: 0,
        is_in_quarantine: false,
    });
    app.community.push(Person {
        x: 70_000,
        y: 30_000,
        velocity_x: 1_000,
        velocity_y: 1_000,
        state: PersonState::Susceptible,
        infection_duration: 0,
        is_in_quarantine: false,
    });
    let (fx, fy) = app.calculate_social_distancing_force(0);
    assert!(fx < 0);
    assert!(fy > 0);
}

/// Forces are applied to person velocities with the damping factor.
#[test]
fn test_apply_forces() {
    let mut app = Simulation::new();
    app.community.clear();
    app.community.push(Person {
        x: 50_000,
        y: 50_000,
        velocity_x: 0,
        velocity_y: 0,
        state: PersonState::Susceptible,
        infection_duration: 0,
        is_in_quarantine: false,
    });
    let forces = vec![(1_000, -1_000)];
    app.apply_forces(forces);
    assert_eq!(app.community[0].velocity_x, 250);
    assert_eq!(app.community[0].velocity_y, -250);
}

/// The pairwise force has the exact linear-falloff magnitude: for two
/// people 20 pixels apart on each axis under a 50 pixel radius, the
/// floor distance is 28284 units and each component comes out at 307.
#[test]
fn test_force_exact_value() {
    let mut app = Simulation::new();
    app.community.clear();
    app.social_distancing_radius = 50_000;
    app.community.push(Person {
        x: 50_000,
        y: 50_000,
        velocity_x: 0,
        velocity_y: 0,
        state: PersonState::Susceptible,
        infection_duration: 0,
        is_in_quarantine: false,
    });
    app.community.push(Person {
        x: 70_000,
        y: 30_000,
        velocity_x: 0,
        velocity_y: 0,
        state: PersonState::Susceptible,
        infection_duration: 0,
        is_in_quarantine: false,
    });
    let (fx, fy) = app.calculate_social_distancing_force(0);
    assert_eq!(fx, -307);
    assert_eq!(fy, 307);
    let (gx, gy) = app.calculate_social_distancing_force(1);
    assert_eq!(gx, 307);
    assert_eq!(gy, -307);
}

/// A velocity pushed past the cap is rescaled back to it.
#[test]
fn test_apply_forces_speed_cap() {
    let mut app = Simulation::new();
    app.community.clear();
    app.community.push(Person {
        x: 50_000,
        y: 50_000,
        velocity_x: 0,
        velocity_y: 0,
        state: PersonState::Susceptible,
        infection_duration: 0,
        is_in_quarantine: false,
    });
    let forces = vec![(8_000, 0)];
    app.apply_forces(forces);
    // a quarter of the force gives speed 2000, above the cap of 750
    assert_eq!(app.community[0].velocity_x, 750);
    assert_eq!(app.community[0].velocity_y, 0);
}

/// A restart with an initial infected count of zero clamps it to one
/// person and reports the adjustment.
#[test]
fn test_restart_clamps_zero_infected() {
    let mut app = Simulation::new();
    app.initial_infected_count = 0;
    let result = app.restart();
    assert_eq!(result, Err(ConfigError::InvalidConfiguration));
    let infected = app
        .community
        .iter()
        .filter(|p| matches!(p.state, PersonState::Infected))
        .count();
    assert_eq!(infected, 1);
}

/// A restart with more initial infected than the community holds clamps
/// the count to the community size and reports the adjustment.
#[test]
fn test_restart_clamps_excess_infected() {
    let mut app = Simulation::new();
    app.community_size = 10;
    app.initial_infected_count = 25;
    let result = app.restart();
    assert_eq!(result, Err(ConfigError::InvalidConfiguration));
    assert_eq!(app.community.len(), 10);
    let infected = app
        .community
        .iter()
        .filter(|p| matches!(p.state, PersonState::Infected))
        .count();
    assert_eq!(infected, 10);
}

/// A restart within the configured bounds reports no adjustment.
#[test]
fn test_restart_in_bounds_is_ok() {
    let mut app = Simulation::new();
    app.initial_infected_count = 8;
    let result = app.restart();
    assert_eq!(result, Ok(()));
}

/// The community-size setter clamps into the supported range and only
/// takes effect on the next restart.
#[test]
fn test_set_community_size_clamps() {
    let mut app = Simulation::new();
    app.set_community_size(0);
    assert_eq!(app.community_size, 1);
    app.set_community_size(2_000_000);
    assert_eq!(app.community_size, 1_000_000);
    app.set_community_size(120);
    assert_eq!(app.community_size, 120);
    assert_eq!(app.community.len(), 80);
    let _ = app.restart();
    assert_eq!(app.community.len(), 120);
}

/// The infection-radius setter stores the pending value; only a restart
/// makes it current.
#[test]
fn test_set_infected_radius_takes_effect_on_restart() {
    let mut app = Simulation::new();
    app.set_infected_radius(9_000);
    assert_eq!(app.ui_infected_radius, 9_000);
    assert_eq!(app.infected_radius, 3_500);
    let _ = app.restart();
    assert_eq!(app.infected_radius, 9_000);
    app.set_infected_radius(-5);
    assert_eq!(app.ui_infected_radius, 0);
}

/// A tick appends one entry to each statistics sequence and advances
/// the elapsed time by the time step.
#[test]
fn test_tick_appends_snapshot() {
    let mut app = Simulation::new();
    app.tick(1_000);
    assert_eq!(app.total_time.len(), 2);
    assert_eq!(app.total_time[1], 1_000);
    assert_eq!(app.infected_chart.len(), 2);
    assert_eq!(app.susceptible_chart.len(), 2);
    assert_eq!(app.recovered_chart.len(), 2);
    app.tick(500);
    assert_eq!(app.total_time[2], 1_500);
}

/// Quarantine relocation moves every infected person into the
/// quarantine zone's margins and marks them quarantined.
#[test]
fn test_quarantine_relocation() {
    let mut app = Simulation::new();
    app.quarantine_enabled = true;
    app.move_infected_to_quarantine();
    for person in &app.community {
        if matches!(person.state, PersonState::Infected) {
            assert!(person.is_in_quarantine);
            assert!(person.x >= 10_000 && person.x < 190_000);
            assert!(person.y >= 10_000 && person.y < 190_000);
        } else {
            assert!(!person.is_in_quarantine);
        }
    }
}
