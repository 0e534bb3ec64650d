//! Scenario tests for the simulation's global properties: the timer
//! invariant, state-count conservation, and the end-to-end run with a
//! zero transmission probability.

use epidemic_sim::person::PersonState;
use epidemic_sim::simulation::Simulation;

fn state_counts(app: &Simulation) -> (usize, usize, usize) {
    let susceptible = app
        .community
        .iter()
        .filter(|p| matches!(p.state, PersonState::Susceptible))
        .count();
    let infected = app
        .community
        .iter()
        .filter(|p| matches!(p.state, PersonState::Infected))
        .count();
    let recovered = app
        .community
        .iter()
        .filter(|p| matches!(p.state, PersonState::Recovered))
        .count();
    (susceptible, infected, recovered)
}

/// The infection timer is zero for every person who is not infected, at
/// every tick, with every pipeline stage enabled.
#[test]
fn test_timer_zero_outside_infection() {
    let mut app = Simulation::new();
    app.social_distancing_enabled = true;
    app.quarantine_enabled = true;
    for _ in 0..20 {
        app.tick(1_000);
        for person in &app.community {
            if !matches!(person.state, PersonState::Infected) {
                assert_eq!(person.infection_duration, 0);
            }
            assert!(person.infection_duration >= 0);
        }
    }
}

/// The three state counts add up to the population size exactly, at
/// every tick.
#[test]
fn test_state_counts_total_population() {
    let mut app = Simulation::new();
    for _ in 0..30 {
        app.tick(1_000);
        let (susceptible, infected, recovered) = state_counts(&app);
        assert_eq!(susceptible + infected + recovered, app.community.len());
        assert_eq!(app.community.len(), 80);
    }
}

/// With a zero infection probability nobody new catches the disease:
/// across any number of ticks the infected and recovered people together
/// stay exactly the initially infected three, so the infected count
/// never exceeds three minus those already recovered.
#[test]
fn test_zero_probability_adds_no_infections() {
    let mut app = Simulation::new();
    app.initial_infected_count = 3;
    app.community_size = 80;
    app.set_infection_probability(0);
    let _ = app.restart();
    for _ in 0..60 {
        app.tick(1_000);
        let (susceptible, infected, recovered) = state_counts(&app);
        assert_eq!(infected + recovered, 3);
        assert!(infected <= 3 - recovered);
        assert_eq!(susceptible, 77);
    }
}

/// With the full default probability, a susceptible person next to an
/// infected one is infected on the next tick when the draw allows it;
/// with probability one (the full fixed-point unit) the infection is
/// certain, which shows the transmission draw reaches the community.
#[test]
fn test_certain_transmission() {
    let mut app = Simulation::new();
    app.set_infection_probability(1_000);
    // place one susceptible person right next to an infected one and
    // everyone else far away in a corner
    for index in 0..app.community.len() {
        app.community[index].x = 300_000;
        app.community[index].y = 300_000;
        app.community[index].state = PersonState::Recovered;
        app.community[index].infection_duration = 0;
    }
    app.community[0].x = 20_000;
    app.community[0].y = 20_000;
    app.community[0].state = PersonState::Infected;
    app.community[1].x = 21_000;
    app.community[1].y = 20_000;
    app.community[1].state = PersonState::Susceptible;
    app.spread_infection();
    assert!(matches!(app.community[1].state, PersonState::Infected));
    assert_eq!(app.community[1].infection_duration, 0);
}

/// The transmission decision rule is exactly "the draw lies below the
/// probability".
#[test]
fn test_transmission_decision_rule() {
    assert!(Simulation::transmission_occurs(0, 1));
    assert!(Simulation::transmission_occurs(299, 300));
    assert!(!Simulation::transmission_occurs(300, 300));
    assert!(!Simulation::transmission_occurs(999, 0));
}

/// The recovery threshold is exact: a timer just below the threshold
/// keeps the person infected; reaching it exactly recovers the person.
#[test]
fn test_recovery_threshold_exact() {
    let mut app = Simulation::new();
    app.set_infection_probability(0);
    // recovery takes 7 seconds; accumulate 6.999 seconds first
    app.update_community(6_999);
    assert!(matches!(app.community[0].state, PersonState::Infected));
    assert_eq!(app.community[0].infection_duration, 6_999);
    app.update_community(1);
    assert!(matches!(app.community[0].state, PersonState::Recovered));
    assert_eq!(app.community[0].infection_duration, 0);
}

/// Restart rebuilds population and history: the infected count matches
/// the configuration, the population matches the community size, and
/// the history holds exactly the tick-zero snapshot.
#[test]
fn test_restart_reseeds_history() {
    let mut app = Simulation::new();
    for _ in 0..5 {
        app.tick(1_000);
    }
    app.community_size = 40;
    app.initial_infected_count = 10;
    let _ = app.restart();
    let (susceptible, infected, recovered) = state_counts(&app);
    assert_eq!(infected, 10);
    assert_eq!(susceptible, 30);
    assert_eq!(recovered, 0);
    assert_eq!(app.community.len(), 40);
    assert_eq!(app.total_time.len(), 1);
    assert_eq!(app.total_time[0], 0);
    assert_eq!(app.infected_chart.len(), 1);
    // 10 of 40 people is 25 percent, in fixed-point units
    assert_eq!(app.infected_chart[0], 25_000);
    assert_eq!(app.susceptible_chart[0], 75_000);
    assert_eq!(app.recovered_chart[0], 0);
}

/// A person outside the infection radius stays out of the at-risk set
/// regardless of the population size.
#[test]
fn test_at_risk_set_radius_exact() {
    let mut app = Simulation::new();
    // radius 3.5 pixels: distance 3.5 is included, 3.501 is not
    for index in 0..app.community.len() {
        app.community[index].x = 300_000;
        app.community[index].y = 300_000;
        app.community[index].state = PersonState::Recovered;
        app.community[index].infection_duration = 0;
    }
    app.community[0].x = 20_000;
    app.community[0].y = 20_000;
    app.community[0].state = PersonState::Infected;
    app.community[1].x = 23_500;
    app.community[1].y = 20_000;
    app.community[1].state = PersonState::Susceptible;
    app.community[2].x = 23_501;
    app.community[2].y = 20_000;
    app.community[2].state = PersonState::Susceptible;
    let vulnerable = app.find_vulnerable_people();
    assert!(vulnerable.contains(&1));
    assert!(!vulnerable.contains(&2));
    assert_eq!(vulnerable.len(), 1);
}
