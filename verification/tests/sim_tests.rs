use monkey_theorem::sim::SimError;
use monkey_theorem::sim::Simulation;

#[test]
fn empty_text_is_a_fatal_configuration_error() {
    let r = Simulation::new("");
    assert!(matches!(r, Err(SimError::EmptyText)));
}

#[test]
fn non_empty_text_sets_up() {
    let sim = Simulation::new("ab").unwrap();
    assert_eq!(sim.text_len(), 2);
    assert_eq!(sim.unique_count(), 2);
    assert_eq!(sim.char_at(0), 'a');
    assert_eq!(sim.char_at(1), 'b');
}

#[test]
fn counts_for_repetitive_text() {
    let sim = Simulation::new("abracadabra").unwrap();
    assert_eq!(sim.text_len(), 11);
    assert_eq!(sim.unique_count(), 5);
}

#[test]
fn random_char_comes_from_the_alphabet() {
    // With a one-letter alphabet the draw is pinned down completely, so a
    // wrapper that mishandled the requested range would show up here.
    let sim = Simulation::new("aaaa").unwrap();
    for _ in 0..100 {
        assert_eq!(sim.random_char(), 'a');
    }
    let sim2 = Simulation::new("ab").unwrap();
    for _ in 0..100 {
        let c = sim2.random_char();
        assert!(c == 'a' || c == 'b');
    }
}

#[test]
fn single_attempt_probability_underflows_to_zero() {
    // The statistics banner computes (1/A)^L with floating point and must
    // report "approaches 0" once that value underflows to exactly 0.0.
    let sim = Simulation::new("ab").unwrap();
    let single = 1.0_f64 / sim.unique_count() as f64;
    assert_eq!(single, 0.5);
    // A short text keeps a nonzero value...
    assert!(single.powi(sim.text_len() as i32) > 0.0);
    // ...but any non-trivial length underflows, and 0.0 triggers the
    // "approaches 0" report instead of a nonzero literal.
    assert_eq!(single.powi(5000), 0.0);
}
