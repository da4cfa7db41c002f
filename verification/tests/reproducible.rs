use wave_trainer::agent::{Agent, FunctionCoefficients};
use wave_trainer::rng::RandomSource;
use wave_trainer::wave::WaveFunction;

fn sine(scale: i64, translation: i64) -> FunctionCoefficients {
    FunctionCoefficients {
        function_type: WaveFunction::Sine,
        scale,
        x_translation: translation,
    }
}

fn saw(scale: i64, translation: i64) -> FunctionCoefficients {
    FunctionCoefficients {
        function_type: WaveFunction::SawTooth,
        scale,
        x_translation: translation,
    }
}

#[test]
fn scripted_new_rand_is_literal() {
    // Draws: kind (below 2), scale and translation (below 20001, shifted).
    let mut source = RandomSource::scripted(vec![0, 15_000, 20_000]);
    let c = FunctionCoefficients::new_rand(&mut source);
    assert_eq!(c, sine(5000, 10_000));

    let mut source = RandomSource::scripted(vec![1, 0, 10_000]);
    let c = FunctionCoefficients::new_rand(&mut source);
    assert_eq!(c, saw(-10_000, 0));
}

#[test]
fn scripted_agent_new_rand_is_literal() {
    let mut source = RandomSource::scripted(vec![
        0, 15_000, 20_000,  // first instance
        1, 0, 10_000,       // second instance
    ]);
    let a = Agent::new_rand(2, &mut source);
    assert_eq!(a.functions, vec![sine(5000, 10_000), saw(-10_000, 0)]);
    assert_eq!(a.fitness, 0);
}

#[test]
fn scripted_crossover_is_literal() {
    let a = Agent { functions: vec![sine(1000, 0), sine(2000, 0), sine(3000, 0)], fitness: -5 };
    let b = Agent { functions: vec![saw(-1000, 0), saw(-2000, 0)], fitness: -9 };
    // A zero draw picks the first parent, a one draw the second.
    let mut source = RandomSource::scripted(vec![0, 1]);
    let child = a.crossover(&b, &mut source);
    assert_eq!(child.functions, vec![sine(1000, 0), saw(-2000, 0)]);
    assert_eq!(child.fitness, 0);
}

#[test]
fn scripted_mutate_drifts_one_scale() {
    let mut a = Agent { functions: vec![sine(0, 0)], fitness: -3 };
    // No growth (9 of 10), no shrink draw at length one, one scale drift
    // of twelve maximal noise draws, no translation drift.
    let mut source = RandomSource::scripted(vec![
        9,  // growth chance fails
        3,  // scale drift chance succeeds
        1000, 1000, 1000, 1000, 1000, 1000, 1000, 1000, 1000, 1000, 1000, 1000,
        9,  // translation drift chance fails
    ]);
    a.mutate(&mut source);
    assert_eq!(a.functions, vec![sine(6000, 0)]);
    assert_eq!(a.fitness, -3);
}

#[test]
fn scripted_mutate_appends_an_instance() {
    let mut a = Agent { functions: vec![saw(500, -500)], fitness: 0 };
    let mut source = RandomSource::scripted(vec![
        0,  // growth chance succeeds
        0, 10_000, 10_000,  // the appended instance: sine, zero, zero
        9,  // shrink chance fails
        9, 9,  // no scale drift
        9, 9,  // no translation drift
    ]);
    a.mutate(&mut source);
    assert_eq!(a.functions, vec![saw(500, -500), sine(0, 0)]);
}

#[test]
fn scripted_mutate_removes_the_chosen_instance() {
    let mut a = Agent { functions: vec![sine(1, 1), sine(2, 2), sine(3, 3)], fitness: 0 };
    let mut source = RandomSource::scripted(vec![
        9,  // growth chance fails
        0,  // shrink chance succeeds
        1,  // remove index one
        9, 9,  // no scale drift
        9, 9,  // no translation drift
    ]);
    a.mutate(&mut source);
    assert_eq!(a.functions, vec![sine(1, 1), sine(3, 3)]);
}

#[test]
fn scripted_feed_wraps_around() {
    let mut source = RandomSource::scripted(vec![7, 3]);
    assert_eq!(source.draw_below(10), 7);
    assert_eq!(source.draw_below(10), 3);
    assert_eq!(source.draw_below(10), 7);
    assert_eq!(source.draw_below(5), 3);
}

#[test]
fn draw_range_shifts_draws() {
    let mut source = RandomSource::scripted(vec![0, 20_000, 10_000]);
    assert_eq!(source.draw_range(-10_000, 10_000), -10_000);
    assert_eq!(source.draw_range(-10_000, 10_000), 10_000);
    assert_eq!(source.draw_range(-10_000, 10_000), 0);
}
