use wave_trainer::agent::{Agent, FunctionCoefficients};
use wave_trainer::rng::RandomSource;
use wave_trainer::wave::WaveFunction;

#[test]
fn sawtooth_keeps_fraction_in_unit_interval_for_negative_input() {
    // x = -0.5 with unit scale and no translation evaluates to 0.5.
    let k = WaveFunction::SawTooth;
    assert_eq!(k.evaluate(-5000, 10_000, 0), 5000);
}

#[test]
fn sawtooth_just_under_one() {
    // x = 0.999 evaluates just under one unit.
    let k = WaveFunction::SawTooth;
    let v = k.evaluate(9990, 10_000, 0);
    assert_eq!(v, 9990);
    assert!(v < 10_000);
}

#[test]
fn sawtooth_uses_scale_and_translation() {
    let k = WaveFunction::SawTooth;
    // frac(0.25 + 0.5) = 0.75, scaled by -2.
    assert_eq!(k.evaluate(2500, -20_000, 5000), -15_000);
}

#[test]
fn sine_known_points() {
    let k = WaveFunction::Sine;
    assert_eq!(k.evaluate(0, 10_000, 0), 0);
    // A quarter turn reaches the full amplitude.
    assert_eq!(k.evaluate(15_708, 10_000, 0), 10_000);
    // The mirrored quarter turn reaches the negated amplitude.
    assert_eq!(k.evaluate(-15_708, 10_000, 0), -10_000);
    // Translation shifts the argument.
    assert_eq!(k.evaluate(0, 10_000, 15_708), 10_000);
}

#[test]
fn sine_is_bounded_by_scale() {
    let k = WaveFunction::Sine;
    let mut x: i64 = -10_000;
    while x <= 10_000 {
        let v = k.evaluate(x, 7000, 1234);
        assert!(-7000 <= v && v <= 7000);
        x += 613;
    }
}

#[test]
fn agent_evaluation_sums_instances() {
    let a = Agent {
        functions: vec![
            FunctionCoefficients {
                function_type: WaveFunction::SawTooth,
                scale: 10_000,
                x_translation: 0,
            },
            FunctionCoefficients {
                function_type: WaveFunction::SawTooth,
                scale: 20_000,
                x_translation: 0,
            },
        ],
        fitness: 0,
    };
    // frac(0.25) = 0.25: 0.25 + 0.5 summed over the two instances.
    assert_eq!(a.evaluate(2500), 2500 + 5000);
}

#[test]
fn perfect_candidate_scores_zero_against_its_own_wave() {
    let mut a = Agent {
        functions: vec![FunctionCoefficients {
            function_type: WaveFunction::SawTooth,
            scale: 10_000,
            x_translation: 0,
        }],
        fitness: 77,
    };
    let goal: Vec<i64> = (0..512).map(|i| {
        let x = (2 * i * 10_000) / 512 - 10_000;
        a.evaluate(x)
    }).collect();
    a.calculate_fitness(&goal);
    assert_eq!(a.fitness, 0);
}

#[test]
fn fitness_counts_absolute_error() {
    // A flat zero candidate cannot exist (an instance always has a kind),
    // but a zero-scaled sine evaluates to zero everywhere.
    let mut a = Agent {
        functions: vec![FunctionCoefficients {
            function_type: WaveFunction::Sine,
            scale: 0,
            x_translation: 0,
        }],
        fitness: 0,
    };
    let goal: Vec<i64> = vec![25; 512];
    a.calculate_fitness(&goal);
    assert_eq!(a.fitness, -25 * 512);
}

#[test]
fn wave_function_name_lookup() {
    assert_eq!(WaveFunction::new("Sine"), "Sine");
    assert_eq!(WaveFunction::new("anything"), "Sine");
}

#[test]
fn random_instances_start_within_one_unit() {
    let mut source = RandomSource::system();
    for _ in 0..50 {
        let c = FunctionCoefficients::new_rand(&mut source);
        assert!(-10_000 <= c.scale && c.scale <= 10_000);
        assert!(-10_000 <= c.x_translation && c.x_translation <= 10_000);
    }
}
