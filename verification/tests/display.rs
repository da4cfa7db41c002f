use wave_trainer::agent::{Agent, FunctionCoefficients};
use wave_trainer::rng::RandomSource;
use wave_trainer::trainer::Trainer;
use wave_trainer::wave::WaveFunction;

fn instance(kind: WaveFunction, scale: i64, translation: i64) -> FunctionCoefficients {
    FunctionCoefficients { function_type: kind, scale, x_translation: translation }
}

#[test]
fn sine_term_formats_as_decimal() {
    let c = instance(WaveFunction::Sine, 5000, 2000);
    assert_eq!(c.display(), "0.5*sin(x + 0.2)");
}

#[test]
fn sawtooth_term_formats_with_frac() {
    let c = instance(WaveFunction::SawTooth, -3000, -1000);
    assert_eq!(c.display(), "-0.3*frac(x + -0.1)");
}

#[test]
fn display_trims_trailing_zeros() {
    let c = instance(WaveFunction::Sine, 10_001, 12_340);
    assert_eq!(c.display(), "1.0001*sin(x + 1.234)");
    let d = instance(WaveFunction::Sine, 20_000, 7);
    assert_eq!(d.display(), "2*sin(x + 0.0007)");
    let e = instance(WaveFunction::Sine, 0, -25_500);
    assert_eq!(e.display(), "0*sin(x + -2.55)");
}

#[test]
fn agent_display_joins_terms() {
    let a = Agent {
        functions: vec![
            instance(WaveFunction::Sine, 5000, 2000),
            instance(WaveFunction::SawTooth, -3000, -1000),
        ],
        fitness: 0,
    };
    assert_eq!(a.display(), "0.5*sin(x + 0.2) + -0.3*frac(x + -0.1)");
}

#[test]
fn best_formula_is_the_leading_candidate_display() {
    let trainer = Trainer::new_rand(vec![0; 512], RandomSource::system()).unwrap();
    assert_eq!(trainer.best_formula(), trainer.agents[0].display());
    assert!(!trainer.best_formula().is_empty());
}
