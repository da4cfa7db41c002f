use wave_trainer::agent::{Agent, FunctionCoefficients};
use wave_trainer::rng::RandomSource;
use wave_trainer::trainer::Trainer;
use wave_trainer::wave::WaveFunction;
use wave_trainer::TrainError;

fn zero_goal(n: usize) -> Vec<i64> {
    vec![0i64; n]
}

fn agent_of(coeffs: Vec<FunctionCoefficients>) -> Agent {
    Agent { functions: coeffs, fitness: 0 }
}

fn sine(scale: i64, translation: i64) -> FunctionCoefficients {
    FunctionCoefficients {
        function_type: WaveFunction::Sine,
        scale,
        x_translation: translation,
    }
}

fn saw(scale: i64, translation: i64) -> FunctionCoefficients {
    FunctionCoefficients {
        function_type: WaveFunction::SawTooth,
        scale,
        x_translation: translation,
    }
}

#[test]
fn mutate_keeps_length_bounds() {
    let mut source = RandomSource::system();
    let mut agent = Agent::new_rand(4, &mut source);
    for _ in 0..300 {
        agent.mutate(&mut source);
        assert!(1 <= agent.functions.len());
        assert!(agent.functions.len() <= 12);
    }
}

#[test]
fn mutate_keeps_length_bounds_from_extremes() {
    let mut source = RandomSource::system();
    let mut small = Agent::new_rand(1, &mut source);
    let mut large = Agent::new_rand(12, &mut source);
    for _ in 0..200 {
        small.mutate(&mut source);
        large.mutate(&mut source);
        assert!(1 <= small.functions.len() && small.functions.len() <= 12);
        assert!(1 <= large.functions.len() && large.functions.len() <= 12);
    }
}

#[test]
fn crossover_length_is_shorter_parent() {
    let mut source = RandomSource::system();
    let a = agent_of(vec![sine(1000, 0), sine(2000, 0), sine(3000, 0)]);
    let b = agent_of(vec![saw(-1000, 0), saw(-2000, 0), saw(-3000, 0), saw(-4000, 0), saw(-5000, 0), saw(-6000, 0), saw(-7000, 0)]);
    assert_eq!(a.crossover(&b, &mut source).functions.len(), 3);
    assert_eq!(b.crossover(&a, &mut source).functions.len(), 3);
    let c = agent_of(vec![sine(1, 1), sine(2, 2), sine(3, 3), sine(4, 4), sine(5, 5)]);
    assert_eq!(c.crossover(&c, &mut source).functions.len(), 5);
}

#[test]
fn crossover_genes_come_from_parents() {
    let mut source = RandomSource::system();
    let a = agent_of(vec![sine(1000, 10), sine(2000, 20), sine(3000, 30)]);
    let b = agent_of(vec![saw(-1000, -10), saw(-2000, -20)]);
    let child = a.crossover(&b, &mut source);
    assert_eq!(child.functions.len(), 2);
    for (i, c) in child.functions.iter().enumerate() {
        assert!(*c == a.functions[i] || *c == b.functions[i]);
    }
    assert_eq!(child.fitness, 0);
}

#[test]
fn step_sorts_population_descending() {
    let mut trainer = Trainer::new_rand(zero_goal(512), RandomSource::system()).unwrap();
    for _ in 0..3 {
        trainer.step();
        for w in trainer.agents.windows(2) {
            assert!(w[0].fitness >= w[1].fitness);
        }
    }
}

#[test]
fn elites_survive_the_generation() {
    let mut trainer = Trainer::new_rand(zero_goal(512), RandomSource::system()).unwrap();
    trainer.step();
    let elites: Vec<Agent> = trainer.agents[0..10].to_vec();
    trainer.step();
    for e in &elites {
        let in_elites = elites.iter().filter(|x| *x == e).count();
        let in_population = trainer.agents.iter().filter(|x| *x == e).count();
        assert!(in_population >= in_elites);
    }
}

#[test]
fn fitness_is_a_pure_function() {
    let goal: Vec<i64> = (0..512).map(|i| (i as i64 % 7) * 100 - 300).collect();
    let mut a = agent_of(vec![sine(5000, 2000), saw(-3000, -1000)]);
    a.calculate_fitness(&goal);
    let first = a.fitness;
    a.calculate_fitness(&goal);
    assert_eq!(a.fitness, first);
    let mut twin = agent_of(vec![sine(5000, 2000), saw(-3000, -1000)]);
    twin.calculate_fitness(&goal);
    assert_eq!(twin.fitness, first);
}

#[test]
fn best_fitness_never_falls_between_generations() {
    let mut trainer = Trainer::new_rand(zero_goal(512), RandomSource::system()).unwrap();
    trainer.step();
    let mut previous = trainer.best_fitness();
    for _ in 0..25 {
        trainer.step();
        let current = trainer.best_fitness();
        assert!(current >= previous);
        previous = current;
    }
}

#[test]
fn construct_with_short_target_fails() {
    let r = Trainer::new_rand(zero_goal(511), RandomSource::system());
    assert_eq!(r.unwrap_err(), TrainError::LengthMismatch);
}

#[test]
fn construct_with_long_target_fails() {
    let r = Trainer::new_rand(zero_goal(513), RandomSource::system());
    assert_eq!(r.unwrap_err(), TrainError::LengthMismatch);
}

#[test]
fn construct_seeds_starting_sized_candidates() {
    let trainer = Trainer::new_rand(zero_goal(512), RandomSource::system()).unwrap();
    assert_eq!(trainer.agents.len(), 50);
    for a in &trainer.agents {
        assert_eq!(a.functions.len(), 4);
        assert!(a.fitness <= 0);
    }
    assert_eq!(trainer.best_waveform().len(), 512);
}

#[test]
fn zero_target_fitness_trends_toward_zero() {
    let mut trainer = Trainer::new_rand(zero_goal(512), RandomSource::system()).unwrap();
    trainer.step();
    let start = trainer.best_fitness();
    assert!(start <= 0);
    for _ in 0..150 {
        trainer.step();
        assert!(trainer.best_fitness() <= 0);
    }
    assert!(trainer.best_fitness() >= start);
}

#[test]
fn cached_fitness_matches_recomputation() {
    let goal: Vec<i64> = (0..512).map(|i| (i as i64 % 11) * 50 - 250).collect();
    let mut trainer = Trainer::new_rand(goal.clone(), RandomSource::system()).unwrap();
    trainer.step();
    for idx in [0, 7, 23, 49] {
        let cached = trainer.agents[idx].fitness;
        let mut copy = trainer.agents[idx].clone();
        copy.calculate_fitness(&goal);
        assert_eq!(copy.fitness, cached);
    }
}
