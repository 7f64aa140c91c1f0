use product_swarm::config::{ConfigError, SwarmConfig};
use product_swarm::fixed::Fixed;
use product_swarm::product::Product;
use product_swarm::swarm::{optimize, Outcome, Swarm};
use rand::rngs::StdRng;
use rand::SeedableRng;

fn at(x: i32, y: i32, z: i32) -> Product {
    Product::new((Fixed::from_int(x), Fixed::from_int(y), Fixed::from_int(z)), (1, 1, 1))
}

fn half() -> (Fixed, Fixed) {
    (Fixed::from_raw(500_000), Fixed::from_raw(250_000))
}

fn one_generation() -> SwarmConfig {
    SwarmConfig { generations: 1, ..SwarmConfig::default() }
}

fn bests(swarm: &Swarm) -> Vec<Fixed> {
    swarm.population().iter().map(|p| p.p_best()).collect()
}

#[test]
fn empty_population_is_refused() {
    assert_eq!(Swarm::new(Vec::new(), 0).err(), Some(ConfigError::EmptyPopulation));
    assert_eq!(Swarm::new(Vec::new(), 5).err(), Some(ConfigError::EmptyPopulation));
    let mut rng = StdRng::seed_from_u64(1);
    assert_eq!(Swarm::seeded(Vec::new(), &mut rng).err(), Some(ConfigError::EmptyPopulation));
    let cfg = SwarmConfig::default();
    assert_eq!(optimize(Vec::new(), &cfg, &mut rng), Err(ConfigError::EmptyPopulation));
}

#[test]
fn seed_has_to_name_a_product() {
    let population = vec![at(30, 50, 5), at(30, 60, 5)];
    assert_eq!(Swarm::new(population.clone(), 2).err(), Some(ConfigError::SeedOutOfRange));
    assert_eq!(
        Swarm::new(population.clone(), usize::MAX).err(),
        Some(ConfigError::SeedOutOfRange)
    );
    let swarm = Swarm::new(population.clone(), 1).unwrap();
    assert_eq!(swarm.global_best(), population[1]);
    assert_eq!(swarm.population(), &population);
}

#[test]
fn seeded_swarm_starts_from_one_of_its_products() {
    let mut rng = StdRng::seed_from_u64(2);
    let population = vec![at(30, 50, 5), at(30, 60, 5), at(30, 70, 5)];
    let mut seen = [false; 3];
    for _ in 0..60 {
        let swarm = Swarm::seeded(population.clone(), &mut rng).unwrap();
        assert_eq!(swarm.population(), &population);
        let index = population.iter().position(|p| *p == swarm.global_best()).unwrap();
        seen[index] = true;
    }
    assert!(seen.iter().all(|s| *s));
}

#[test]
fn invalid_parameters_are_refused_before_anything_else() {
    let mut rng = StdRng::seed_from_u64(3);
    let cfg = SwarmConfig { vmax: Fixed::from_int(-5), ..SwarmConfig::default() };
    assert_eq!(
        optimize(vec![at(30, 50, 5)], &cfg, &mut rng),
        Err(ConfigError::NegativeVelocityCap)
    );
    assert_eq!(optimize(Vec::new(), &cfg, &mut rng), Err(ConfigError::NegativeVelocityCap));
    let cfg = SwarmConfig { precision: Fixed::from_raw(-1), ..SwarmConfig::default() };
    assert_eq!(
        optimize(vec![at(30, 50, 5)], &cfg, &mut rng),
        Err(ConfigError::NegativePrecision)
    );
}

#[test]
fn scan_records_every_best_and_names_the_last_candidate() {
    let mut swarm = Swarm::new(vec![at(30, 50, 5), at(30, 40, 5), at(40, 40, 5)], 0).unwrap();
    // All three beat the lowest decimal: the last one scanned is the candidate.
    assert_eq!(swarm.scan(), Some(2));
    assert_eq!(bests(&swarm), vec![Fixed::from_int(48), Fixed::from_int(24), Fixed::zero()]);
    assert_eq!(swarm.global_best().p_best(), Fixed::lowest());
    // Scanning again changes nothing.
    assert_eq!(swarm.scan(), Some(2));
    assert_eq!(bests(&swarm), vec![Fixed::from_int(48), Fixed::from_int(24), Fixed::zero()]);
}

#[test]
fn scan_finds_no_candidate_where_nothing_beats_the_global_best() {
    let mut best = at(30, 50, 5);
    best.record_personal_best();
    let mut swarm = Swarm::new(vec![best, at(30, 40, 5), at(40, 40, 5)], 0).unwrap();
    assert_eq!(swarm.scan(), None);
    assert_eq!(bests(&swarm), vec![Fixed::from_int(48), Fixed::from_int(24), Fixed::zero()]);
}

#[test]
fn candidate_has_to_be_strictly_better() {
    let mut best = at(30, 50, 5);
    best.record_personal_best();
    let mut swarm = Swarm::new(vec![at(30, 50, 5), best, at(30, 50, 5)], 1).unwrap();
    assert_eq!(swarm.scan(), None);
    assert!(!swarm.begin_generation(Fixed::from_int(1000)));
    assert_eq!(swarm.global_best(), best);
}

#[test]
fn last_scanned_candidate_becomes_the_global_best() {
    let mut swarm = Swarm::new(vec![at(30, 50, 5), at(30, 40, 5)], 0).unwrap();
    assert!(!swarm.begin_generation(Fixed::from_raw(10_000)));
    // The second product is no better than the first, but it was scanned last.
    assert_eq!(swarm.global_best().p_best(), Fixed::from_int(24));
    assert_eq!(swarm.global_best().selling_price(), Fixed::from_int(40));
    // Now only the first one beats the global best.
    assert!(!swarm.begin_generation(Fixed::from_raw(10_000)));
    assert_eq!(swarm.global_best().p_best(), Fixed::from_int(48));
    assert_eq!(swarm.global_best().selling_price(), Fixed::from_int(50));
    // And nothing beats it any more.
    assert!(!swarm.begin_generation(Fixed::from_raw(10_000)));
    assert_eq!(swarm.global_best().p_best(), Fixed::from_int(48));
}

#[test]
fn small_improvement_ends_the_run() {
    let mut seed = at(30, 50, 5);
    seed.set_p_best(Fixed::from_raw(47_990_000));
    let mut swarm = Swarm::new(vec![seed], 0).unwrap();
    // 48 - 47.99 = 0.01 is within the tolerance.
    assert!(swarm.begin_generation(Fixed::from_raw(10_000)));
    assert_eq!(swarm.global_best(), seed);
    assert_eq!(bests(&swarm), vec![Fixed::from_int(48)]);

    let mut swarm = Swarm::new(vec![seed], 0).unwrap();
    // It is not within a tolerance that is a millionth tighter.
    assert!(!swarm.begin_generation(Fixed::from_raw(9_999)));
    assert_eq!(swarm.global_best().p_best(), Fixed::from_int(48));
}

#[test]
fn global_best_is_a_copy_of_its_own() {
    let mut swarm = Swarm::new(vec![at(30, 50, 5)], 0).unwrap();
    assert!(!swarm.begin_generation(Fixed::from_raw(10_000)));
    let snapshot = swarm.global_best();
    let cfg = SwarmConfig { vmax: Fixed::from_int(5), ..SwarmConfig::default() };
    let mut moved = at(30, 50, 5);
    moved.record_personal_best();
    let own = vec![(Fixed::zero(), Fixed::zero())];
    // Inertia alone: 0.6 is cut to 0, so force a move with a large inertia.
    let cfg = SwarmConfig { w: Fixed::from_int(3), ..cfg };
    assert_eq!(swarm.advance_with(&cfg, &own), Ok(()));
    assert_eq!(swarm.population()[0].restocking_price(), Fixed::from_int(33));
    assert_eq!(swarm.global_best(), snapshot);
    assert_eq!(swarm.global_best().restocking_price(), Fixed::from_int(30));
}

#[test]
fn advance_moves_every_product_with_its_own_pair() {
    let mut target = at(30, 60, 5);
    target.record_personal_best();
    let mut follower = at(30, 50, 5);
    follower.record_personal_best();
    let mut swarm = Swarm::new(vec![target, follower, follower], 0).unwrap();
    let cfg = SwarmConfig::default();
    let draws = vec![half(), half(), (Fixed::zero(), Fixed::from_raw(100_000))];
    assert_eq!(swarm.advance_with(&cfg, &draws), Ok(()));
    let moved = swarm.population();
    // The target: 0.6 on every axis, its gaps to itself are zero.
    assert_eq!(moved[0].velocity(), (0, 0, 0));
    // First follower. Axis 0: 0.6 + 0.5 * (72 - 48) = 12.6, capped at 5.
    // Axis 1: 0.6 + 0.5 * 10 = 5.6, capped at 5. Axis 2: 0.6.
    assert_eq!(moved[1].velocity(), (5, 5, 0));
    assert_eq!(moved[1].restocking_price(), Fixed::from_int(35));
    assert_eq!(moved[1].selling_price(), Fixed::from_int(55));
    assert_eq!(moved[1].market_demand(), Fixed::from_int(5));
    // Second follower. Axis 0: 0.6 + 0.2 * 24 = 5.4, capped at 5.
    // Axis 1: 0.6 + 0.2 * 10 = 2.6. Axis 2: 0.6.
    assert_eq!(moved[2].velocity(), (5, 2, 0));
    assert_eq!(moved[2].restocking_price(), Fixed::from_int(35));
    assert_eq!(moved[2].selling_price(), Fixed::from_int(52));
    assert_eq!(swarm.global_best(), target);
}

#[test]
fn advance_needs_one_pair_for_each_product() {
    let population = vec![at(30, 50, 5), at(30, 60, 5)];
    let mut swarm = Swarm::new(population.clone(), 0).unwrap();
    let cfg = SwarmConfig::default();
    assert_eq!(swarm.advance_with(&cfg, &vec![half()]), Err(ConfigError::DrawsMismatch));
    assert_eq!(
        swarm.advance_with(&cfg, &vec![half(), half(), half()]),
        Err(ConfigError::DrawsMismatch)
    );
    assert_eq!(swarm.advance_with(&cfg, &Vec::new()), Err(ConfigError::DrawsMismatch));
    assert_eq!(swarm.population(), &population);
}

#[test]
fn single_product_run_of_one_generation() {
    let mut swarm = Swarm::new(vec![at(30, 50, 5)], 0).unwrap();
    let out = swarm.run_with(&one_generation(), &vec![vec![half()]]).unwrap();
    assert_eq!(out.generations, 1);
    assert!(!out.converged);
    assert_eq!(out.global_best.p_best(), Fixed::from_int(48));
    assert_eq!(out.global_best, swarm.global_best());
    assert_eq!(bests(&swarm), vec![Fixed::from_int(48)]);
    // The global best is the product as it stood when it was scanned.
    assert_eq!(out.global_best.restocking_price(), Fixed::from_int(30));
    assert_eq!(out.global_best.selling_price(), Fixed::from_int(50));
    assert_eq!(out.global_best.market_demand(), Fixed::from_int(5));
    assert_eq!(out.global_best.calculate_fitness(), Fixed::from_int(48));
    // The product itself went on: 0.6 on every axis is no step.
    assert_eq!(swarm.population()[0].velocity(), (0, 0, 0));
}

#[test]
fn single_product_run_with_a_generator() {
    let mut rng = StdRng::seed_from_u64(4);
    let out = optimize(vec![at(30, 50, 5)], &one_generation(), &mut rng).unwrap();
    assert_eq!(out.generations, 1);
    assert!(!out.converged);
    assert_eq!(out.global_best.p_best(), Fixed::from_int(48));
    assert_eq!(out.global_best.calculate_fitness(), Fixed::from_int(48));
}

#[test]
fn run_ends_at_once_where_the_seed_is_as_good_as_it_gets() {
    let mut seed = at(30, 50, 5);
    seed.set_p_best(Fixed::from_raw(47_995_000));
    let mut swarm = Swarm::new(vec![seed], 0).unwrap();
    let mut rng = StdRng::seed_from_u64(5);
    let out = swarm.run(&SwarmConfig::default(), &mut rng);
    assert_eq!(out.generations, 0);
    assert!(out.converged);
    assert_eq!(out.global_best, seed);
    assert_eq!(bests(&swarm), vec![Fixed::from_int(48)]);
    assert_eq!(swarm.population()[0].velocity(), (1, 1, 1));
}

#[test]
fn no_generation_where_the_cap_is_zero() {
    let population = vec![at(30, 50, 5), at(30, 60, 5)];
    let mut swarm = Swarm::new(population.clone(), 1).unwrap();
    let cfg = SwarmConfig { generations: 0, ..SwarmConfig::default() };
    let out = swarm.run_with(&cfg, &Vec::new()).unwrap();
    assert_eq!(out, Outcome { global_best: population[1], generations: 0, converged: false });
    assert_eq!(swarm.population(), &population);
}

#[test]
fn uniform_swarm_ends_in_its_first_generation() {
    let mut product = at(30, 50, 5);
    product.set_p_best(Fixed::from_raw(47_995_000));
    let mut swarm = Swarm::new(vec![product; 8], 3).unwrap();
    let mut rng = StdRng::seed_from_u64(6);
    let out = swarm.run(&SwarmConfig::default(), &mut rng);
    assert_eq!(out.generations, 0);
    assert!(out.converged);
    assert_eq!(out.global_best, product);
    assert!(swarm.population().iter().all(|p| p.p_best() == Fixed::from_int(48)));
}

#[test]
fn uniform_swarm_of_new_products_does_not_end_at_once() {
    let mut swarm = Swarm::new(vec![at(30, 50, 5); 4], 0).unwrap();
    let tape = vec![vec![half(); 4]; 2];
    let cfg = SwarmConfig { generations: 2, ..SwarmConfig::default() };
    let out = swarm.run_with(&cfg, &tape).unwrap();
    // The first fitness is far above the lowest decimal, and with these
    // draws nothing improves afterwards.
    assert_eq!(out.generations, 2);
    assert!(!out.converged);
    assert_eq!(out.global_best.p_best(), Fixed::from_int(48));
}

#[test]
fn run_needs_a_full_tape() {
    let population = vec![at(30, 50, 5), at(30, 60, 5)];
    let cfg = SwarmConfig { generations: 2, ..SwarmConfig::default() };
    let short = vec![vec![half(), half()]];
    let ragged = vec![vec![half(), half()], vec![half()]];
    let wide = vec![vec![half(), half(), half()], vec![half(), half()]];
    for tape in [short, ragged, wide] {
        let mut swarm = Swarm::new(population.clone(), 0).unwrap();
        assert_eq!(swarm.run_with(&cfg, &tape), Err(ConfigError::DrawsMismatch));
        assert_eq!(swarm.population(), &population);
        assert_eq!(swarm.global_best(), population[0]);
    }
    // Rows beyond the cap are not read.
    let long = vec![vec![half(), half()], vec![half(), half()], vec![half()]];
    let mut swarm = Swarm::new(population.clone(), 0).unwrap();
    assert!(swarm.run_with(&cfg, &long).is_ok());
}

#[test]
fn same_tape_same_run() {
    let mut rng = StdRng::seed_from_u64(7);
    let population = Product::generate_products(40, &mut rng);
    let cfg = SwarmConfig { generations: 6, precision: Fixed::zero(), ..SwarmConfig::default() };
    let tape: Vec<Vec<(Fixed, Fixed)>> = (0..6)
        .map(|_| product_swarm::random::draw_unit_pairs(&mut rng, 40))
        .collect();
    let mut first = Swarm::new(population.clone(), 9).unwrap();
    let mut second = Swarm::new(population.clone(), 9).unwrap();
    let a = first.run_with(&cfg, &tape).unwrap();
    let b = second.run_with(&cfg, &tape).unwrap();
    assert_eq!(a, b);
    assert_eq!(first.population(), second.population());
    assert_eq!(first.global_best(), second.global_best());
}

#[test]
fn same_seed_same_run() {
    let cfg = SwarmConfig::default();
    let mut outcomes = Vec::new();
    let mut trails = Vec::new();
    for _ in 0..2 {
        let mut rng = StdRng::seed_from_u64(8);
        let population = Product::generate_products(60, &mut rng);
        let mut swarm = Swarm::seeded(population, &mut rng).unwrap();
        let mut trail = vec![swarm.global_best()];
        for _ in 0..cfg.generations {
            if swarm.begin_generation(cfg.precision) {
                break;
            }
            let draws = product_swarm::random::draw_unit_pairs(&mut rng, 60);
            swarm.advance_with(&cfg, &draws).unwrap();
            trail.push(swarm.global_best());
        }
        trails.push(trail);

        let mut rng = StdRng::seed_from_u64(8);
        let population = Product::generate_products(60, &mut rng);
        outcomes.push(optimize(population, &cfg, &mut rng).unwrap());
    }
    assert_eq!(trails[0], trails[1]);
    assert_eq!(outcomes[0], outcomes[1]);
    assert_eq!(outcomes[0].global_best, *trails[0].last().unwrap());
}

#[test]
fn run_with_a_generator_is_the_run_with_its_draws() {
    let mut rng = StdRng::seed_from_u64(9);
    let population = Product::generate_products(30, &mut rng);
    let cfg = SwarmConfig { generations: 5, precision: Fixed::zero(), ..SwarmConfig::default() };

    let mut drawn = StdRng::seed_from_u64(10);
    let mut first = Swarm::new(population.clone(), 0).unwrap();
    let a = first.run(&cfg, &mut drawn);

    let mut replay = StdRng::seed_from_u64(10);
    let tape: Vec<Vec<(Fixed, Fixed)>> = (0..5)
        .map(|_| product_swarm::random::draw_unit_pairs(&mut replay, 30))
        .collect();
    let mut second = Swarm::new(population, 0).unwrap();
    let b = second.run_with(&cfg, &tape).unwrap();

    assert_eq!(a.generations, 5);
    assert_eq!(a, b);
    assert_eq!(first.population(), second.population());
}

#[test]
fn global_best_never_falls() {
    let mut rng = StdRng::seed_from_u64(11);
    let population = Product::generate_products(80, &mut rng);
    let mut swarm = Swarm::seeded(population, &mut rng).unwrap();
    let cfg = SwarmConfig { precision: Fixed::zero(), ..SwarmConfig::default() };
    let mut last = swarm.global_best().p_best();
    let mut rose = false;
    for _ in 0..cfg.generations {
        if swarm.begin_generation(cfg.precision) {
            break;
        }
        let now = swarm.global_best().p_best();
        assert!(now.raw >= last.raw);
        rose |= now.raw > last.raw;
        last = now;
        let draws = product_swarm::random::draw_unit_pairs(&mut rng, 80);
        swarm.advance_with(&cfg, &draws).unwrap();
        assert_eq!(swarm.global_best().p_best(), now);
    }
    assert!(rose);
}

#[test]
fn run_reports_a_best_no_lower_than_the_seed() {
    let mut rng = StdRng::seed_from_u64(12);
    let mut population = Product::generate_products(50, &mut rng);
    for p in population.iter_mut() {
        p.record_personal_best();
    }
    let mut swarm = Swarm::new(population.clone(), 17).unwrap();
    let out = swarm.run(&SwarmConfig::default(), &mut rng);
    assert!(out.global_best.p_best().raw >= population[17].p_best().raw);
    assert!(out.generations <= 30);
    assert_eq!(out.converged, out.generations < 30);
    assert_eq!(swarm.population().len(), 50);
}

#[test]
fn product_without_margin_does_not_displace_a_profitable_one() {
    let mut profitable = at(30, 50, 5);
    profitable.record_personal_best();
    let flat = at(40, 40, 5);
    assert_eq!(flat.calculate_fitness(), Fixed::zero());

    let mut swarm = Swarm::new(vec![profitable, flat], 0).unwrap();
    assert_eq!(swarm.scan(), None);
    assert_eq!(swarm.population()[1].p_best(), Fixed::zero());

    let mut swarm = Swarm::new(vec![flat, profitable, flat], 1).unwrap();
    let out = swarm.run_with(&one_generation(), &vec![vec![half(); 3]]).unwrap();
    assert_eq!(out.global_best, profitable);
    assert!(!out.converged);
}

#[test]
fn optimize_reports_a_product_with_its_best_recorded() {
    let mut rng = StdRng::seed_from_u64(13);
    let population = Product::generate_products(300, &mut rng);
    let out = optimize(population, &SwarmConfig::default(), &mut rng).unwrap();
    assert!(out.generations <= 30);
    assert_eq!(out.converged, out.generations < 30);
    // Every generated product has a margin, so the best one has a fitness
    // that is not negative; where it stands now it may do worse than it once did.
    assert!(out.global_best.p_best().raw >= 0);
    assert!(out.global_best.calculate_fitness().raw <= out.global_best.p_best().raw);
    assert!(out.global_best.restocking_price().raw > 0);
    assert!(out.global_best.market_demand().raw > 0);
}

#[test]
fn advance_with_a_generator_keeps_the_cap_and_the_global_best() {
    let mut rng = StdRng::seed_from_u64(14);
    let population = Product::generate_products(40, &mut rng);
    let mut swarm = Swarm::seeded(population, &mut rng).unwrap();
    let cfg = SwarmConfig { vmax: Fixed::from_raw(2_500_000), ..SwarmConfig::default() };
    for _ in 0..10 {
        swarm.begin_generation(Fixed::zero());
        let best = swarm.global_best();
        swarm.advance(&cfg, &mut rng);
        assert_eq!(swarm.global_best(), best);
        assert_eq!(swarm.population().len(), 40);
        for p in swarm.population() {
            let v = p.velocity();
            assert!([v.0, v.1, v.2].iter().all(|c| -2 <= *c && *c <= 2));
            assert!(p.restocking_price().raw > 0);
            assert!(p.market_demand().raw > 0);
        }
    }
}

#[test]
fn advance_with_a_generator_is_advance_with_its_draws() {
    let mut rng = StdRng::seed_from_u64(15);
    let population = Product::generate_products(25, &mut rng);
    let cfg = SwarmConfig::default();

    let mut drawn = StdRng::seed_from_u64(16);
    let mut first = Swarm::new(population.clone(), 4).unwrap();
    first.begin_generation(cfg.precision);
    first.advance(&cfg, &mut drawn);

    let mut replay = StdRng::seed_from_u64(16);
    let draws = product_swarm::random::draw_unit_pairs(&mut replay, 25);
    let mut second = Swarm::new(population, 4).unwrap();
    second.begin_generation(cfg.precision);
    assert_eq!(second.advance_with(&cfg, &draws), Ok(()));

    assert_eq!(first.population(), second.population());
}

#[test]
fn run_with_refuses_invalid_parameters_before_it_reads_the_tape() {
    let population = vec![at(30, 50, 5), at(30, 60, 5)];
    let full = vec![vec![half(), half()]];
    let base = one_generation();
    let below = Fixed::from_raw(-1);
    let cases = [
        (SwarmConfig { c1: below, ..base }, ConfigError::NegativeCognitive),
        (SwarmConfig { c2: below, ..base }, ConfigError::NegativeSocial),
        (SwarmConfig { w: below, ..base }, ConfigError::NegativeInertia),
        (SwarmConfig { vmax: Fixed::from_int(-5), ..base }, ConfigError::NegativeVelocityCap),
        (SwarmConfig { precision: below, ..base }, ConfigError::NegativePrecision),
    ];
    for (cfg, fault) in cases {
        let mut swarm = Swarm::new(population.clone(), 0).unwrap();
        assert_eq!(swarm.run_with(&cfg, &full), Err(fault));
        assert_eq!(swarm.population(), &population);
        assert_eq!(swarm.global_best(), population[0]);
        // The fault is named even where the tape does not fit either.
        assert_eq!(swarm.run_with(&cfg, &Vec::new()), Err(fault));
        assert_eq!(swarm.population(), &population);
    }
}

#[test]
fn advance_refuses_invalid_parameters_before_it_counts_the_draws() {
    let population = vec![at(30, 50, 5), at(30, 60, 5)];
    let cfg = SwarmConfig { vmax: Fixed::from_int(-5), ..SwarmConfig::default() };
    let mut swarm = Swarm::new(population.clone(), 0).unwrap();
    assert_eq!(
        swarm.advance_with(&cfg, &vec![half(), half()]),
        Err(ConfigError::NegativeVelocityCap)
    );
    assert_eq!(swarm.advance_with(&cfg, &vec![half()]), Err(ConfigError::NegativeVelocityCap));
    assert_eq!(swarm.population(), &population);
    let cfg = SwarmConfig { w: Fixed::from_raw(-1), precision: Fixed::from_raw(-1), ..cfg };
    assert_eq!(swarm.advance_with(&cfg, &vec![half(), half()]), Err(ConfigError::NegativeInertia));
    assert_eq!(swarm.population(), &population);
}
