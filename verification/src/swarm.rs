//! The swarm: a population of products, the best of them seen so far, and
//! the generations that move them.

use rand::rngs::StdRng;
use vstd::prelude::*;

use crate::config::{ConfigError, SwarmConfig};
use crate::fixed::{raw_distance, Fixed};
use crate::product::{
    fitness_of, position_step, position_step_keeps_positive, recorded, speed_within,
    velocity_step, velocity_step_keeps_cap, Product, ProductView,
};
use crate::random::{draw_index, draw_unit_pairs, unit_pair};

verus! {

/// What a [`Swarm`] stands for.
pub struct SwarmView {
    pub population: Seq<ProductView>,
    pub global_best: ProductView,
}

/// What each product of a sequence stands for.
pub open spec fn views(products: Seq<Product>) -> Seq<ProductView> {
    Seq::new(products.len(), |i: int| products[i]@)
}

/// The position of the last of the first `k` products whose personal best is
/// strictly above `bar`, if there is one.
pub open spec fn last_above(population: Seq<ProductView>, bar: int, k: nat) -> Option<int>
    decreases k,
{
    if k == 0 {
        None
    } else if population[k - 1].personal_best > bar {
        Some(k - 1)
    } else {
        last_above(population, bar, (k - 1) as nat)
    }
}

/// The product that may replace the global best: the last one of the
/// population whose personal best is strictly above that of the global best.
pub open spec fn candidate(s: SwarmView) -> Option<int> {
    last_above(s.population, s.global_best.personal_best, s.population.len())
}

/// The swarm after every product has recorded its personal best.
///
/// Opaque, so that what is proved of whole runs does not depend on how one
/// product computes: `reveal(scanned)` brings the definition in.
#[verifier::opaque]
pub open spec fn scanned(s: SwarmView) -> SwarmView {
    SwarmView { population: Seq::new(s.population.len(), |i: int| recorded(s.population[i])), ..s }
}

/// Whether a swarm whose products have recorded their bests has converged:
/// there is a candidate, and it improves on the global best by no more than
/// `precision`.
pub open spec fn settled(s: SwarmView, precision: int) -> bool {
    match candidate(s) {
        Some(i) => raw_distance(s.global_best.personal_best, s.population[i].personal_best)
            <= precision,
        None => false,
    }
}

/// The swarm after the candidate, if there is one, has become the global
/// best.
pub open spec fn adopted(s: SwarmView) -> SwarmView {
    match candidate(s) {
        Some(i) => SwarmView { global_best: s.population[i], ..s },
        None => s,
    }
}

/// A product after its velocity update with the pair `draw` and the
/// position update that follows it.
pub open spec fn moved(
    p: ProductView,
    g: ProductView,
    cfg: SwarmConfig,
    draw: (Fixed, Fixed),
) -> ProductView {
    position_step(velocity_step(p, g, cfg.c1@, cfg.c2@, cfg.w@, cfg.vmax@, draw.0@, draw.1@))
}

/// The swarm after every product has moved, the product at position `i`
/// with the pair `draws[i]`.
///
/// Opaque like [`scanned`]: `reveal(advanced)` brings the definition in.
#[verifier::opaque]
pub open spec fn advanced(s: SwarmView, cfg: SwarmConfig, draws: Seq<(Fixed, Fixed)>) -> SwarmView {
    SwarmView {
        population: Seq::new(
            s.population.len(),
            |i: int| moved(s.population[i], s.global_best, cfg, draws[i]),
        ),
        ..s
    }
}

/// Whether a generation that starts from `s` ends the run.
pub open spec fn stops(s: SwarmView, precision: int) -> bool {
    settled(scanned(s), precision)
}

/// The swarm after one whole generation that does not end the run.
pub open spec fn generation(s: SwarmView, cfg: SwarmConfig, draws: Seq<(Fixed, Fixed)>) -> SwarmView {
    advanced(adopted(scanned(s)), cfg, draws)
}

/// The swarm after `k` whole generations from `start`, generation `j` moving
/// the products with the pairs of `tape[j]`.
pub open spec fn after(
    start: SwarmView,
    cfg: SwarmConfig,
    tape: Seq<Seq<(Fixed, Fixed)>>,
    k: nat,
) -> SwarmView
    decreases k,
{
    if k == 0 {
        start
    } else {
        generation(after(start, cfg, tape, (k - 1) as nat), cfg, tape[k - 1])
    }
}

/// Whether a run from `start` goes on through its first `k` generations:
/// none of them ends it.
pub open spec fn runs_through(
    start: SwarmView,
    cfg: SwarmConfig,
    tape: Seq<Seq<(Fixed, Fixed)>>,
    k: nat,
) -> bool
    decreases k,
{
    k == 0 || (runs_through(start, cfg, tape, (k - 1) as nat) && !stops(
        after(start, cfg, tape, (k - 1) as nat),
        cfg.precision@,
    ))
}

/// Whether a run from `start` takes `generations` whole generations and
/// then ends, by convergence or at the cap.
///
/// A run takes generations until one of them ends it or the cap is reached.
pub open spec fn run_takes(
    start: SwarmView,
    cfg: SwarmConfig,
    tape: Seq<Seq<(Fixed, Fixed)>>,
    generations: nat,
    converged: bool,
) -> bool {
    &&& generations <= cfg.generations
    &&& runs_through(start, cfg, tape, generations)
    &&& converged <==> generations < cfg.generations
    &&& converged ==> stops(after(start, cfg, tape, generations), cfg.precision@)
}

/// The swarm at the end of a run of `generations` whole generations. The
/// generation that ends a run by convergence leaves the personal bests
/// recorded and nothing else changed.
pub open spec fn end_state(
    start: SwarmView,
    cfg: SwarmConfig,
    tape: Seq<Seq<(Fixed, Fixed)>>,
    generations: nat,
    converged: bool,
) -> SwarmView {
    if converged {
        scanned(after(start, cfg, tape, generations))
    } else {
        after(start, cfg, tape, generations)
    }
}

/// Whether a run from `start` takes `generations` whole generations, ends
/// by convergence or at the cap, and leaves the swarm `end`.
pub open spec fn run_ends(
    start: SwarmView,
    cfg: SwarmConfig,
    tape: Seq<Seq<(Fixed, Fixed)>>,
    generations: nat,
    converged: bool,
    end: SwarmView,
) -> bool {
    run_takes(start, cfg, tape, generations, converged) && end == end_state(
        start,
        cfg,
        tape,
        generations,
        converged,
    )
}

/// The swarm of `population` whose global best is a copy of the product at
/// `seed`.
pub open spec fn seeded_from(population: Seq<ProductView>, seed: int) -> SwarmView {
    SwarmView { population, global_best: population[seed] }
}

/// Whether `draws` holds `n` pairs from `[0, 1)`.
pub open spec fn unit_row(draws: Seq<(Fixed, Fixed)>, n: nat) -> bool {
    &&& draws.len() == n
    &&& forall|i: int| 0 <= i < n ==> unit_pair(#[trigger] draws[i])
}

/// Whether `tape` holds `generations` rows of `n` pairs from `[0, 1)` each.
pub open spec fn unit_tape(tape: Seq<Seq<(Fixed, Fixed)>>, generations: nat, n: nat) -> bool {
    &&& tape.len() == generations
    &&& forall|k: int| 0 <= k < tape.len() ==> unit_row(#[trigger] tape[k], n)
}

/// The rows of a tape of draws.
pub open spec fn rows_of(tape: Seq<Vec<(Fixed, Fixed)>>) -> Seq<Seq<(Fixed, Fixed)>> {
    Seq::new(tape.len(), |k: int| tape[k]@)
}

/// Whether `tape` has a row of `n` pairs for each of `generations`
/// generations.
pub open spec fn tape_fits(tape: Seq<Vec<(Fixed, Fixed)>>, generations: nat, n: nat) -> bool {
    &&& tape.len() >= generations
    &&& forall|k: int| 0 <= k < generations ==> (#[trigger] tape[k])@.len() == n
}

/// Whether `out` is how the search over `population` ends when the product
/// at `seed` is the first global best and the draws are those of `tape`,
/// all of them from `[0, 1)`.
pub open spec fn found_by(
    population: Seq<ProductView>,
    cfg: SwarmConfig,
    seed: int,
    tape: Seq<Seq<(Fixed, Fixed)>>,
    out: Outcome,
) -> bool {
    &&& 0 <= seed < population.len()
    &&& unit_tape(tape, out.generations as nat, population.len())
    &&& run_takes(
        seeded_from(population, seed),
        cfg,
        tape,
        out.generations as nat,
        out.converged,
    )
    &&& out.global_best@ == end_state(
        seeded_from(population, seed),
        cfg,
        tape,
        out.generations as nat,
        out.converged,
    ).global_best
}

/// How a run ended.
#[derive(Clone, Copy, Debug, PartialEq, Eq)]
pub struct Outcome {
    /// The global best at the end of the run.
    pub global_best: Product,
    /// Whole generations taken.
    pub generations: usize,
    /// Whether the run ended by convergence rather than at the cap.
    pub converged: bool,
}

/// A population and the best product seen so far, held as a copy of its own.
#[derive(Debug)]
pub struct Swarm {
    population: Vec<Product>,
    global_best: Product,
}

impl View for Swarm {
    type V = SwarmView;

    closed spec fn view(&self) -> SwarmView {
        SwarmView { population: views(self.population@), global_best: self.global_best@ }
    }
}

proof fn lemma_last_above_bounds(population: Seq<ProductView>, bar: int, k: nat)
    ensures
        last_above(population, bar, k) matches Some(i) ==> 0 <= i < k && population[i].personal_best
            > bar,
    decreases k,
{
    if k > 0 && !(population[k - 1].personal_best > bar) {
        lemma_last_above_bounds(population, bar, (k - 1) as nat);
    }
}

/// The rows of a grid of products.
pub open spec fn grid_rows(grid: Seq<Vec<Product>>) -> Seq<Seq<Product>> {
    Seq::new(grid.len(), |r: int| grid[r]@)
}

/// The products of a grid as one population: row after row, each row from
/// its first product to its last.
pub fn flatten(grid: &Vec<Vec<Product>>) -> (population: Vec<Product>)
    ensures
        population@ == grid_rows(grid@).flatten(),
{
    let mut population: Vec<Product> = Vec::new();
    let mut r: usize = 0;
    while r < grid.len()
        invariant
            r <= grid@.len(),
            population@ == grid_rows(grid@).take(r as int).flatten(),
        decreases grid@.len() - r,
    {
        let row = &grid[r];
        let ghost done = population@;
        let mut c: usize = 0;
        while c < row.len()
            invariant
                c <= row@.len(),
                population@ == done + row@.take(c as int),
            decreases row@.len() - c,
        {
            population.push(row[c]);
            proof {
                assert(row@.take(c + 1) =~= row@.take(c as int).push(row@[c as int]));
            }
            c = c + 1;
        }
        proof {
            let rows = grid_rows(grid@);
            assert(row@.take(c as int) =~= row@);
            assert(rows.take(r + 1) =~= rows.take(r as int).push(row@));
            rows.take(r as int).lemma_flatten_push(row@);
        }
        r = r + 1;
    }
    proof {
        assert(grid_rows(grid@).take(r as int) =~= grid_rows(grid@));
    }
    population
}

proof fn lemma_scanned_shape(s: SwarmView)
    ensures
        scanned(s).global_best == s.global_best,
        scanned(s).population.len() == s.population.len(),
{
    reveal(scanned);
}

proof fn lemma_advanced_shape(s: SwarmView, cfg: SwarmConfig, draws: Seq<(Fixed, Fixed)>)
    ensures
        advanced(s, cfg, draws).global_best == s.global_best,
        advanced(s, cfg, draws).population.len() == s.population.len(),
{
    reveal(advanced);
}

proof fn lemma_after_keeps_size(
    start: SwarmView,
    cfg: SwarmConfig,
    tape: Seq<Seq<(Fixed, Fixed)>>,
    k: nat,
)
    ensures
        after(start, cfg, tape, k).population.len() == start.population.len(),
    decreases k,
{
    if k > 0 {
        let before = after(start, cfg, tape, (k - 1) as nat);
        lemma_after_keeps_size(start, cfg, tape, (k - 1) as nat);
        lemma_scanned_shape(before);
        lemma_advanced_shape(adopted(scanned(before)), cfg, tape[k - 1]);
    }
}

proof fn lemma_run_reads_prefix(
    start: SwarmView,
    cfg: SwarmConfig,
    tape: Seq<Seq<(Fixed, Fixed)>>,
    other: Seq<Seq<(Fixed, Fixed)>>,
    k: nat,
)
    requires
        forall|j: int| 0 <= j < k ==> tape[j] == other[j],
    ensures
        after(start, cfg, tape, k) == after(start, cfg, other, k),
        runs_through(start, cfg, tape, k) == runs_through(start, cfg, other, k),
    decreases k,
{
    if k > 0 {
        lemma_run_reads_prefix(start, cfg, tape, other, (k - 1) as nat);
    }
}

proof fn lemma_runs_through_earlier(
    start: SwarmView,
    cfg: SwarmConfig,
    tape: Seq<Seq<(Fixed, Fixed)>>,
    j: nat,
    k: nat,
)
    requires
        j < k,
        runs_through(start, cfg, tape, k),
    ensures
        !stops(after(start, cfg, tape, j), cfg.precision@),
    decreases k,
{
    if j + 1 < k {
        lemma_runs_through_earlier(start, cfg, tape, j, (k - 1) as nat);
    }
}

proof fn lemma_tape_grows(
    start: SwarmView,
    cfg: SwarmConfig,
    tape: Seq<Seq<(Fixed, Fixed)>>,
    draws: Seq<(Fixed, Fixed)>,
    k: nat,
    n: nat,
)
    requires
        unit_tape(tape, k, n),
        unit_row(draws, n),
        runs_through(start, cfg, tape, k),
        !stops(after(start, cfg, tape, k), cfg.precision@),
    ensures
        unit_tape(tape.push(draws), k + 1, n),
        runs_through(start, cfg, tape.push(draws), k + 1),
        after(start, cfg, tape.push(draws), k + 1) == generation(
            after(start, cfg, tape, k),
            cfg,
            draws,
        ),
{
    let longer = tape.push(draws);
    lemma_run_reads_prefix(start, cfg, longer, tape, k);
    assert(longer[k as int] == draws);
    assert forall|j: int| 0 <= j < longer.len() implies unit_row(#[trigger] longer[j], n) by {
        if j < k {
            assert(longer[j] == tape[j]);
        }
    }
}

proof fn lemma_found(
    population: Seq<ProductView>,
    cfg: SwarmConfig,
    start: SwarmView,
    end: SwarmView,
    out: Outcome,
)
    requires
        exists|seed: int|
            0 <= seed < population.len() && start == #[trigger] seeded_from(population, seed),
        exists|tape: Seq<Seq<(Fixed, Fixed)>>|
            unit_tape(tape, out.generations as nat, start.population.len()) && #[trigger] run_ends(
                start,
                cfg,
                tape,
                out.generations as nat,
                out.converged,
                end,
            ),
        out.global_best@ == end.global_best,
    ensures
        exists|seed: int, tape: Seq<Seq<(Fixed, Fixed)>>| #[trigger]
            found_by(population, cfg, seed, tape, out),
{
    let seed = choose|seed: int|
        0 <= seed < population.len() && start == #[trigger] seeded_from(population, seed);
    let tape = choose|tape: Seq<Seq<(Fixed, Fixed)>>|
        unit_tape(tape, out.generations as nat, start.population.len()) && #[trigger] run_ends(
            start,
            cfg,
            tape,
            out.generations as nat,
            out.converged,
            end,
        );
    assert(found_by(population, cfg, seed, tape, out));
}

fn fits(tape: &Vec<Vec<(Fixed, Fixed)>>, generations: usize, n: usize) -> (ok: bool)
    ensures
        ok == tape_fits(tape@, generations as nat, n as nat),
{
    if tape.len() < generations {
        return false;
    }
    let mut k: usize = 0;
    while k < generations
        invariant
            k <= generations <= tape@.len(),
            forall|j: int| 0 <= j < k ==> (#[trigger] tape@[j])@.len() == n,
        decreases generations - k,
    {
        if tape[k].len() != n {
            return false;
        }
        k = k + 1;
    }
    true
}

impl Swarm {
    /// A swarm of `population` whose first global best is a copy of the
    /// product at `seed`.
    pub fn new(population: Vec<Product>, seed: usize) -> (r: Result<Swarm, ConfigError>)
        ensures
            population@.len() == 0 ==> r == Err::<Swarm, ConfigError>(
                ConfigError::EmptyPopulation,
            ),
            0 < population@.len() <= seed ==> r == Err::<Swarm, ConfigError>(
                ConfigError::SeedOutOfRange,
            ),
            seed < population@.len() ==> r is Ok && r->Ok_0@ == seeded_from(
                views(population@),
                seed as int,
            ),
    {
        if population.len() == 0 {
            Err(ConfigError::EmptyPopulation)
        } else if seed >= population.len() {
            Err(ConfigError::SeedOutOfRange)
        } else {
            let global_best = population[seed];
            Ok(Swarm { population, global_best })
        }
    }

    /// A swarm of `population` whose first global best is a copy of a product
    /// drawn from it.
    pub fn seeded(population: Vec<Product>, rng: &mut StdRng) -> (r: Result<Swarm, ConfigError>)
        ensures
            population@.len() == 0 ==> r == Err::<Swarm, ConfigError>(
                ConfigError::EmptyPopulation,
            ),
            population@.len() > 0 ==> r is Ok && exists|seed: int|
                0 <= seed < population@.len() && r->Ok_0@ == #[trigger] seeded_from(
                    views(population@),
                    seed,
                ),
    {
        match draw_index(rng, population.len()) {
            None => Err(ConfigError::EmptyPopulation),
            Some(seed) => Swarm::new(population, seed),
        }
    }

    /// The products, in scan order.
    pub fn population(&self) -> (products: &Vec<Product>)
        ensures
            views(products@) == self@.population,
    {
        &self.population
    }

    /// The best product seen so far.
    pub fn global_best(&self) -> (best: Product)
        ensures
            best@ == self@.global_best,
    {
        self.global_best
    }

    /// Lets every product record its personal best and names the candidate
    /// for the global best.
    pub fn scan(&mut self) -> (found: Option<usize>)
        ensures
            final(self)@ == scanned(old(self)@),
            match found {
                Some(i) => candidate(final(self)@) == Some(i as int),
                None => candidate(final(self)@) is None,
            },
    {
        proof {
            reveal(scanned);
        }
        let ghost target = scanned(self@).population;
        let bar = self.global_best.p_best();
        let n = self.population.len();
        let mut found: Option<usize> = None;
        let mut i: usize = 0;
        while i < n
            invariant
                i <= n,
                n == self.population@.len(),
                n == target.len(),
                self.global_best == old(self).global_best,
                bar@ == self.global_best@.personal_best,
                forall|j: int| 0 <= j < i ==> (#[trigger] self.population@[j])@ == target[j],
                forall|j: int|
                    i <= j < n ==> (#[trigger] self.population@[j])@ == old(self).population@[j]@,
                target == scanned(old(self)@).population,
                match found {
                    Some(c) => last_above(target, bar@, i as nat) == Some(c as int),
                    None => last_above(target, bar@, i as nat) is None,
                },
            decreases n - i,
        {
            proof {
                reveal(scanned);
            }
            let mut product = self.population[i];
            product.record_personal_best();
            if product.p_best().raw > bar.raw {
                found = Some(i);
            }
            self.population.set(i, product);
            i = i + 1;
        }
        assert(self@.population =~= target);
        found
    }

    /// Starts a generation: scans the population, then either finds the run
    /// converged and leaves the global best as it is, or lets the candidate,
    /// if there is one, become the global best.
    pub fn begin_generation(&mut self, precision: Fixed) -> (stop: bool)
        ensures
            stop == stops(old(self)@, precision@),
            final(self)@ == if stop {
                scanned(old(self)@)
            } else {
                adopted(scanned(old(self)@))
            },
            final(self)@.global_best == old(self)@.global_best
                || final(self)@.global_best.personal_best > old(self)@.global_best.personal_best,
    {
        proof {
            lemma_scanned_shape(self@);
        }
        match self.scan() {
            None => false,
            Some(i) => {
                proof {
                    lemma_last_above_bounds(
                        self@.population,
                        self@.global_best.personal_best,
                        self@.population.len(),
                    );
                }
                let challenger = self.population[i];
                if self.global_best.p_best().distance(challenger.p_best()).raw <= precision.raw {
                    true
                } else {
                    self.global_best = challenger;
                    false
                }
            },
        }
    }

    /// Moves every product: the product at position `i` updates its velocity
    /// with the pair `draws[i]`, then its position. Nothing moves unless the
    /// parameters are valid and there is exactly one pair for each product.
    pub fn advance_with(&mut self, cfg: &SwarmConfig, draws: &Vec<(Fixed, Fixed)>) -> (r: Result<
        (),
        ConfigError,
    >)
        ensures
            cfg.fault() matches Some(e) ==> r == Err::<(), ConfigError>(e) && final(self)@ == old(
                self,
            )@,
            cfg.valid() && draws@.len() != old(self)@.population.len() ==> r == Err::<
                (),
                ConfigError,
            >(ConfigError::DrawsMismatch) && final(self)@ == old(self)@,
            cfg.valid() && draws@.len() == old(self)@.population.len() ==> r is Ok && final(self)@
                == advanced(old(self)@, *cfg, draws@),
    {
        if let Err(e) = cfg.validate() {
            return Err(e);
        }
        if draws.len() != self.population.len() {
            Err(ConfigError::DrawsMismatch)
        } else {
            self.move_all(cfg, draws);
            Ok(())
        }
    }

    /// Moves every product with a pair of draws from `[0, 1)` taken from
    /// `rng`, product by product in scan order. The parameters have to be
    /// valid: [`SwarmConfig::validate`] tells.
    pub fn advance(&mut self, cfg: &SwarmConfig, rng: &mut StdRng)
        requires
            cfg.valid(),
        ensures
            exists|draws: Seq<(Fixed, Fixed)>|
                unit_row(draws, old(self)@.population.len()) && final(self)@ == #[trigger] advanced(
                    old(self)@,
                    *cfg,
                    draws,
                ),
    {
        let draws = draw_unit_pairs(rng, self.population.len());
        self.move_all(cfg, &draws);
        proof {
            assert(unit_row(draws@, old(self)@.population.len()));
        }
    }

    fn move_all(&mut self, cfg: &SwarmConfig, draws: &Vec<(Fixed, Fixed)>)
        requires
            draws@.len() == old(self)@.population.len(),
        ensures
            final(self)@ == advanced(old(self)@, *cfg, draws@),
    {
        proof {
            reveal(advanced);
        }
        let ghost target = advanced(self@, *cfg, draws@).population;
        let n = self.population.len();
        let mut i: usize = 0;
        while i < n
            invariant
                i <= n,
                n == self.population@.len(),
                n == draws@.len(),
                n == target.len(),
                self.global_best == old(self).global_best,
                forall|j: int| 0 <= j < i ==> (#[trigger] self.population@[j])@ == target[j],
                forall|j: int|
                    i <= j < n ==> (#[trigger] self.population@[j])@ == old(self).population@[j]@,
                target == advanced(old(self)@, *cfg, draws@).population,
            decreases n - i,
        {
            proof {
                reveal(advanced);
            }
            let mut product = self.population[i];
            let draw = draws[i];
            product.update_velocity_with(
                &self.global_best,
                cfg.c1,
                cfg.c2,
                cfg.w,
                cfg.vmax,
                draw.0,
                draw.1,
            );
            product.update_position();
            self.population.set(i, product);
            i = i + 1;
        }
        assert(self@.population =~= target);
    }

    /// Runs the search with the draws of `tape`: generation `k` moves the
    /// products with the pairs of `tape[k]`. The run is refused, and nothing
    /// changes, unless the parameters are valid and the tape has a row with
    /// one pair for each product for every generation up to the cap.
    pub fn run_with(&mut self, cfg: &SwarmConfig, tape: &Vec<Vec<(Fixed, Fixed)>>) -> (r: Result<
        Outcome,
        ConfigError,
    >)
        ensures
            cfg.fault() matches Some(e) ==> r == Err::<Outcome, ConfigError>(e) && final(self)@
                == old(self)@,
            cfg.valid() && !tape_fits(
                tape@,
                cfg.generations as nat,
                old(self)@.population.len(),
            ) ==> r == Err::<Outcome, ConfigError>(ConfigError::DrawsMismatch) && final(self)@
                == old(self)@,
            cfg.valid() && tape_fits(tape@, cfg.generations as nat, old(self)@.population.len())
                ==> r is Ok && run_ends(
                old(self)@,
                *cfg,
                rows_of(tape@),
                r->Ok_0.generations as nat,
                r->Ok_0.converged,
                final(self)@,
            ) && r->Ok_0.global_best@ == final(self)@.global_best,
            final(self)@.global_best.personal_best >= old(self)@.global_best.personal_best,
    {
        if let Err(e) = cfg.validate() {
            return Err(e);
        }
        if !fits(tape, cfg.generations, self.population.len()) {
            return Err(ConfigError::DrawsMismatch);
        }
        let ghost start = self@;
        let ghost rows = rows_of(tape@);
        let mut k: usize = 0;
        let mut converged = false;
        while k < cfg.generations && !converged
            invariant
                k <= cfg.generations,
                rows == rows_of(tape@),
                tape_fits(tape@, cfg.generations as nat, start.population.len()),
                runs_through(start, *cfg, rows, k as nat),
                converged ==> k < cfg.generations && stops(
                    after(start, *cfg, rows, k as nat),
                    cfg.precision@,
                ),
                self@ == end_state(start, *cfg, rows, k as nat, converged),
            decreases cfg.generations - k, if converged { 0int } else { 1int },
        {
            proof {
                lemma_after_keeps_size(start, *cfg, rows, k as nat);
                lemma_scanned_shape(self@);
            }
            if self.begin_generation(cfg.precision) {
                converged = true;
            } else {
                self.move_all(cfg, &tape[k]);
                k = k + 1;
            }
        }
        proof {
            global_best_never_falls(start, *cfg, rows, 0, k as nat);
            lemma_scanned_shape(after(start, *cfg, rows, k as nat));
        }
        Ok(Outcome { global_best: self.global_best, generations: k, converged })
    }

    /// Runs the search with draws from `rng`: each generation that moves the
    /// products takes one pair from `[0, 1)` for each of them, in scan order.
    /// A generation that ends the run takes none. The parameters have to be
    /// valid: [`SwarmConfig::validate`] tells, and [`optimize`] asks it first.
    ///
    /// The personal best of the global best never falls over a run.
    pub fn run(&mut self, cfg: &SwarmConfig, rng: &mut StdRng) -> (out: Outcome)
        requires
            cfg.valid(),
        ensures
            exists|tape: Seq<Seq<(Fixed, Fixed)>>|
                unit_tape(tape, out.generations as nat, old(self)@.population.len())
                    && #[trigger] run_ends(
                    old(self)@,
                    *cfg,
                    tape,
                    out.generations as nat,
                    out.converged,
                    final(self)@,
                ),
            out.global_best@ == final(self)@.global_best,
            final(self)@.global_best.personal_best >= old(self)@.global_best.personal_best,
    {
        let ghost start = self@;
        let ghost mut tape: Seq<Seq<(Fixed, Fixed)>> = Seq::empty();
        let n = self.population.len();
        let mut k: usize = 0;
        let mut converged = false;
        while k < cfg.generations && !converged
            invariant
                cfg.valid(),
                k <= cfg.generations,
                n == start.population.len(),
                unit_tape(tape, k as nat, n as nat),
                runs_through(start, *cfg, tape, k as nat),
                converged ==> k < cfg.generations && stops(
                    after(start, *cfg, tape, k as nat),
                    cfg.precision@,
                ),
                self@ == end_state(start, *cfg, tape, k as nat, converged),
            decreases cfg.generations - k, if converged { 0int } else { 1int },
        {
            proof {
                lemma_after_keeps_size(start, *cfg, tape, k as nat);
                lemma_scanned_shape(self@);
            }
            if self.begin_generation(cfg.precision) {
                converged = true;
            } else {
                let ghost before = self@;
                self.advance(cfg, rng);
                proof {
                    let draws = choose|draws: Seq<(Fixed, Fixed)>|
                        unit_row(draws, before.population.len()) && self@ == #[trigger] advanced(
                            before,
                            *cfg,
                            draws,
                        );
                    lemma_tape_grows(start, *cfg, tape, draws, k as nat, n as nat);
                    tape = tape.push(draws);
                }
                k = k + 1;
            }
        }
        proof {
            global_best_never_falls(start, *cfg, tape, 0, k as nat);
            lemma_scanned_shape(after(start, *cfg, tape, k as nat));
        }
        let out = Outcome { global_best: self.global_best, generations: k, converged };
        proof {
            assert(run_ends(
                old(self)@,
                *cfg,
                tape,
                out.generations as nat,
                out.converged,
                self@,
            ));
        }
        out
    }
}

/// The personal best of the global best never falls from one generation to a
/// later one.
pub proof fn global_best_never_falls(
    start: SwarmView,
    cfg: SwarmConfig,
    tape: Seq<Seq<(Fixed, Fixed)>>,
    j: nat,
    k: nat,
)
    requires
        j <= k,
    ensures
        after(start, cfg, tape, j).global_best.personal_best <= after(
            start,
            cfg,
            tape,
            k,
        ).global_best.personal_best,
    decreases k,
{
    if j < k {
        global_best_never_falls(start, cfg, tape, j, (k - 1) as nat);
        replacement_is_strictly_better(after(start, cfg, tape, (k - 1) as nat), cfg, tape[k - 1]);
    }
}

/// With a cap that is not negative, every product comes out of a move with
/// a velocity whose components all lie in `[-vmax, vmax]`.
pub proof fn advanced_keeps_cap(
    s: SwarmView,
    cfg: SwarmConfig,
    draws: Seq<(Fixed, Fixed)>,
    i: int,
)
    requires
        cfg.vmax@ >= 0,
        0 <= i < s.population.len(),
    ensures
        speed_within(advanced(s, cfg, draws).population[i].velocity.0, cfg.vmax@),
        speed_within(advanced(s, cfg, draws).population[i].velocity.1, cfg.vmax@),
        speed_within(advanced(s, cfg, draws).population[i].velocity.2, cfg.vmax@),
{
    reveal(advanced);
    velocity_step_keeps_cap(
        s.population[i],
        s.global_best,
        cfg.c1@,
        cfg.c2@,
        cfg.w@,
        cfg.vmax@,
        draws[i].0@,
        draws[i].1@,
    );
}

/// No product's personal best falls over a generation.
pub proof fn personal_bests_never_fall(
    s: SwarmView,
    cfg: SwarmConfig,
    draws: Seq<(Fixed, Fixed)>,
    i: int,
)
    requires
        0 <= i < s.population.len(),
    ensures
        generation(s, cfg, draws).population[i].personal_best >= s.population[i].personal_best,
{
    reveal(scanned);
    reveal(advanced);
}

/// A product whose restocking price and market demand are positive keeps
/// them positive over a generation.
pub proof fn generation_keeps_positive(
    s: SwarmView,
    cfg: SwarmConfig,
    draws: Seq<(Fixed, Fixed)>,
    i: int,
)
    requires
        0 <= i < s.population.len(),
        s.population[i].position.0 > 0,
        s.population[i].position.2 > 0,
    ensures
        generation(s, cfg, draws).population[i].position.0 > 0,
        generation(s, cfg, draws).population[i].position.2 > 0,
{
    reveal(scanned);
    reveal(advanced);
    let ready = adopted(scanned(s));
    position_step_keeps_positive(
        velocity_step(
            ready.population[i],
            ready.global_best,
            cfg.c1@,
            cfg.c2@,
            cfg.w@,
            cfg.vmax@,
            draws[i].0@,
            draws[i].1@,
        ),
    );
}

/// A generation replaces the global best only by a product whose personal
/// best is strictly higher: a product that has not done better than the
/// global best never takes its place.
pub proof fn replacement_is_strictly_better(
    s: SwarmView,
    cfg: SwarmConfig,
    draws: Seq<(Fixed, Fixed)>,
)
    ensures
        generation(s, cfg, draws).global_best == s.global_best || generation(
            s,
            cfg,
            draws,
        ).global_best.personal_best > s.global_best.personal_best,
{
    let before = scanned(s);
    lemma_scanned_shape(s);
    lemma_advanced_shape(adopted(before), cfg, draws);
    lemma_last_above_bounds(
        before.population,
        before.global_best.personal_best,
        before.population.len(),
    );
}

/// The draws decide the run: two runs from the same swarm with the same
/// parameters and the same draws take the same number of generations, end
/// the same way and leave the same swarm.
pub proof fn same_draws_same_run(
    start: SwarmView,
    cfg: SwarmConfig,
    tape: Seq<Seq<(Fixed, Fixed)>>,
    generations: nat,
    converged: bool,
    other_generations: nat,
    other_converged: bool,
)
    requires
        run_takes(start, cfg, tape, generations, converged),
        run_takes(start, cfg, tape, other_generations, other_converged),
    ensures
        generations == other_generations,
        converged == other_converged,
        end_state(start, cfg, tape, generations, converged) == end_state(
            start,
            cfg,
            tape,
            other_generations,
            other_converged,
        ),
{
    if generations < other_generations {
        lemma_runs_through_earlier(start, cfg, tape, generations, other_generations);
    } else if other_generations < generations {
        lemma_runs_through_earlier(start, cfg, tape, other_generations, generations);
    }
}

/// In a swarm whose products are all alike, and whose global best is one of
/// them, the first generation ends the run exactly if the fitness of the
/// products is above their personal best by no more than the tolerance.
pub proof fn uniform_swarm_converges_at_once(
    start: SwarmView,
    cfg: SwarmConfig,
    tape: Seq<Seq<(Fixed, Fixed)>>,
    generations: nat,
    converged: bool,
)
    requires
        start.population.len() > 0,
        forall|i: int|
            0 <= i < start.population.len() ==> #[trigger] start.population[i]
                == start.global_best,
        cfg.generations >= 1,
        run_takes(start, cfg, tape, generations, converged),
    ensures
        generations == 0 && converged <==> fitness_of(start.global_best)
            > start.global_best.personal_best && raw_distance(
            start.global_best.personal_best,
            fitness_of(start.global_best),
        ) <= cfg.precision@,
{
    reveal(scanned);
    let s = scanned(start);
    let last = s.population.len() - 1;
    lemma_last_above_bounds(s.population, s.global_best.personal_best, s.population.len());
    assert(s.population[last] == recorded(start.population[last]));
    if generations > 0 {
        lemma_runs_through_earlier(start, cfg, tape, 0, generations);
    }
}

/// Checks the parameters and the population, takes a product drawn from the
/// population as the first global best, and runs the search with draws from
/// `rng`.
pub fn optimize(population: Vec<Product>, cfg: &SwarmConfig, rng: &mut StdRng) -> (r: Result<
    Outcome,
    ConfigError,
>)
    ensures
        cfg.fault() matches Some(e) ==> r == Err::<Outcome, ConfigError>(e),
        cfg.valid() && population@.len() == 0 ==> r == Err::<Outcome, ConfigError>(
            ConfigError::EmptyPopulation,
        ),
        cfg.valid() && population@.len() > 0 ==> r is Ok && exists|
            seed: int,
            tape: Seq<Seq<(Fixed, Fixed)>>,
        | #[trigger] found_by(views(population@), *cfg, seed, tape, r->Ok_0),
{
    if let Err(e) = cfg.validate() {
        return Err(e);
    }
    let mut swarm = match Swarm::seeded(population, rng) {
        Err(e) => {
            return Err(e);
        },
        Ok(swarm) => swarm,
    };
    let ghost start = swarm@;
    let out = swarm.run(cfg, rng);
    let r: Result<Outcome, ConfigError> = Ok(out);
    proof {
        lemma_found(views(population@), *cfg, start, swarm@, r->Ok_0);
    }
    r
}

} // verus!
