//! One candidate solution of the search: a product with its position,
//! velocity, personal best and fitness weights.

use rand::rngs::StdRng;
use vstd::prelude::*;

use crate::fixed::{
    raw_difference, raw_of_whole, raw_product, raw_sum, whole_part, Fixed, SCALE,
};
use crate::random::{direction_for, direction_of, draw_decimal, draw_side, draw_unit};

verus! {

/// Raw value of the first fitness weight of a new product: 1.2.
pub const DEFAULT_W1: i64 = 1_200_000;

/// Raw value of the second fitness weight of a new product: 0.4.
pub const DEFAULT_W2: i64 = 400_000;

/// What a [`Product`] stands for: every decimal by its raw amount, every
/// velocity component by its whole number.
pub struct ProductView {
    pub personal_best: int,
    /// Restocking price, selling price, market demand.
    pub position: (int, int, int),
    pub velocity: (int, int, int),
    pub w1: int,
    pub w2: int,
}

/// Fitness of a product: `((selling - restocking) * w1) * w2 * demand`.
pub open spec fn fitness_of(p: ProductView) -> int {
    raw_product(
        raw_product(raw_product(raw_difference(p.position.1, p.position.0), p.w1), p.w2),
        p.position.2,
    )
}

/// The product after its personal best has been raised to its fitness, where
/// the fitness is strictly greater.
pub open spec fn recorded(p: ProductView) -> ProductView {
    if fitness_of(p) > p.personal_best {
        ProductView { personal_best: fitness_of(p), ..p }
    } else {
        p
    }
}

/// One attraction term of the velocity rule: `coefficient * draw * gap`.
pub open spec fn pull(coefficient: int, draw: int, gap: int) -> int {
    raw_product(raw_product(coefficient, draw), gap)
}

/// `x` limited to `[-vmax, vmax]`: first from above, then from below.
pub open spec fn capped(x: int, vmax: int) -> int {
    let bottom = raw_difference(0, vmax);
    let limited = if x < vmax {
        x
    } else {
        vmax
    };
    if limited > bottom {
        limited
    } else {
        bottom
    }
}

/// New speed along one axis: inertia plus the pull towards the product's own
/// best and the pull towards the swarm's best, capped and cut to a whole
/// number.
pub open spec fn next_speed(
    w: int,
    speed: int,
    c1: int,
    r1: int,
    own_gap: int,
    c2: int,
    r2: int,
    swarm_gap: int,
    vmax: int,
) -> int {
    whole_part(
        capped(
            raw_sum(
                raw_sum(raw_product(w, raw_of_whole(speed)), pull(c1, r1, own_gap)),
                pull(c2, r2, swarm_gap),
            ),
            vmax,
        ),
    )
}

/// The product after one velocity update with the draws `r1` and `r2`.
///
/// The first axis is driven by fitness: its gaps are the distances of the
/// two personal bests from the product's present fitness. The other two are
/// driven by position: the gap to the swarm's best is the distance on that
/// axis, and the product's gap to itself is zero.
pub open spec fn velocity_step(
    p: ProductView,
    g: ProductView,
    c1: int,
    c2: int,
    w: int,
    vmax: int,
    r1: int,
    r2: int,
) -> ProductView {
    let f = fitness_of(p);
    ProductView {
        velocity: (
            next_speed(
                w,
                p.velocity.0,
                c1,
                r1,
                raw_difference(p.personal_best, f),
                c2,
                r2,
                raw_difference(g.personal_best, f),
                vmax,
            ),
            next_speed(
                w,
                p.velocity.1,
                c1,
                r1,
                0,
                c2,
                r2,
                raw_difference(g.position.1, p.position.1),
                vmax,
            ),
            next_speed(
                w,
                p.velocity.2,
                c1,
                r1,
                0,
                c2,
                r2,
                raw_difference(g.position.2, p.position.2),
                vmax,
            ),
        ),
        ..p
    }
}

/// Whether the restocking price may move by the present velocity.
pub open spec fn first_axis_moves(p: ProductView) -> bool {
    raw_sum(p.position.0, raw_of_whole(p.velocity.0)) > 0
}

/// The restocking price after the first axis has taken its step, if it may.
pub open spec fn restocking_after(p: ProductView) -> int {
    if first_axis_moves(p) {
        raw_sum(p.position.0, raw_of_whole(p.velocity.0))
    } else {
        p.position.0
    }
}

/// Whether selling price and market demand may move by the present velocity:
/// the new selling price has to stay above the restocking price as it is
/// after its own step, and the new demand has to stay positive.
pub open spec fn other_axes_move(p: ProductView) -> bool {
    raw_sum(p.position.1, raw_of_whole(p.velocity.1)) > restocking_after(p) && raw_sum(
        p.position.2,
        raw_of_whole(p.velocity.2),
    ) > 0
}

/// The product after one position update.
pub open spec fn position_step(p: ProductView) -> ProductView {
    ProductView {
        position: (
            restocking_after(p),
            if other_axes_move(p) {
                raw_sum(p.position.1, raw_of_whole(p.velocity.1))
            } else {
                p.position.1
            },
            if other_axes_move(p) {
                raw_sum(p.position.2, raw_of_whole(p.velocity.2))
            } else {
                p.position.2
            },
        ),
        ..p
    }
}

/// Whether a speed, taken as a decimal, lies in `[-vmax, vmax]`.
pub open spec fn speed_within(speed: int, vmax: int) -> bool {
    -vmax <= raw_of_whole(speed) <= vmax
}

/// With a cap that is not negative, every component of the velocity lies in
/// `[-vmax, vmax]` after a velocity update, whatever the draws.
pub proof fn velocity_step_keeps_cap(
    p: ProductView,
    g: ProductView,
    c1: int,
    c2: int,
    w: int,
    vmax: int,
    r1: int,
    r2: int,
)
    requires
        vmax >= 0,
    ensures
        speed_within(velocity_step(p, g, c1, c2, w, vmax, r1, r2).velocity.0, vmax),
        speed_within(velocity_step(p, g, c1, c2, w, vmax, r1, r2).velocity.1, vmax),
        speed_within(velocity_step(p, g, c1, c2, w, vmax, r1, r2).velocity.2, vmax),
{
}

/// A position update keeps a positive restocking price positive and a
/// positive market demand positive.
pub proof fn position_step_keeps_positive(p: ProductView)
    ensures
        p.position.0 > 0 ==> position_step(p).position.0 > 0,
        p.position.2 > 0 ==> position_step(p).position.2 > 0,
{
}

/// Whether a product is as the generator makes it: restocking price in
/// `[20, 60)`, selling price above the restocking price and below 100,
/// market demand in `[1, 10)`, one step forwards or backwards along each
/// axis, the default weights and no fitness recorded yet.
pub open spec fn generated(p: ProductView) -> bool {
    &&& p.personal_best == i64::MIN
    &&& raw_of_whole(20) <= p.position.0 < raw_of_whole(60)
    &&& p.position.0 < p.position.1 < raw_of_whole(100)
    &&& raw_of_whole(1) <= p.position.2 < raw_of_whole(10)
    &&& (p.velocity.0 == 1 || p.velocity.0 == -1)
    &&& (p.velocity.1 == 1 || p.velocity.1 == -1)
    &&& (p.velocity.2 == 1 || p.velocity.2 == -1)
    &&& p.w1 == DEFAULT_W1
    &&& p.w2 == DEFAULT_W2
}

/// What is drawn for one product: its three coordinates, and for each axis
/// a number from `0..2` that stands for its direction.
#[derive(Clone, Copy, Debug, PartialEq, Eq)]
pub struct ProductDraws {
    pub restocking_price: Fixed,
    pub selling_price: Fixed,
    pub market_demand: Fixed,
    pub directions: (u64, u64, u64),
}

/// Whether draws lie where the generator takes them from: restocking price
/// in `[20, 60)`, selling price above it and below 100, market demand in
/// `[1, 10)`, each direction draw in `0..2`.
pub open spec fn in_range(d: ProductDraws) -> bool {
    &&& raw_of_whole(20) <= d.restocking_price@ < raw_of_whole(60)
    &&& d.restocking_price@ < d.selling_price@ < raw_of_whole(100)
    &&& raw_of_whole(1) <= d.market_demand@ < raw_of_whole(10)
    &&& d.directions.0 < 2
    &&& d.directions.1 < 2
    &&& d.directions.2 < 2
}

/// The new product that draws stand for.
pub open spec fn product_of(d: ProductDraws) -> ProductView {
    ProductView {
        personal_best: i64::MIN as int,
        position: (d.restocking_price@, d.selling_price@, d.market_demand@),
        velocity: (
            direction_of(d.directions.0 as int),
            direction_of(d.directions.1 as int),
            direction_of(d.directions.2 as int),
        ),
        w1: DEFAULT_W1 as int,
        w2: DEFAULT_W2 as int,
    }
}

/// Whether `products` are the products that `draws` stand for, one by one.
pub open spec fn drawn_from(products: Seq<Product>, draws: Seq<ProductDraws>) -> bool {
    &&& products.len() == draws.len()
    &&& forall|i: int| 0 <= i < products.len() ==> (#[trigger] products[i])@ == product_of(draws[i])
}

/// Whether every one of `draws` lies where the generator takes it from.
pub open spec fn all_in_range(draws: Seq<ProductDraws>) -> bool {
    forall|i: int| 0 <= i < draws.len() ==> in_range(#[trigger] draws[i])
}

/// Whether the rows of `grid` are the products that the rows of `draws`
/// stand for.
pub open spec fn grid_drawn_from(grid: Seq<Vec<Product>>, draws: Seq<Seq<ProductDraws>>) -> bool {
    &&& grid.len() == draws.len()
    &&& forall|r: int| 0 <= r < grid.len() ==> drawn_from((#[trigger] grid[r])@, draws[r])
}

/// Whether `draws` holds `rows` rows of `cols` draws each, every one of them
/// where the generator takes it from.
pub open spec fn grid_in_range(draws: Seq<Seq<ProductDraws>>, rows: nat, cols: nat) -> bool {
    &&& draws.len() == rows
    &&& forall|r: int|
        0 <= r < draws.len() ==> (#[trigger] draws[r]).len() == cols && all_in_range(draws[r])
}

/// Draws from where the generator takes them stand for a product as the
/// generator makes it.
pub proof fn drawn_product_is_generated(d: ProductDraws)
    requires
        in_range(d),
    ensures
        generated(product_of(d)),
{
}

/// The draws decide the population: products made from the same draws are
/// the same, one by one.
pub proof fn same_draws_same_products(
    products: Seq<Product>,
    others: Seq<Product>,
    draws: Seq<ProductDraws>,
)
    requires
        drawn_from(products, draws),
        drawn_from(others, draws),
    ensures
        products.len() == others.len(),
        forall|i: int| 0 <= i < products.len() ==> (#[trigger] products[i])@ == others[i]@,
{
}

/// A product: a point of the decision space that moves through it.
#[derive(Clone, Copy, Debug, PartialEq, Eq)]
pub struct Product {
    /// Highest fitness the product has attained.
    p_best: Fixed,
    /// Restocking price, selling price, market demand.
    x: (Fixed, Fixed, Fixed),
    /// Velocity along the three axes.
    v: (i32, i32, i32),
    w1: Fixed,
    w2: Fixed,
}

impl View for Product {
    type V = ProductView;

    closed spec fn view(&self) -> ProductView {
        ProductView {
            personal_best: self.p_best@,
            position: (self.x.0@, self.x.1@, self.x.2@),
            velocity: (self.v.0 as int, self.v.1 as int, self.v.2 as int),
            w1: self.w1@,
            w2: self.w2@,
        }
    }
}

fn limit(x: Fixed, vmax: Fixed) -> (r: Fixed)
    ensures
        r@ == capped(x@, vmax@),
{
    let bottom = Fixed::zero().minus(vmax);
    let limited = if x.raw < vmax.raw {
        x
    } else {
        vmax
    };
    if limited.raw > bottom.raw {
        limited
    } else {
        bottom
    }
}

fn speed_along(
    w: Fixed,
    speed: i32,
    c1: Fixed,
    r1: Fixed,
    own_gap: Fixed,
    c2: Fixed,
    r2: Fixed,
    swarm_gap: Fixed,
    vmax: Fixed,
) -> (r: i32)
    ensures
        r == next_speed(w@, speed as int, c1@, r1@, own_gap@, c2@, r2@, swarm_gap@, vmax@),
        vmax@ >= 0 ==> speed_within(r as int, vmax@),
{
    let inertia = w.times(Fixed::from_int(speed));
    let own = c1.times(r1).times(own_gap);
    let swarm = c2.times(r2).times(swarm_gap);
    limit(inertia.plus(own).plus(swarm), vmax).whole()
}

impl Product {
    /// A product at position `x` with velocity `v`, the default weights, and
    /// the least decimal as its personal best, so that its first recorded
    /// fitness can only raise it.
    pub fn new(x: (Fixed, Fixed, Fixed), v: (i32, i32, i32)) -> (p: Product)
        ensures
            p@ == (ProductView {
                personal_best: i64::MIN as int,
                position: (x.0@, x.1@, x.2@),
                velocity: (v.0 as int, v.1 as int, v.2 as int),
                w1: DEFAULT_W1 as int,
                w2: DEFAULT_W2 as int,
            }),
    {
        Product {
            p_best: Fixed::lowest(),
            x,
            v,
            w1: Fixed::from_raw(DEFAULT_W1),
            w2: Fixed::from_raw(DEFAULT_W2),
        }
    }

    /// The restocking price: the first coordinate.
    pub fn restocking_price(&self) -> (r: Fixed)
        ensures
            r@ == self@.position.0,
    {
        self.x.0
    }

    /// The selling price: the second coordinate.
    pub fn selling_price(&self) -> (r: Fixed)
        ensures
            r@ == self@.position.1,
    {
        self.x.1
    }

    /// The market demand: the third coordinate.
    pub fn market_demand(&self) -> (r: Fixed)
        ensures
            r@ == self@.position.2,
    {
        self.x.2
    }

    /// The velocity along the three axes.
    pub fn velocity(&self) -> (v: (i32, i32, i32))
        ensures
            v.0 == self@.velocity.0,
            v.1 == self@.velocity.1,
            v.2 == self@.velocity.2,
    {
        self.v
    }

    /// The personal best: the highest fitness recorded so far.
    pub fn p_best(&self) -> (r: Fixed)
        ensures
            r@ == self@.personal_best,
    {
        self.p_best
    }

    /// Replaces the personal best, whatever it was.
    pub fn set_p_best(&mut self, new_bestp: Fixed)
        ensures
            final(self)@ == (ProductView { personal_best: new_bestp@, ..old(self)@ }),
    {
        self.p_best = new_bestp
    }

    /// Replaces the first fitness weight.
    pub fn set_w1(&mut self, w1: Fixed)
        ensures
            final(self)@ == (ProductView { w1: w1@, ..old(self)@ }),
    {
        self.w1 = w1;
    }

    /// Replaces the second fitness weight.
    pub fn set_w2(&mut self, w2: Fixed)
        ensures
            final(self)@ == (ProductView { w2: w2@, ..old(self)@ }),
    {
        self.w2 = w2;
    }

    /// The fitness of the product where it stands.
    pub fn calculate_fitness(&self) -> (f: Fixed)
        ensures
            f@ == fitness_of(self@),
    {
        self.selling_price().minus(self.restocking_price()).times(self.w1).times(self.w2).times(
            self.market_demand(),
        )
    }

    /// Raises the personal best to the present fitness where that is
    /// strictly greater. The personal best never falls.
    pub fn record_personal_best(&mut self)
        ensures
            final(self)@ == recorded(old(self)@),
            final(self)@.personal_best >= old(self)@.personal_best,
            final(self)@.personal_best >= fitness_of(old(self)@),
    {
        let fitness = self.calculate_fitness();
        if fitness.raw > self.p_best.raw {
            self.p_best = fitness;
        }
    }

    /// Updates the velocity with the draws `r1` and `r2`, which serve all
    /// three axes. With a cap that is not negative, every component of the
    /// new velocity lies within the cap.
    pub fn update_velocity_with(
        &mut self,
        g_best: &Product,
        c1: Fixed,
        c2: Fixed,
        w: Fixed,
        vmax: Fixed,
        r1: Fixed,
        r2: Fixed,
    )
        ensures
            final(self)@ == velocity_step(old(self)@, g_best@, c1@, c2@, w@, vmax@, r1@, r2@),
            vmax@ >= 0 ==> speed_within(final(self)@.velocity.0, vmax@) && speed_within(
                final(self)@.velocity.1,
                vmax@,
            ) && speed_within(final(self)@.velocity.2, vmax@),
    {
        let fitness = self.calculate_fitness();
        let still = Fixed::zero();
        let v0 = speed_along(
            w,
            self.v.0,
            c1,
            r1,
            self.p_best.minus(fitness),
            c2,
            r2,
            g_best.p_best.minus(fitness),
            vmax,
        );
        let v1 = speed_along(
            w,
            self.v.1,
            c1,
            r1,
            still,
            c2,
            r2,
            g_best.x.1.minus(self.x.1),
            vmax,
        );
        let v2 = speed_along(
            w,
            self.v.2,
            c1,
            r1,
            still,
            c2,
            r2,
            g_best.x.2.minus(self.x.2),
            vmax,
        );
        self.v = (v0, v1, v2);
    }

    /// Updates the velocity with two draws from `[0, 1)` taken from `rng`,
    /// the first for the pull towards the product's own best.
    pub fn update_velocity(
        &mut self,
        g_best: &Product,
        c1: Fixed,
        c2: Fixed,
        w: Fixed,
        vmax: Fixed,
        rng: &mut StdRng,
    )
        ensures
            exists|r1: int, r2: int|
                0 <= r1 < SCALE && 0 <= r2 < SCALE && final(self)@ == #[trigger] velocity_step(
                    old(self)@,
                    g_best@,
                    c1@,
                    c2@,
                    w@,
                    vmax@,
                    r1,
                    r2,
                ),
            vmax@ >= 0 ==> speed_within(final(self)@.velocity.0, vmax@) && speed_within(
                final(self)@.velocity.1,
                vmax@,
            ) && speed_within(final(self)@.velocity.2, vmax@),
    {
        let r1 = draw_unit(rng);
        let r2 = draw_unit(rng);
        self.update_velocity_with(g_best, c1, c2, w, vmax, r1, r2);
    }

    /// Takes the draws for one product from `rng`: restocking price, selling
    /// price and market demand, in this order, then one draw for the
    /// direction along each axis.
    pub fn draw(rng: &mut StdRng) -> (d: ProductDraws)
        ensures
            in_range(d),
    {
        let restocking_price = draw_decimal(rng, Fixed::from_int(20), Fixed::from_int(60));
        let above = Fixed::from_raw(restocking_price.raw + 1);
        let selling_price = draw_decimal(rng, above, Fixed::from_int(100));
        let market_demand = draw_decimal(rng, Fixed::from_int(1), Fixed::from_int(10));
        let d0 = draw_side(rng);
        let d1 = draw_side(rng);
        let d2 = draw_side(rng);
        ProductDraws { restocking_price, selling_price, market_demand, directions: (d0, d1, d2) }
    }

    /// The new product that `d` stands for.
    pub fn from_draws(d: ProductDraws) -> (p: Product)
        ensures
            p@ == product_of(d),
    {
        Product::new(
            (d.restocking_price, d.selling_price, d.market_demand),
            (
                direction_for(d.directions.0),
                direction_for(d.directions.1),
                direction_for(d.directions.2),
            ),
        )
    }

    /// The new products that `draws` stand for, one by one.
    pub fn products_from(draws: &Vec<ProductDraws>) -> (products: Vec<Product>)
        ensures
            drawn_from(products@, draws@),
    {
        let mut products: Vec<Product> = Vec::new();
        let mut i: usize = 0;
        while i < draws.len()
            invariant
                i <= draws@.len(),
                products@.len() == i,
                forall|j: int| 0 <= j < i ==> (#[trigger] products@[j])@ == product_of(draws@[j]),
            decreases draws@.len() - i,
        {
            products.push(Product::from_draws(draws[i]));
            i = i + 1;
        }
        products
    }

    /// A product drawn from `rng`: the product that its draws stand for.
    pub fn generate(rng: &mut StdRng) -> (p: Product)
        ensures
            exists|d: ProductDraws| in_range(d) && p@ == #[trigger] product_of(d),
            generated(p@),
    {
        let d = Product::draw(rng);
        let p = Product::from_draws(d);
        proof {
            assert(p@ == product_of(d));
        }
        p
    }

    fn draw_many(count: usize, rng: &mut StdRng) -> (draws: Vec<ProductDraws>)
        ensures
            draws@.len() == count,
            all_in_range(draws@),
    {
        let mut draws: Vec<ProductDraws> = Vec::new();
        let mut made: usize = 0;
        while made < count
            invariant
                made <= count,
                draws@.len() == made,
                all_in_range(draws@),
            decreases count - made,
        {
            let d = Product::draw(rng);
            draws.push(d);
            made = made + 1;
        }
        draws
    }

    /// `n` products drawn from `rng`, product by product; none where `n` is
    /// not positive.
    pub fn generate_products(n: i32, rng: &mut StdRng) -> (products: Vec<Product>)
        ensures
            products@.len() == if n > 0 {
                n as int
            } else {
                0
            },
            exists|draws: Seq<ProductDraws>|
                all_in_range(draws) && #[trigger] drawn_from(products@, draws),
            forall|i: int| 0 <= i < products@.len() ==> generated(#[trigger] products@[i]@),
    {
        let count: usize = if n > 0 {
            n as usize
        } else {
            0
        };
        let draws = Product::draw_many(count, rng);
        let products = Product::products_from(&draws);
        proof {
            assert(drawn_from(products@, draws@));
            assert forall|i: int| 0 <= i < products@.len() implies generated(
                #[trigger] products@[i]@,
            ) by {
                drawn_product_is_generated(draws@[i]);
            }
        }
        products
    }

    /// A grid of `rows` rows of `cols` products each, drawn from `rng` row by
    /// row. The search itself runs on a flat population: see
    /// [`flatten`](crate::swarm::flatten).
    pub fn generate_products_matrix(rows: usize, cols: usize, rng: &mut StdRng) -> (grid: Vec<
        Vec<Product>,
    >)
        ensures
            grid@.len() == rows,
            forall|r: int| 0 <= r < rows ==> (#[trigger] grid@[r])@.len() == cols,
            exists|draws: Seq<Seq<ProductDraws>>|
                grid_in_range(draws, rows as nat, cols as nat) && #[trigger] grid_drawn_from(
                    grid@,
                    draws,
                ),
            forall|r: int, c: int|
                0 <= r < rows && 0 <= c < cols ==> generated(#[trigger] grid@[r]@[c]@),
    {
        let mut grid: Vec<Vec<Product>> = Vec::new();
        let ghost mut drawn: Seq<Seq<ProductDraws>> = Seq::empty();
        let mut r: usize = 0;
        while r < rows
            invariant
                r <= rows,
                grid@.len() == r,
                forall|i: int| 0 <= i < r ==> (#[trigger] grid@[i])@.len() == cols,
                grid_in_range(drawn, r as nat, cols as nat),
                grid_drawn_from(grid@, drawn),
                forall|i: int, c: int|
                    0 <= i < r && 0 <= c < cols ==> generated(#[trigger] grid@[i]@[c]@),
            decreases rows - r,
        {
            let draws = Product::draw_many(cols, rng);
            let row = Product::products_from(&draws);
            proof {
                assert forall|c: int| 0 <= c < cols implies generated(#[trigger] row@[c]@) by {
                    drawn_product_is_generated(draws@[c]);
                }
                drawn = drawn.push(draws@);
            }
            grid.push(row);
            r = r + 1;
        }
        grid
    }

    /// Moves the product by its velocity where the move keeps it valid.
    ///
    /// The restocking price moves if it stays positive. Selling price and
    /// market demand move together or not at all: they move if the new
    /// selling price is above the restocking price as it now is and the new
    /// demand is positive. A move that is not allowed is dropped.
    pub fn update_position(&mut self)
        ensures
            final(self)@ == position_step(old(self)@),
            !first_axis_moves(old(self)@) ==> final(self)@.position.0 == old(self)@.position.0,
            !other_axes_move(old(self)@) ==> final(self)@.position.1 == old(self)@.position.1
                && final(self)@.position.2 == old(self)@.position.2,
    {
        let x0 = self.x.0.plus(Fixed::from_int(self.v.0));
        if x0.raw > 0 {
            self.x.0 = x0;
        }
        let x1 = self.x.1.plus(Fixed::from_int(self.v.1));
        let x2 = self.x.2.plus(Fixed::from_int(self.v.2));
        if x1.raw > self.x.0.raw && x2.raw > 0 {
            self.x.1 = x1;
            self.x.2 = x2;
        }
    }
}

} // verus!
