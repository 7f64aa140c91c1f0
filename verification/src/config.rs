//! Run parameters of the search and the ways a run can be refused.

use vstd::prelude::*;

use crate::fixed::Fixed;

verus! {

/// Why a run was refused before its first generation.
#[derive(Clone, Copy, Debug, PartialEq, Eq)]
pub enum ConfigError {
    /// There is no product to move.
    EmptyPopulation,
    /// The product named as the first global best is not in the population.
    SeedOutOfRange,
    /// The coefficient of the pull towards a product's own best is negative.
    NegativeCognitive,
    /// The coefficient of the pull towards the swarm's best is negative.
    NegativeSocial,
    /// The inertia weight is negative.
    NegativeInertia,
    /// The velocity cap is negative.
    NegativeVelocityCap,
    /// The convergence tolerance is negative.
    NegativePrecision,
    /// The draws handed in do not give every product of every generation its
    /// pair.
    DrawsMismatch,
}

/// The parameters of a run.
#[derive(Clone, Copy, Debug, PartialEq, Eq)]
pub struct SwarmConfig {
    /// Most generations a run may take.
    pub generations: usize,
    /// Coefficient of the pull towards a product's own best.
    pub c1: Fixed,
    /// Coefficient of the pull towards the swarm's best.
    pub c2: Fixed,
    /// Inertia weight.
    pub w: Fixed,
    /// Velocity cap.
    pub vmax: Fixed,
    /// A run ends as soon as a new best improves on the global best by no
    /// more than this.
    pub precision: Fixed,
}

impl SwarmConfig {
    /// The first thing wrong with the parameters, if anything is.
    pub open spec fn fault(&self) -> Option<ConfigError> {
        if self.c1@ < 0 {
            Some(ConfigError::NegativeCognitive)
        } else if self.c2@ < 0 {
            Some(ConfigError::NegativeSocial)
        } else if self.w@ < 0 {
            Some(ConfigError::NegativeInertia)
        } else if self.vmax@ < 0 {
            Some(ConfigError::NegativeVelocityCap)
        } else if self.precision@ < 0 {
            Some(ConfigError::NegativePrecision)
        } else {
            None
        }
    }

    /// Whether a run may start with these parameters: none is negative.
    pub open spec fn valid(&self) -> bool {
        &&& self.c1@ >= 0
        &&& self.c2@ >= 0
        &&& self.w@ >= 0
        &&& self.vmax@ >= 0
        &&& self.precision@ >= 0
    }

    /// Accepts the parameters, or names the first that is negative.
    pub fn validate(&self) -> (r: Result<(), ConfigError>)
        ensures
            r is Ok <==> self.valid(),
            r == match self.fault() {
                Some(e) => Err::<(), ConfigError>(e),
                None => Ok(()),
            },
    {
        if self.c1.raw < 0 {
            Err(ConfigError::NegativeCognitive)
        } else if self.c2.raw < 0 {
            Err(ConfigError::NegativeSocial)
        } else if self.w.raw < 0 {
            Err(ConfigError::NegativeInertia)
        } else if self.vmax.raw < 0 {
            Err(ConfigError::NegativeVelocityCap)
        } else if self.precision.raw < 0 {
            Err(ConfigError::NegativePrecision)
        } else {
            Ok(())
        }
    }
}

impl Default for SwarmConfig {
    /// Thirty generations, both coefficients 2, inertia 0.6, velocity cap 5,
    /// tolerance 0.01.
    fn default() -> (cfg: SwarmConfig)
        ensures
            cfg.generations == 30,
            cfg.c1@ == 2_000_000,
            cfg.c2@ == 2_000_000,
            cfg.w@ == 600_000,
            cfg.vmax@ == 5_000_000,
            cfg.precision@ == 10_000,
            cfg.valid(),
    {
        SwarmConfig {
            generations: 30,
            c1: Fixed::from_int(2),
            c2: Fixed::from_int(2),
            w: Fixed::from_raw(600_000),
            vmax: Fixed::from_int(5),
            precision: Fixed::from_raw(10_000),
        }
    }
}

} // verus!
