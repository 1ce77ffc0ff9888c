//! Generation and mutation of the index strategy's parameters.

use crate::decimal::{dec, sat_sub, Decimal, SCALE};
use crate::engines::generative::mutators::{draw_unit, is_unit, mutate_f64, mutate_usize, mutated_integer, mutated_real};
use crate::random::{random_between, random_chance};
use crate::strategies::rsi_strategy::RSIStrategyParams;
use vstd::prelude::*;

verus! {

/// Smallest period that is generated.
pub const RSI_PERIOD_MIN: usize = 7;

/// Largest period that is generated.
pub const RSI_PERIOD_MAX: usize = 28;

/// Smallest oversold level that is generated, as a raw amount.
pub const RSI_LEVEL_MIN: i64 = 10 * 100_000_000;

/// Largest oversold level that is generated, as a raw amount.
pub const RSI_LEVEL_MAX: i64 = 40 * 100_000_000;

/// Raw amount of one hundred, from which the overbought level mirrors the
/// oversold one.
pub const RSI_LEVEL_TOP: i64 = 100 * 100_000_000;

/// The draws that decide one mutation: for each parameter, none where it
/// stays, or the draw that moves it.
pub struct MutationDraws {
    pub period: Option<Decimal>,
    pub oversold_level: Option<Decimal>,
    pub overbought_level: Option<Decimal>,
}

impl MutationDraws {
    /// Whether every parameter has a draw.
    pub open spec fn complete(&self) -> bool {
        self.period is Some && self.oversold_level is Some && self.overbought_level is Some
    }

    /// Whether every draw lies from minus one up to, but not including, one.
    pub open spec fn valid(&self) -> bool {
        &&& self.period matches Some(unit) ==> is_unit(unit)
        &&& self.oversold_level matches Some(unit) ==> is_unit(unit)
        &&& self.overbought_level matches Some(unit) ==> is_unit(unit)
    }
}

impl RSIStrategyParams {
    /// The parameters for a period and an oversold level: the overbought
    /// level is one hundred less the oversold level.
    pub open spec fn mirrored(period: usize, oversold_level: Decimal) -> RSIStrategyParams {
        RSIStrategyParams {
            period,
            oversold_level,
            overbought_level: dec(sat_sub(RSI_LEVEL_TOP as int, oversold_level@)),
        }
    }

    /// The parameters after mutation by `draws` at the given strength: each
    /// parameter with a draw moves within its range, the period within its
    /// valid range, the oversold level within its valid range, and the
    /// overbought level within the mirror of that range.
    pub open spec fn mutated(self, draws: MutationDraws, strength: Decimal) -> RSIStrategyParams {
        RSIStrategyParams {
            period: match draws.period {
                Some(unit) => mutated_integer(
                    self.period as int,
                    RSI_PERIOD_MIN as int,
                    RSI_PERIOD_MAX as int,
                    strength@,
                    unit@,
                ) as usize,
                None => self.period,
            },
            oversold_level: match draws.oversold_level {
                Some(unit) => dec(
                    mutated_real(self.oversold_level@, RSI_LEVEL_MIN as int, RSI_LEVEL_MAX as int, strength@, unit@),
                ),
                None => self.oversold_level,
            },
            overbought_level: match draws.overbought_level {
                Some(unit) => dec(
                    mutated_real(
                        self.overbought_level@,
                        RSI_LEVEL_TOP - RSI_LEVEL_MAX,
                        RSI_LEVEL_TOP - RSI_LEVEL_MIN,
                        strength@,
                        unit@,
                    ),
                ),
                None => self.overbought_level,
            },
        }
    }

    /// The parameters for a period and an oversold level.
    pub fn with_levels(period: usize, oversold_level: Decimal) -> (res: Self)
        ensures
            res == RSIStrategyParams::mirrored(period, oversold_level),
    {
        RSIStrategyParams {
            period,
            oversold_level,
            overbought_level: Decimal::from_raw(RSI_LEVEL_TOP).minus(oversold_level),
        }
    }

    /// Parameters drawn from their valid ranges: the period and the
    /// oversold level each from its range, the overbought level mirroring
    /// the oversold one.
    pub fn random() -> (res: Self)
        ensures
            RSI_PERIOD_MIN <= res.period <= RSI_PERIOD_MAX,
            RSI_LEVEL_MIN <= res.oversold_level@ <= RSI_LEVEL_MAX,
            res == RSIStrategyParams::mirrored(res.period, res.oversold_level),
    {
        let period = random_between(RSI_PERIOD_MIN as i64, RSI_PERIOD_MAX as i64);
        let oversold_level = random_between(RSI_LEVEL_MIN, RSI_LEVEL_MAX);
        RSIStrategyParams::with_levels(period as usize, Decimal::from_raw(oversold_level))
    }

    /// Applies the draws of one mutation.
    pub fn apply_mutation(&mut self, draws: &MutationDraws, mutation_strength: Decimal)
        ensures
            *final(self) == old(self).mutated(*draws, mutation_strength),
    {
        match draws.period {
            Some(unit) => {
                self.period = mutate_usize(self.period, RSI_PERIOD_MIN, RSI_PERIOD_MAX, mutation_strength, unit);
            },
            None => {},
        }
        match draws.oversold_level {
            Some(unit) => {
                self.oversold_level = mutate_f64(
                    self.oversold_level,
                    Decimal::from_raw(RSI_LEVEL_MIN),
                    Decimal::from_raw(RSI_LEVEL_MAX),
                    mutation_strength,
                    unit,
                );
            },
            None => {},
        }
        match draws.overbought_level {
            Some(unit) => {
                self.overbought_level = mutate_f64(
                    self.overbought_level,
                    Decimal::from_raw(RSI_LEVEL_TOP - RSI_LEVEL_MAX),
                    Decimal::from_raw(RSI_LEVEL_TOP - RSI_LEVEL_MIN),
                    mutation_strength,
                    unit,
                );
            },
            None => {},
        }
    }

    /// Mutates each parameter with the chance `mutation_rate`, a share from
    /// zero to one, each by a draw of its own. Whatever is drawn, the outcome
    /// is the mutation by some valid draws: by none at a rate of zero, and
    /// by one for every parameter at a rate of one.
    pub fn mutate(&mut self, mutation_rate: Decimal, mutation_strength: Decimal)
        requires
            0 <= mutation_rate@ <= SCALE,
        ensures
            exists|draws: MutationDraws|
                draws.valid() && *final(self) == old(self).mutated(draws, mutation_strength),
            mutation_rate@ == 0 ==> *final(self) == *old(self),
            mutation_rate@ == SCALE ==> exists|draws: MutationDraws|
                draws.valid() && draws.complete() && *final(self) == old(self).mutated(draws, mutation_strength),
    {
        let rate: u32 = mutation_rate.raw as u32;
        let whole: u32 = SCALE as u32;
        let period = if random_chance(rate, whole) {
            Some(draw_unit())
        } else {
            None
        };
        let oversold_level = if random_chance(rate, whole) {
            Some(draw_unit())
        } else {
            None
        };
        let overbought_level = if random_chance(rate, whole) {
            Some(draw_unit())
        } else {
            None
        };
        let draws = MutationDraws { period, oversold_level, overbought_level };
        self.apply_mutation(&draws, mutation_strength);
        assert(draws.valid() && *self == old(self).mutated(draws, mutation_strength));
        assert(mutation_rate@ == SCALE ==> draws.complete());
    }
}

} // verus!
