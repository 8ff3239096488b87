//! Runtime-level constants and the weight-to-fee polynomial.

use vstd::prelude::*;
use crate::voting::Config;
use std::borrow::ToOwned;

verus! {

/// One unit of the chain's currency, in its smallest denomination.
pub const UNIT: u128 = 1_000_000_000_000;

/// A thousandth of a unit.
pub const MILLI_UNIT: u128 = 1_000_000_000;

/// A millionth of a unit.
pub const MICRO_UNIT: u128 = 1_000_000;

/// The smallest balance an account may hold.
pub const EXISTENTIAL_DEPOSIT: u128 = MILLI_UNIT;

/// Target block time.
pub const MILLI_SECS_PER_BLOCK: u64 = 6000;

/// Slot length of the block-authoring schedule.
pub const SLOT_DURATION: u64 = MILLI_SECS_PER_BLOCK;

/// Blocks per minute, hour and day at the target block time.
pub const MINUTES: u32 = 60_000 / 6000;

pub const HOURS: u32 = MINUTES * 60;

pub const DAYS: u32 = HOURS * 24;

/// Number of parts in one whole of a `Perbill`.
pub const PERBILL_ACCURACY: u128 = 1_000_000_000;

/// The parts of `Perbill::from_rational(p, q)`: the fraction `p / q` in
/// billionths, rounded down, saturating at one whole when `q` is zero or
/// `p > q`.
pub open spec fn spec_perbill_from_rational(p: u128, q: u128) -> u32 {
    if q > 0 && p <= q {
        ((PERBILL_ACCURACY * p) / (q as int)) as u32
    } else {
        PERBILL_ACCURACY as u32
    }
}

/// Calls `sp_arithmetic::Perbill::from_rational` and returns the parts of
/// the result. Claimed of it: for `0 < q` and `p <= q` the parts are
/// `p * 10^9 / q` rounded down, else one whole (`10^9` parts), which is what
/// `from_rational` computes through `from_rational_with_rounding` with
/// `Rounding::Down`, falling back to `one()` on error.
#[verifier::external_body]
fn perbill_from_rational(p: u128, q: u128) -> (parts: u32)
    ensures
        parts == spec_perbill_from_rational(p, q),
{
    sp_arithmetic::Perbill::from_rational(p, q).deconstruct()
}

/// One term `coeff * weight^degree` of a fee polynomial, with the
/// coefficient split in an integer part and a fractional part given in
/// billionths.
#[derive(Clone, Copy, Debug, PartialEq, Eq, Structural)]
pub struct WeightToFeeCoefficient {
    pub degree: u8,
    pub negative: bool,
    pub coeff_frac: u32,
    pub coeff_integer: u128,
}

/// Converts a weight to a fee: one linear term that charges a tenth of a
/// milli-unit for a hundred base extrinsics.
pub struct WeightToFee;

/// The numerator of the fee rate: a tenth of a milli-unit.
pub open spec fn fee_rate_numerator() -> u128 {
    MILLI_UNIT / 10
}

/// The denominator of the fee rate: a hundred base-extrinsic weights.
pub open spec fn fee_rate_denominator(extrinsic_base_ref_time: u64) -> u128 {
    (100 * extrinsic_base_ref_time) as u128
}

impl WeightToFee {
    /// The coefficients the runtime's fee polynomial has for a given
    /// reference time of the base extrinsic weight.
    pub open spec fn spec_polynomial(extrinsic_base_ref_time: u64) -> Seq<WeightToFeeCoefficient> {
        let p = fee_rate_numerator();
        let q = fee_rate_denominator(extrinsic_base_ref_time);
        seq![
            WeightToFeeCoefficient {
                degree: 1,
                negative: false,
                coeff_frac: spec_perbill_from_rational((p % q) as u128, q),
                coeff_integer: (p / q) as u128,
            },
        ]
    }

    /// The fee polynomial: a single positive term of degree one whose
    /// coefficient is `MILLI_UNIT / 10` divided by a hundred times the base
    /// extrinsic reference time.
    pub fn polynomial(extrinsic_base_ref_time: u64) -> (coefficients: Vec<WeightToFeeCoefficient>)
        requires
            extrinsic_base_ref_time > 0,
        ensures
            coefficients@ == Self::spec_polynomial(extrinsic_base_ref_time),
    {
        let p: u128 = MILLI_UNIT / 10;
        let q: u128 = 100 * (extrinsic_base_ref_time as u128);
        let coefficient = WeightToFeeCoefficient {
            degree: 1,
            negative: false,
            coeff_frac: perbill_from_rational(p % q, q),
            coeff_integer: p / q,
        };
        let mut coefficients: Vec<WeightToFeeCoefficient> = Vec::new();
        coefficients.push(coefficient);
        assert(coefficients@ =~= Self::spec_polynomial(extrinsic_base_ref_time));
        coefficients
    }
}

/// The parachain runtime that hosts the voting pallet.
pub struct Runtime;

impl Runtime {
    /// The voting pallet's configuration in this runtime: proposals expire
    /// after 1000 blocks, and titles and descriptions hold at most 256 bytes.
    pub fn voting_config() -> (config: Config)
        ensures
            config.proposal_expiration == 1000,
            config.max_length == 256,
    {
        Config { proposal_expiration: 1000, max_length: 256 }
    }
}

/// The identity and versions of the runtime.
pub struct RuntimeVersion {
    pub spec_name: String,
    pub impl_name: String,
    pub authoring_version: u32,
    pub spec_version: u32,
    pub impl_version: u32,
    pub transaction_version: u32,
    pub state_version: u8,
}

/// The runtime version a native node carries, and the runtime spec versions
/// other than its own that it can author blocks for.
pub struct NativeVersion {
    pub runtime_version: RuntimeVersion,
    pub can_author_with: Vec<u32>,
}

/// The runtime's version: named `parachain-template-runtime`, authoring,
/// spec, transaction and state version 1, implementation version 0.
pub fn version() -> (v: RuntimeVersion)
    ensures
        v.spec_name@ == "parachain-template-runtime"@,
        v.impl_name@ == "parachain-template-runtime"@,
        v.authoring_version == 1,
        v.spec_version == 1,
        v.impl_version == 0,
        v.transaction_version == 1,
        v.state_version == 1,
{
    RuntimeVersion {
        spec_name: "parachain-template-runtime".to_owned(),
        impl_name: "parachain-template-runtime".to_owned(),
        authoring_version: 1,
        spec_version: 1,
        impl_version: 0,
        transaction_version: 1,
        state_version: 1,
    }
}

/// The native version: the runtime's version, able to author only for its
/// own spec version.
pub fn native_version() -> (v: NativeVersion)
    ensures
        v.runtime_version.spec_name@ == "parachain-template-runtime"@,
        v.runtime_version.impl_name@ == "parachain-template-runtime"@,
        v.runtime_version.authoring_version == 1,
        v.runtime_version.spec_version == 1,
        v.runtime_version.impl_version == 0,
        v.runtime_version.transaction_version == 1,
        v.runtime_version.state_version == 1,
        v.can_author_with@.len() == 0,
{
    NativeVersion { runtime_version: version(), can_author_with: Vec::new() }
}

} // verus!
