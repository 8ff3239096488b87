use voting_wallet::runtime::{native_version, Runtime, WeightToFee, WeightToFeeCoefficient, DAYS, HOURS, MILLI_UNIT, MINUTES};

#[test]
fn fee_polynomial_for_the_template_base_weight() {
    // A base extrinsic weight of 107_639 ns.
    let coefficients = WeightToFee::polynomial(107_639_000);
    assert_eq!(
        coefficients,
        vec![WeightToFeeCoefficient { degree: 1, negative: false, coeff_frac: 9_290_312, coeff_integer: 0 }]
    );
}

#[test]
fn fee_polynomial_with_integer_part() {
    let coefficients = WeightToFee::polynomial(1000);
    assert_eq!(
        coefficients,
        vec![WeightToFeeCoefficient { degree: 1, negative: false, coeff_frac: 0, coeff_integer: 1000 }]
    );
    let coefficients = WeightToFee::polynomial(3);
    assert_eq!(coefficients[0].coeff_integer, 333_333);
    assert_eq!(coefficients[0].coeff_frac, 333_333_333);
    assert_eq!(MILLI_UNIT / 10, 100_000_000);
}

#[test]
fn block_time_constants() {
    assert_eq!(MINUTES, 10);
    assert_eq!(HOURS, 600);
    assert_eq!(DAYS, 14_400);
}

#[test]
fn runtime_voting_config() {
    let config = Runtime::voting_config();
    assert_eq!(config.proposal_expiration, 1000);
    assert_eq!(config.max_length, 256);
}

#[test]
fn native_version_fields() {
    let v = native_version();
    assert_eq!(v.runtime_version.spec_name, "parachain-template-runtime");
    assert_eq!(v.runtime_version.impl_name, "parachain-template-runtime");
    assert_eq!(v.runtime_version.authoring_version, 1);
    assert_eq!(v.runtime_version.spec_version, 1);
    assert_eq!(v.runtime_version.impl_version, 0);
    assert_eq!(v.runtime_version.transaction_version, 1);
    assert_eq!(v.runtime_version.state_version, 1);
    assert!(v.can_author_with.is_empty());
}
