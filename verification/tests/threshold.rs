use ion_dao::decimal::Decimal;
use ion_dao::error::ContractError;
use ion_dao::threshold::{valid_percentage, Threshold};

#[test]
fn validate_percentage() {
    // 0 is never a valid percentage
    let err = valid_percentage(&Decimal::zero()).unwrap_err();
    assert_eq!(err.to_string(), ContractError::ZeroThreshold {}.to_string());

    // 100% is
    valid_percentage(&Decimal::one()).unwrap();

    // 101% is not
    let err = valid_percentage(&Decimal::percent(101)).unwrap_err();
    assert_eq!(
        err.to_string(),
        ContractError::UnreachableThreshold {}.to_string()
    );
    // not 100.1%
    let err = valid_percentage(&Decimal::permille(1001)).unwrap_err();
    assert_eq!(
        err.to_string(),
        ContractError::UnreachableThreshold {}.to_string()
    );

    // other values in between 0 and 1 are valid
    valid_percentage(&Decimal::permille(1)).unwrap();
    valid_percentage(&Decimal::percent(17)).unwrap();
    valid_percentage(&Decimal::percent(99)).unwrap();
}

#[test]
fn validate_threshold() {
    // Quorum enforces both valid just enforces valid_percentage (tested above)
    Threshold {
        threshold: Decimal::percent(51),
        quorum: Decimal::percent(40),
        veto_threshold: Decimal::percent(33),
    }
    .validate()
    .unwrap();
    let err = Threshold {
        threshold: Decimal::percent(101),
        quorum: Decimal::percent(40),
        veto_threshold: Decimal::percent(33),
    }
    .validate()
    .unwrap_err();
    assert_eq!(
        err.to_string(),
        ContractError::UnreachableThreshold {}.to_string()
    );
    let err = Threshold {
        threshold: Decimal::percent(51),
        quorum: Decimal::percent(0),
        veto_threshold: Decimal::percent(10),
    }
    .validate()
    .unwrap_err();
    assert_eq!(err.to_string(), ContractError::ZeroThreshold {}.to_string());
}

#[test]
fn threshold_errors_are_told_apart() {
    assert_eq!(
        valid_percentage(&Decimal::zero()),
        Err(ContractError::ZeroThreshold {})
    );
    assert_eq!(
        valid_percentage(&Decimal::permille(1001)),
        Err(ContractError::UnreachableThreshold {})
    );
    assert_ne!(
        ContractError::ZeroThreshold {}.to_string(),
        ContractError::UnreachableThreshold {}.to_string()
    );
}

#[test]
fn first_faulty_fraction_decides() {
    // the threshold is looked at first, then the quorum, then the veto
    let err = Threshold {
        threshold: Decimal::percent(0),
        quorum: Decimal::percent(101),
        veto_threshold: Decimal::percent(101),
    }
    .validate()
    .unwrap_err();
    assert_eq!(err, ContractError::ZeroThreshold {});
    let err = Threshold {
        threshold: Decimal::percent(50),
        quorum: Decimal::percent(101),
        veto_threshold: Decimal::percent(0),
    }
    .validate()
    .unwrap_err();
    assert_eq!(err, ContractError::UnreachableThreshold {});
    let err = Threshold {
        threshold: Decimal::percent(50),
        quorum: Decimal::percent(100),
        veto_threshold: Decimal::percent(0),
    }
    .validate()
    .unwrap_err();
    assert_eq!(err, ContractError::ZeroThreshold {});
}

#[test]
fn default_threshold_is_half_third_third() {
    let t = Threshold::default();
    assert_eq!(t.threshold.atomics, 500_000_000_000_000_000);
    assert_eq!(t.quorum.atomics, 333_333_333_333_333_333);
    assert_eq!(t.veto_threshold.atomics, 333_333_333_333_333_333);
    t.validate().unwrap();
}

#[test]
fn decimal_agrees_with_cosmwasm() {
    // a fraction of an integer, rounded up
    let cases: [(u128, u128, u128); 9] = [
        (500_000_000_000_000_000, 3, 2),
        (333_000_000_000_000_000, 3_000_000_000, 999_000_000),
        (1_000_000_000_000_000_000, 77, 77),
        (1, 999_999_999_999_999_999, 1),
        (1, 1_000_000_000_000_000_000, 1),
        (1, 1_000_000_000_000_000_001, 2),
        (250_000_000_000_000_000, 10, 3),
        (0, 10, 0),
        (1_000_000_000_000_000_000, u128::MAX, u128::MAX),
    ];
    for (atomics, amount, expected) in cases {
        assert_eq!(Decimal { atomics }.mul_ceil(amount), expected);
        // the least integer that is not less than the product
        let floor =
            (cosmwasm_std::Decimal::raw(atomics) * cosmwasm_std::Uint128::new(amount)).u128();
        assert!(expected == floor || expected == floor + 1);
    }
    assert_eq!(Decimal::percent(50).mul_ceil(3), 2);
    assert_eq!(Decimal::percent(25).mul_ceil(10), 3);
    assert_eq!(Decimal::percent(25).mul_ceil(12), 3);

    // ratios
    assert_eq!(Decimal::from_ratio(1, 2), Decimal::percent(50));
    assert_eq!(Decimal::from_ratio(1, 3).atomics, 333_333_333_333_333_333);
    assert_eq!(Decimal::from_ratio(7, 4).atomics, 1_750_000_000_000_000_000);
    assert_eq!(Decimal::checked_from_ratio(1, 0), None);
    assert_eq!(Decimal::checked_from_ratio(u128::MAX, 1), None);
    assert_eq!(
        Decimal::checked_from_ratio(30, 100),
        Some(Decimal::percent(30))
    );
    assert_eq!(
        Decimal::percent(17).atomics,
        cosmwasm_std::Decimal::percent(17).atomics().u128()
    );
    assert_eq!(
        Decimal::permille(333).atomics,
        cosmwasm_std::Decimal::permille(333).atomics().u128()
    );
    assert!(Decimal::zero().is_zero());
    assert!(!Decimal::one().is_zero());
}
