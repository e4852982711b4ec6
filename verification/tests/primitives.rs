use ferrum::perbill::Perbill;
use ferrum::primitives::{
    domain_threshold, BasketEntry, Did, GovernanceDomain, XsuBasket, FER, FER_DECIMALS, MIN_VALIDATOR_BOND,
};

#[test]
fn fer_unit_matches_decimals() {
    assert_eq!(FER, 10u128.pow(FER_DECIMALS));
    assert_eq!(MIN_VALIDATOR_BOND, 250_000 * FER);
}

#[test]
fn balanced_basket_sums_to_one() {
    let entries = vec![
        BasketEntry { cbdc: *b"USD", weight: Perbill::from_percent(40) },
        BasketEntry { cbdc: *b"EUR", weight: Perbill::from_percent(28) },
        BasketEntry { cbdc: *b"CNY", weight: Perbill::from_percent(12) },
        BasketEntry { cbdc: *b"JPY", weight: Perbill::from_percent(8) },
        BasketEntry { cbdc: *b"OTH", weight: Perbill::from_percent(12) },
    ];
    let basket = XsuBasket { entries, version: 1 };
    assert!(basket.is_balanced());
}

#[test]
fn domain_thresholds_match_whitepaper() {
    assert_eq!(domain_threshold(GovernanceDomain::Parameter), Perbill::from_rational(2u32, 3u32));
    assert_eq!(domain_threshold(GovernanceDomain::Membership), Perbill::from_rational(3u32, 4u32));
    assert_eq!(domain_threshold(GovernanceDomain::Constitutional), Perbill::from_percent(85));
}

#[test]
fn unbalanced_basket_is_refused() {
    let entries = vec![
        BasketEntry { cbdc: *b"USD", weight: Perbill::from_percent(60) },
        BasketEntry { cbdc: *b"EUR", weight: Perbill::from_percent(30) },
    ];
    let basket = XsuBasket { entries, version: 1 };
    assert!(!basket.is_balanced());
    assert_eq!(basket.total_weight(), Perbill::from_percent(90));
}

#[test]
fn overfull_basket_is_not_balanced() {
    let entries = vec![
        BasketEntry { cbdc: *b"USD", weight: Perbill::from_percent(60) },
        BasketEntry { cbdc: *b"EUR", weight: Perbill::from_percent(60) },
    ];
    let basket = XsuBasket { entries, version: 2 };
    // the running total is capped at one whole, but balance asks for exactly one
    assert_eq!(basket.total_weight(), Perbill::one());
    assert!(!basket.is_balanced());
}

#[test]
fn perbill_rational_rounds_down() {
    assert_eq!(Perbill::from_rational(2u32, 3u32).deconstruct(), 666_666_666);
    assert_eq!(Perbill::from_rational(5u32, 0u32), Perbill::one());
    assert_eq!(Perbill::from_percent(150), Perbill::one());
}

#[test]
fn did_local_tag() {
    let did = Did { chain_tag: b"tw".to_vec(), id: b"alice".to_vec() };
    assert!(did.is_local(b"tw"));
    assert!(!did.is_local(b"jp"));
}
