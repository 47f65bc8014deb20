use cyborg_pallets::rewards::{Error, Event, Pallet};
use cyborg_pallets::{DispatchError, Origin};

#[test]
fn check_provider_eligibility_records_provider() {
    let mut p = Pallet::new();
    assert_eq!(p.providers(10), None);
    assert_eq!(p.check_provider_eligibility(Origin::Signed(1), 10, true), Ok(()));
    assert_eq!(p.providers(10), Some(1));
}

#[test]
fn check_provider_eligibility_errors() {
    let mut p = Pallet::new();
    assert_eq!(p.check_provider_eligibility(Origin::Root, 10, true), Err(DispatchError::BadOrigin));
    assert_eq!(
        p.check_provider_eligibility(Origin::Signed(1), 10, false),
        Err(DispatchError::Module(Error::NotConnected))
    );
    assert_eq!(p.providers(10), None);
    p.check_provider_eligibility(Origin::Signed(1), 10, true).unwrap();
    assert_eq!(
        p.check_provider_eligibility(Origin::Signed(2), 10, true),
        Err(DispatchError::Module(Error::AlreadyRewarded))
    );
    assert_eq!(p.providers(10), Some(1));
}

#[test]
fn eligible_provider_is_rewarded() {
    let mut p = Pallet::new();
    p.check_provider_eligibility(Origin::Signed(1), 2, true).unwrap();
    assert_eq!(p.reward_provider(Origin::Signed(1), 2, 10), Ok(Event::ProviderRewarded(2, 10)));
    assert_eq!(p.rewards(2), Some(10));
}

#[test]
fn reward_provider_replaces_reward() {
    let mut p = Pallet::new();
    p.check_provider_eligibility(Origin::Signed(1), 20, true).unwrap();
    assert_eq!(p.reward_provider(Origin::Signed(1), 20, 5), Ok(Event::ProviderRewarded(20, 5)));
    assert_eq!(p.reward_provider(Origin::Signed(2), 20, 7), Ok(Event::ProviderRewarded(20, 7)));
    assert_eq!(p.rewards(20), Some(7));
    assert_eq!(p.providers(20), Some(1));
}

#[test]
fn reward_provider_errors() {
    let mut p = Pallet::new();
    assert_eq!(p.reward_provider(Origin::Unsigned, 20, 5), Err(DispatchError::BadOrigin));
    assert_eq!(
        p.reward_provider(Origin::Signed(1), 20, 5),
        Err(DispatchError::Module(Error::NotEligible))
    );
    assert_eq!(
        p.reward_provider(Origin::Signed(1), 20, 0),
        Err(DispatchError::Module(Error::NotEligible))
    );
    p.check_provider_eligibility(Origin::Signed(1), 20, true).unwrap();
    assert_eq!(
        p.reward_provider(Origin::Signed(1), 20, 0),
        Err(DispatchError::Module(Error::RewardTooLow))
    );
    assert_eq!(p.rewards(20), None);
}
