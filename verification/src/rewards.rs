//! Provider Rewards: records which providers were found connected and
//! pays rewards to providers.
use std::collections::HashMap;
use vstd::prelude::*;

use crate::origin::{ensure_signed, signer, AccountId, DispatchError, Origin};

verus! {

broadcast use vstd::std_specs::hash::group_hash_axioms;

/// Events deposited by this pallet.
#[derive(Clone, Copy, Debug, PartialEq, Eq)]
pub enum Event {
    /// A provider has been rewarded.
    ProviderRewarded(AccountId, u32),
}

/// Errors of this pallet.
#[derive(Clone, Copy, Debug, PartialEq, Eq)]
pub enum Error {
    /// The provider is not connected.
    NotConnected,
    /// The provider is not eligible to receive a reward.
    NotEligible,
    /// The provider has already been rewarded for this period.
    AlreadyRewarded,
    /// The reward amount is too low.
    RewardTooLow,
}

/// The abstract state: for each recorded provider, the account that
/// recorded it; and for each rewarded provider, its latest reward.
pub struct PalletState {
    pub providers: Map<AccountId, AccountId>,
    pub rewards: Map<AccountId, u32>,
}

/// The pallet's storage, as read from the chain before a call and written
/// back after it.  A call only reads and writes the entries of the provider
/// it names.
pub struct Pallet {
    /// For each recorded provider, the account that recorded it.
    pub providers: HashMap<AccountId, AccountId>,
    /// For each rewarded provider, its latest reward.
    pub rewards: HashMap<AccountId, u32>,
}

impl View for Pallet {
    type V = PalletState;

    open spec fn view(&self) -> PalletState {
        PalletState { providers: self.providers@, rewards: self.rewards@ }
    }
}

/// The error `check_provider_eligibility` fails with, if any.
pub open spec fn check_provider_eligibility_error(
    s: PalletState,
    origin: Origin,
    provider: AccountId,
    connection: bool,
) -> Option<DispatchError<Error>> {
    if signer(origin) is None {
        Some(DispatchError::BadOrigin)
    } else if !connection {
        Some(DispatchError::Module(Error::NotConnected))
    } else if s.providers.contains_key(provider) {
        Some(DispatchError::Module(Error::AlreadyRewarded))
    } else {
        None
    }
}

/// The state after a successful `check_provider_eligibility` by `who`.
pub open spec fn check_provider_eligibility_post(s: PalletState, who: AccountId, provider: AccountId) -> PalletState {
    PalletState { providers: s.providers.insert(provider, who), ..s }
}

/// The error `reward_provider` fails with, if any.
pub open spec fn reward_provider_error(s: PalletState, origin: Origin, provider: AccountId, reward: u32) -> Option<
    DispatchError<Error>,
> {
    if signer(origin) is None {
        Some(DispatchError::BadOrigin)
    } else if !s.providers.contains_key(provider) {
        Some(DispatchError::Module(Error::NotEligible))
    } else if reward < 1 {
        Some(DispatchError::Module(Error::RewardTooLow))
    } else {
        None
    }
}

/// The state after a successful `reward_provider`.
pub open spec fn reward_provider_post(s: PalletState, provider: AccountId, reward: u32) -> PalletState {
    PalletState { rewards: s.rewards.insert(provider, reward), ..s }
}

impl Pallet {
    /// A pallet with no provider recorded and no reward paid.
    pub fn new() -> (p: Pallet)
        ensures
            p@.providers == Map::<AccountId, AccountId>::empty(),
            p@.rewards == Map::<AccountId, u32>::empty(),
    {
        Pallet { providers: HashMap::new(), rewards: HashMap::new() }
    }

    /// The account that recorded `provider`, if any.
    pub fn providers(&self, provider: AccountId) -> (r: Option<AccountId>)
        ensures
            r == (if self@.providers.contains_key(provider) {
                Some(self@.providers[provider])
            } else {
                None::<AccountId>
            }),
    {
        match self.providers.get(&provider) {
            Some(who) => Some(*who),
            None => None,
        }
    }

    /// The latest reward paid to `provider`, if any.
    pub fn rewards(&self, provider: AccountId) -> (r: Option<u32>)
        ensures
            r == (if self@.rewards.contains_key(provider) {
                Some(self@.rewards[provider])
            } else {
                None::<u32>
            }),
    {
        match self.rewards.get(&provider) {
            Some(reward) => Some(*reward),
            None => None,
        }
    }

    /// Record `provider` as found connected in the last hour, by the signer
    /// of the call.  Fails when it was not connected, or is recorded already.
    pub fn check_provider_eligibility(&mut self, origin: Origin, provider: AccountId, connection: bool) -> (res:
        Result<(), DispatchError<Error>>)
        ensures
            res is Ok <==> (signer(origin) is Some && connection && !old(self)@.providers.contains_key(provider)),
            res is Ok ==> final(self)@.providers == old(self)@.providers.insert(provider, signer(origin)->0)
                && final(self)@.rewards == old(self)@.rewards,
            res is Err ==> final(self)@ == old(self)@,
            match check_provider_eligibility_error(old(self)@, origin, provider, connection) {
                Some(e) => res == Err::<(), DispatchError<Error>>(e) && final(self)@ == old(self)@,
                None => res is Ok && final(self)@ == check_provider_eligibility_post(
                    old(self)@,
                    signer(origin)->0,
                    provider,
                ),
            },
    {
        let who = match ensure_signed::<Error>(origin) {
            Ok(who) => who,
            Err(e) => return Err(e),
        };
        if !connection {
            return Err(DispatchError::Module(Error::NotConnected));
        }
        if self.providers.contains_key(&provider) {
            return Err(DispatchError::Module(Error::AlreadyRewarded));
        }
        self.providers.insert(provider, who);
        Ok(())
    }

    /// Pay `reward` to `provider`.  The provider must have been found
    /// eligible by `check_provider_eligibility`, and the reward must be at
    /// least one.  A new reward replaces the previous one.
    pub fn reward_provider(&mut self, origin: Origin, provider: AccountId, reward: u32) -> (res: Result<
        Event,
        DispatchError<Error>,
    >)
        ensures
            res is Ok <==> (signer(origin) is Some && old(self)@.providers.contains_key(provider) && reward >= 1),
            res is Ok ==> final(self)@.rewards == old(self)@.rewards.insert(provider, reward)
                && final(self)@.providers == old(self)@.providers,
            res is Err ==> final(self)@ == old(self)@,
            match reward_provider_error(old(self)@, origin, provider, reward) {
                Some(e) => res == Err::<Event, DispatchError<Error>>(e) && final(self)@ == old(self)@,
                None => res == Ok::<Event, DispatchError<Error>>(Event::ProviderRewarded(provider, reward))
                    && final(self)@ == reward_provider_post(old(self)@, provider, reward),
            },
    {
        match ensure_signed::<Error>(origin) {
            Ok(_) => {},
            Err(e) => return Err(e),
        }
        if !self.providers.contains_key(&provider) {
            return Err(DispatchError::Module(Error::NotEligible));
        }
        if reward < 1 {
            return Err(DispatchError::Module(Error::RewardTooLow));
        }
        self.rewards.insert(provider, reward);
        Ok(Event::ProviderRewarded(provider, reward))
    }
}

/// A provider found eligible by `check_provider_eligibility` can then be
/// rewarded with any reward of at least one, and the reward is stored.
pub proof fn lemma_eligible_provider_rewarded(
    s: PalletState,
    o1: Origin,
    o2: Origin,
    provider: AccountId,
    reward: u32,
)
    requires
        check_provider_eligibility_error(s, o1, provider, true) is None,
        signer(o2) is Some,
        reward >= 1,
    ensures
        ({
            let t = check_provider_eligibility_post(s, signer(o1)->0, provider);
            &&& reward_provider_error(t, o2, provider, reward) is None
            &&& reward_provider_post(t, provider, reward).rewards[provider] == reward
        }),
{
}

/// A provider that was never found eligible is not rewarded: the call is
/// refused as not eligible, whatever the reward.
pub proof fn lemma_unrecorded_provider_not_rewarded(s: PalletState, origin: Origin, provider: AccountId, reward: u32)
    requires
        !s.providers.contains_key(provider),
        signer(origin) is Some,
    ensures
        reward_provider_error(s, origin, provider, reward) == Some(DispatchError::Module(Error::NotEligible)),
{
}

/// A provider is recorded at most once: a second eligibility check of a
/// connected provider is refused, and the first recorder is kept.
pub proof fn lemma_provider_recorded_once(s: PalletState, o1: Origin, o2: Origin, provider: AccountId)
    requires
        check_provider_eligibility_error(s, o1, provider, true) is None,
        signer(o2) is Some,
    ensures
        ({
            let t = check_provider_eligibility_post(s, signer(o1)->0, provider);
            &&& check_provider_eligibility_error(t, o2, provider, true) == Some(
                DispatchError::Module(Error::AlreadyRewarded),
            )
            &&& t.providers[provider] == signer(o1)->0
        }),
{
}

/// Rewarding an eligible provider again replaces its reward, and leaves
/// the recorded providers alone.
pub proof fn lemma_reward_replaces(s: PalletState, o1: Origin, o2: Origin, provider: AccountId, r1: u32, r2: u32)
    requires
        reward_provider_error(s, o1, provider, r1) is None,
        signer(o2) is Some,
        r2 >= 1,
    ensures
        ({
            let t = reward_provider_post(s, provider, r1);
            &&& reward_provider_error(t, o2, provider, r2) is None
            &&& reward_provider_post(t, provider, r2).rewards[provider] == r2
            &&& reward_provider_post(t, provider, r2).providers == s.providers
        }),
{
}

/// `check_provider_eligibility` succeeds exactly for a signed origin, a
/// connected provider that is not recorded yet; it then records the
/// provider with its recorder and keeps every other provider's entry and
/// every reward.
pub proof fn lemma_check_provider_eligibility_outcome(
    s: PalletState,
    origin: Origin,
    provider: AccountId,
    connection: bool,
)
    ensures
        check_provider_eligibility_error(s, origin, provider, connection) is None <==> (signer(origin) is Some
            && connection && !s.providers.contains_key(provider)),
        signer(origin) is Some && !connection ==> check_provider_eligibility_error(s, origin, provider, connection)
            == Some(DispatchError::Module(Error::NotConnected)),
        signer(origin) is Some && connection && s.providers.contains_key(provider)
            ==> check_provider_eligibility_error(s, origin, provider, connection) == Some(
            DispatchError::Module(Error::AlreadyRewarded),
        ),
        ({
            let t = check_provider_eligibility_post(s, signer(origin)->0, provider);
            &&& t.providers.contains_key(provider)
            &&& t.providers[provider] == signer(origin)->0
            &&& forall|p: AccountId|
                p != provider ==> (#[trigger] t.providers.contains_key(p) == s.providers.contains_key(p)
                    && t.providers[p] == s.providers[p])
            &&& t.providers.dom() == s.providers.dom().insert(provider)
            &&& t.rewards == s.rewards
        }),
{
    let t = check_provider_eligibility_post(s, signer(origin)->0, provider);
    assert(t.providers.dom() =~= s.providers.dom().insert(provider));
}

/// `reward_provider` succeeds exactly for a signed origin, a provider found
/// eligible and a reward of at least one; it then sets that provider's
/// reward and keeps every other reward and every provider.
pub proof fn lemma_reward_provider_outcome(s: PalletState, origin: Origin, provider: AccountId, reward: u32)
    ensures
        reward_provider_error(s, origin, provider, reward) is None <==> (signer(origin) is Some
            && s.providers.contains_key(provider) && reward >= 1),
        signer(origin) is Some && s.providers.contains_key(provider) && reward < 1 ==> reward_provider_error(
            s,
            origin,
            provider,
            reward,
        ) == Some(DispatchError::Module(Error::RewardTooLow)),
        ({
            let t = reward_provider_post(s, provider, reward);
            &&& t.rewards.contains_key(provider)
            &&& t.rewards[provider] == reward
            &&& forall|p: AccountId|
                p != provider ==> (#[trigger] t.rewards.contains_key(p) == s.rewards.contains_key(p) && t.rewards[p]
                    == s.rewards[p])
            &&& t.rewards.dom() == s.rewards.dom().insert(provider)
            &&& t.providers == s.providers
        }),
{
    let t = reward_provider_post(s, provider, reward);
    assert(t.rewards.dom() =~= s.rewards.dom().insert(provider));
}

/// Recording one provider never unrecords another: after two successful
/// eligibility checks of different providers, both are recorded and both
/// can be rewarded.
pub proof fn lemma_eligibility_checks_accumulate(
    s: PalletState,
    o1: Origin,
    o2: Origin,
    p1: AccountId,
    p2: AccountId,
    reward: u32,
)
    requires
        check_provider_eligibility_error(s, o1, p1, true) is None,
        check_provider_eligibility_error(check_provider_eligibility_post(s, signer(o1)->0, p1), o2, p2, true) is None,
        reward >= 1,
    ensures
        ({
            let t = check_provider_eligibility_post(
                check_provider_eligibility_post(s, signer(o1)->0, p1),
                signer(o2)->0,
                p2,
            );
            &&& p1 != p2
            &&& t.providers.contains_key(p1) && t.providers[p1] == signer(o1)->0
            &&& t.providers.contains_key(p2) && t.providers[p2] == signer(o2)->0
            &&& reward_provider_error(t, o1, p1, reward) is None
            &&& reward_provider_error(t, o2, p2, reward) is None
        }),
{
}

/// The pallet's view is its storage: both maps.
pub proof fn lemma_pallet_view(p: Pallet)
    ensures
        p@.providers == p.providers@,
        p@.rewards == p.rewards@,
{
}

} // verus!
