use vstd::prelude::*;

verus! {

/// Account identifiers, as used by the runtimes these pallets run in.
pub type AccountId = u64;

/// The origin of a dispatchable call, as the system pallet knows it.
#[derive(Clone, Copy, Debug, PartialEq, Eq)]
pub enum Origin {
    /// The system itself.
    Root,
    /// A transaction signed by the given account.
    Signed(AccountId),
    /// An unsigned transaction (the system origin `None`).
    Unsigned,
    /// An unsigned transaction authorized by the runtime.
    Authorized,
}

/// What a dispatchable call returns on failure: either the origin was not
/// acceptable, or the pallet refused the call with one of its own errors.
#[derive(Clone, Copy, Debug, PartialEq, Eq)]
pub enum DispatchError<E> {
    BadOrigin,
    Module(E),
}

/// The account that signed `o`, if it is a signed origin.
pub open spec fn signer(o: Origin) -> Option<AccountId> {
    match o {
        Origin::Signed(who) => Some(who),
        _ => None,
    }
}

/// Ensure that the origin represents a signed transaction, and return the
/// signing account.
pub fn ensure_signed<E>(o: Origin) -> (res: Result<AccountId, DispatchError<E>>)
    ensures
        match signer(o) {
            Some(who) => res == Ok::<AccountId, DispatchError<E>>(who),
            None => res == Err::<AccountId, DispatchError<E>>(DispatchError::BadOrigin),
        },
{
    match o {
        Origin::Signed(who) => Ok(who),
        _ => Err(DispatchError::BadOrigin),
    }
}

/// Only a signed origin has a signer, and it is the signing account.
pub proof fn lemma_signer(who: AccountId)
    ensures
        signer(Origin::Signed(who)) == Some(who),
        signer(Origin::Root) is None,
        signer(Origin::Unsigned) is None,
        signer(Origin::Authorized) is None,
{
}

} // verus!
