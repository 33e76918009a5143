//! The four transition handlers and the authorization policy they enforce.
//!
//! Each handler consumes an explicit struct of inputs built by the runtime —
//! the authenticated signer plus the snapshot(s) loaded for it — validates
//! the ownership rule, and returns the next snapshot(s) or the domain error.
//! Handlers never touch storage; the `ledger` module plays the runtime's
//! part of loading and persisting.

use vstd::prelude::*;

use crate::entity::{CounterCompressedAccount, DummyStruct, Identity};

verus! {

/// The single domain error the core raises: the caller's identity does not
/// match the entity's owner.
#[derive(Clone, Copy, Debug, PartialEq, Eq, Structural)]
pub enum CustomError {
    Unauthorized,
}

/// Authorization policy: mutation and deletion of a counter entity are gated
/// on exact equality of the caller identity with the stored owner. Succeeds
/// with no side effect exactly when the two agree.
pub fn authorize(owner: &Identity, caller: &Identity) -> (r: Result<(), CustomError>)
    ensures
        r is Ok <==> caller@ == owner@,
        r is Err ==> (r matches Err(e) && e == CustomError::Unauthorized),
{
    if caller.key_eq(owner) {
        Ok(())
    } else {
        Err(CustomError::Unauthorized)
    }
}

/// Inputs of the create transition: the authenticated fee-paying signer, who
/// becomes the owner of the fresh counter entity.
pub struct Create {
    pub signer: Identity,
}

/// Inputs of the increment transition: the signer and the counter snapshot
/// loaded at the signer's derived counter address.
pub struct Increment {
    pub signer: Identity,
    pub counter: CounterCompressedAccount,
}

/// Inputs of the create-plus-increment transition: the signer, the auxiliary
/// reference identity used as seed material for the subscription address,
/// and the existing counter snapshot.
pub struct InitAndIncrement {
    pub signer: Identity,
    pub dummy_account: Identity,
    pub counter: CounterCompressedAccount,
}

/// Inputs of the delete transition: the signer and the counter snapshot to
/// be released.
pub struct Delete {
    pub signer: Identity,
    pub counter: CounterCompressedAccount,
}

/// Create: produce a fresh counter entity owned by the signer, with the
/// counter at zero. The runtime rejects an occupied address before this
/// handler runs, so the handler itself raises no error.
pub fn create(ctx: Create) -> (r: CounterCompressedAccount)
    ensures
        r.owner@ == ctx.signer@,
        r.counter == 0,
{
    CounterCompressedAccount { owner: ctx.signer, counter: 0 }
}

/// Increment: authorize, then grow the counter by exactly one; the owner is
/// unchanged. The 64-bit boundary is rejected by the runtime before the
/// handler runs (an explicit fail policy, not wrapping or saturation), so
/// the handler requires room for the step.
pub fn increment(ctx: Increment) -> (r: Result<CounterCompressedAccount, CustomError>)
    requires
        ctx.counter.counter < u64::MAX,
    ensures
        ctx.signer@ == ctx.counter.owner@ ==> (r matches Ok(c) && c.owner@ == ctx.counter.owner@
            && c.counter == ctx.counter.counter + 1),
        ctx.signer@ != ctx.counter.owner@ ==> (r matches Err(e) && e == CustomError::Unauthorized),
{
    let Increment { signer, counter } = ctx;
    match authorize(&counter.owner, &signer) {
        Ok(()) => Ok(
            CounterCompressedAccount { owner: counter.owner, counter: counter.counter + 1 },
        ),
        Err(e) => Err(e),
    }
}

/// Create-plus-increment: authorize against the existing counter entity,
/// then — atomically, in the returned pair — create a subscription record
/// carrying the identifier verbatim and grow the counter by exactly one.
/// The subscription address itself is derived by the runtime from the
/// reference identity and the identifier; occupancy of that address is the
/// runtime's rejection, not this handler's.
pub fn init_and_increment(ctx: InitAndIncrement, subscription_id: String) -> (r: Result<
    (CounterCompressedAccount, DummyStruct),
    CustomError,
>)
    requires
        ctx.counter.counter < u64::MAX,
    ensures
        ctx.signer@ == ctx.counter.owner@ ==> (r matches Ok(p) && p.0.owner@ == ctx.counter.owner@
            && p.0.counter == ctx.counter.counter + 1
            && p.1.subscription_id@ == subscription_id@),
        ctx.signer@ != ctx.counter.owner@ ==> (r matches Err(e) && e == CustomError::Unauthorized),
{
    let InitAndIncrement { signer, dummy_account: _, counter } = ctx;
    match authorize(&counter.owner, &signer) {
        Ok(()) => {
            let dummy = DummyStruct { subscription_id };
            let bumped = CounterCompressedAccount {
                owner: counter.owner,
                counter: counter.counter + 1,
            };
            Ok((bumped, dummy))
        },
        Err(e) => Err(e),
    }
}

/// Delete: authorize, then release the entity's storage slot. The handler
/// body is the authorization check alone; the tombstoning of the slot is the
/// runtime's act, taken only on an `Ok` result.
pub fn delete(ctx: Delete) -> (r: Result<(), CustomError>)
    ensures
        r is Ok <==> ctx.signer@ == ctx.counter.owner@,
        r is Err ==> (r matches Err(e) && e == CustomError::Unauthorized),
{
    let Delete { signer, counter } = ctx;
    authorize(&counter.owner, &signer)
}

} // verus!
