//! What holds of steps and of series of steps.

use vstd::prelude::*;
use crate::claim::{AccountId, BlockNumber, Claim, Error, EventView};
use crate::rules::{bounded, create_step, lookup, revoke_step, run, step, transfer_step, Op};

verus! {

/// A step that is refused leaves the mapping as it was.
pub proof fn law_refusal_changes_nothing(claims: Map<Seq<u8>, Claim>, max: u32, op: Op)
    requires
        step(claims, max, op).result is Err,
    ensures
        step(claims, max, op).claims == claims,
{
}

/// A step reads and changes no claim but that of the fingerprint it names.
pub proof fn law_other_claims_untouched(
    claims: Map<Seq<u8>, Claim>,
    max: u32,
    op: Op,
    other: Seq<u8>,
)
    requires
        other != op.fingerprint(),
    ensures
        lookup(step(claims, max, op).claims, other) == lookup(claims, other),
{
}

/// No step admits a fingerprint longer than the maximum: where every claimed
/// fingerprint is within it before a step, every one is within it after.
pub proof fn law_step_keeps_bound(claims: Map<Seq<u8>, Claim>, max: u32, op: Op)
    requires
        bounded(claims, max),
    ensures
        bounded(step(claims, max, op).claims, max),
{
}

/// After any series of requests on an empty registry, no claimed fingerprint
/// is longer than the maximum.
pub proof fn law_run_keeps_bound(max: u32, ops: Seq<Op>)
    ensures
        bounded(run(Map::empty(), max, ops), max),
    decreases ops.len(),
{
    if ops.len() > 0 {
        law_run_keeps_bound(max, ops.drop_last());
        law_step_keeps_bound(run(Map::empty(), max, ops.drop_last()), max, ops.last());
    }
}

/// A fingerprint longer than the maximum is refused as too large, whatever
/// else holds of it, and the mapping stays as it was.
pub proof fn law_too_large_refused(
    claims: Map<Seq<u8>, Claim>,
    max: u32,
    caller: AccountId,
    fingerprint: Seq<u8>,
    now: BlockNumber,
)
    requires
        fingerprint.len() > max,
    ensures
        create_step(claims, max, caller, fingerprint, now).result == Err::<EventView, Error>(
            Error::ClaimTooLarge,
        ),
        create_step(claims, max, caller, fingerprint, now).claims == claims,
{
}

/// Once a fingerprint has been claimed, a second claim on it is refused as
/// existing already, by whomever and whenever it is made, and the first claim
/// stands.
pub proof fn law_second_create_refused(
    claims: Map<Seq<u8>, Claim>,
    max: u32,
    first: AccountId,
    fingerprint: Seq<u8>,
    t1: BlockNumber,
    second: AccountId,
    t2: BlockNumber,
)
    requires
        create_step(claims, max, first, fingerprint, t1).result is Ok,
    ensures
        ({
            let created = create_step(claims, max, first, fingerprint, t1).claims;
            let again = create_step(created, max, second, fingerprint, t2);
            &&& again.result == Err::<EventView, Error>(Error::AlreadyExists)
            &&& again.claims == created
            &&& lookup(again.claims, fingerprint) == Some(Claim { owner: first, claimed_at: t1 })
        }),
{
}

/// To revoke or to transfer a fingerprint that is not claimed is refused as
/// not found.
pub proof fn law_unclaimed_not_found(
    claims: Map<Seq<u8>, Claim>,
    caller: AccountId,
    fingerprint: Seq<u8>,
    target: AccountId,
    now: BlockNumber,
)
    requires
        !claims.contains_key(fingerprint),
    ensures
        revoke_step(claims, caller, fingerprint).result == Err::<EventView, Error>(
            Error::NotFound,
        ),
        transfer_step(claims, caller, fingerprint, target, now).result == Err::<
            EventView,
            Error,
        >(Error::NotFound),
{
}

/// A fingerprint that no request of a series has created is not claimed after
/// the series, on a registry that was empty before it: to revoke or to
/// transfer it is refused as not found.
pub proof fn law_never_created_not_found(
    max: u32,
    ops: Seq<Op>,
    caller: AccountId,
    fingerprint: Seq<u8>,
    target: AccountId,
    now: BlockNumber,
)
    requires
        forall|i: int|
            0 <= i < ops.len() && ops[i] is Create ==> (#[trigger] ops[i]).fingerprint()
                != fingerprint,
    ensures
        !run(Map::empty(), max, ops).contains_key(fingerprint),
        revoke_step(run(Map::empty(), max, ops), caller, fingerprint).result == Err::<
            EventView,
            Error,
        >(Error::NotFound),
        transfer_step(run(Map::empty(), max, ops), caller, fingerprint, target, now).result
            == Err::<EventView, Error>(Error::NotFound),
    decreases ops.len(),
{
    if ops.len() > 0 {
        let earlier = ops.drop_last();
        assert forall|i: int| 0 <= i < earlier.len() && (#[trigger] earlier[i]) is Create implies
            earlier[i].fingerprint() != fingerprint by {
            assert(earlier[i] == ops[i]);
        }
        law_never_created_not_found(max, earlier, caller, fingerprint, target, now);
    }
}

/// Nobody but the owner can revoke a claim: the attempt of another account
/// is refused as not the owner's, and the claim stands as it was created.
pub proof fn law_revoke_by_other_refused(
    claims: Map<Seq<u8>, Claim>,
    max: u32,
    owner: AccountId,
    fingerprint: Seq<u8>,
    t1: BlockNumber,
    other: AccountId,
)
    requires
        create_step(claims, max, owner, fingerprint, t1).result is Ok,
        other != owner,
    ensures
        ({
            let created = create_step(claims, max, owner, fingerprint, t1).claims;
            let revoked = revoke_step(created, other, fingerprint);
            &&& revoked.result == Err::<EventView, Error>(Error::NotOwner)
            &&& revoked.claims == created
            &&& lookup(revoked.claims, fingerprint) == Some(
                Claim { owner, claimed_at: t1 },
            )
        }),
{
}

/// The owner can revoke its claim, and the fingerprint can then be claimed
/// anew, by any account and at any time.
pub proof fn law_revoked_can_be_claimed_again(
    claims: Map<Seq<u8>, Claim>,
    max: u32,
    owner: AccountId,
    fingerprint: Seq<u8>,
    t1: BlockNumber,
    anyone: AccountId,
    t2: BlockNumber,
)
    requires
        create_step(claims, max, owner, fingerprint, t1).result is Ok,
    ensures
        ({
            let created = create_step(claims, max, owner, fingerprint, t1).claims;
            let revoked = revoke_step(created, owner, fingerprint);
            let again = create_step(revoked.claims, max, anyone, fingerprint, t2);
            &&& revoked.result == Ok::<EventView, Error>(EventView::Revoked(owner, fingerprint))
            &&& revoked.claims == claims
            &&& again.result == Ok::<EventView, Error>(EventView::Created(anyone, fingerprint))
            &&& lookup(again.claims, fingerprint) == Some(
                Claim { owner: anyone, claimed_at: t2 },
            )
        }),
{
    let created = create_step(claims, max, owner, fingerprint, t1).claims;
    assert(created.remove(fingerprint) =~= claims);
}

/// The owner can transfer its claim. The claim is then the target's, from the
/// time of the transfer; the target can revoke it, and the former owner,
/// unless it is the target itself, cannot.
pub proof fn law_transfer_moves_ownership(
    claims: Map<Seq<u8>, Claim>,
    max: u32,
    owner: AccountId,
    fingerprint: Seq<u8>,
    t1: BlockNumber,
    target: AccountId,
    t2: BlockNumber,
)
    requires
        create_step(claims, max, owner, fingerprint, t1).result is Ok,
    ensures
        ({
            let created = create_step(claims, max, owner, fingerprint, t1).claims;
            let moved = transfer_step(created, owner, fingerprint, target, t2);
            let by_owner = revoke_step(moved.claims, owner, fingerprint);
            let by_target = revoke_step(moved.claims, target, fingerprint);
            &&& moved.result == Ok::<EventView, Error>(
                EventView::Transferred(owner, target, fingerprint),
            )
            &&& lookup(moved.claims, fingerprint) == Some(
                Claim { owner: target, claimed_at: t2 },
            )
            &&& owner != target ==> by_owner.result == Err::<EventView, Error>(Error::NotOwner)
                && by_owner.claims == moved.claims
            &&& by_target.result == Ok::<EventView, Error>(
                EventView::Revoked(target, fingerprint),
            )
            &&& by_target.claims == claims
        }),
{
    let created = create_step(claims, max, owner, fingerprint, t1).claims;
    let moved = transfer_step(created, owner, fingerprint, target, t2);
    assert(moved.claims.remove(fingerprint) =~= claims);
}

} // verus!
