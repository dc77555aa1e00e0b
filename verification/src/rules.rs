//! The rules of the registry.
//!
//! The state of a registry is a mapping from fingerprints to claims. Each
//! operation is a step from one mapping to the next, together with the event
//! or the error that it reports. A refused step leaves the mapping as it was.
//! The order of the checks is part of the rules: it decides which error is
//! reported when several conditions are violated at once.

use vstd::prelude::*;
use crate::claim::{AccountId, BlockNumber, Claim, Error, EventView};

verus! {

/// What a step leaves behind: the mapping after it, and what it reports.
pub ghost struct Outcome {
    pub claims: Map<Seq<u8>, Claim>,
    pub result: Result<EventView, Error>,
}

/// No claimed fingerprint is longer than `max`.
pub open spec fn bounded(claims: Map<Seq<u8>, Claim>, max: u32) -> bool {
    forall|fingerprint: Seq<u8>| #[trigger]
        claims.contains_key(fingerprint) ==> fingerprint.len() <= max
}

/// The claim recorded for a fingerprint, if there is one.
pub open spec fn lookup(claims: Map<Seq<u8>, Claim>, fingerprint: Seq<u8>) -> Option<Claim> {
    if claims.contains_key(fingerprint) {
        Some(claims[fingerprint])
    } else {
        None
    }
}

/// The account that owns a fingerprint, if it is claimed.
pub open spec fn owner_of(claims: Map<Seq<u8>, Claim>, fingerprint: Seq<u8>) -> Option<
    AccountId,
> {
    if claims.contains_key(fingerprint) {
        Some(claims[fingerprint].owner)
    } else {
        None
    }
}

/// Whether a fingerprint of length `len` may be claimed, given whether it is
/// claimed already. The length is checked first.
pub open spec fn create_verdict(max: u32, len: nat, claimed: bool) -> Result<(), Error> {
    if len > max {
        Err(Error::ClaimTooLarge)
    } else if claimed {
        Err(Error::AlreadyExists)
    } else {
        Ok(())
    }
}

/// Whether `caller` may dispose of a fingerprint, given who owns it, if
/// anyone does. Existence is checked first.
pub open spec fn owner_verdict(owner: Option<AccountId>, caller: AccountId) -> Result<(), Error> {
    match owner {
        None => Err(Error::NotFound),
        Some(owner) => if owner == caller {
            Ok(())
        } else {
            Err(Error::NotOwner)
        },
    }
}

/// `caller` claims `fingerprint` at time `now`.
pub open spec fn create_step(
    claims: Map<Seq<u8>, Claim>,
    max: u32,
    caller: AccountId,
    fingerprint: Seq<u8>,
    now: BlockNumber,
) -> Outcome {
    match create_verdict(max, fingerprint.len(), claims.contains_key(fingerprint)) {
        Ok(_) => Outcome {
            claims: claims.insert(fingerprint, Claim { owner: caller, claimed_at: now }),
            result: Ok(EventView::Created(caller, fingerprint)),
        },
        Err(e) => Outcome { claims, result: Err(e) },
    }
}

/// `caller` gives up its claim on `fingerprint`.
pub open spec fn revoke_step(
    claims: Map<Seq<u8>, Claim>,
    caller: AccountId,
    fingerprint: Seq<u8>,
) -> Outcome {
    match owner_verdict(owner_of(claims, fingerprint), caller) {
        Ok(_) => Outcome {
            claims: claims.remove(fingerprint),
            result: Ok(EventView::Revoked(caller, fingerprint)),
        },
        Err(e) => Outcome { claims, result: Err(e) },
    }
}

/// `caller` hands its claim on `fingerprint` to `target` at time `now`.
/// The target may be the caller: the time of the claim is renewed all the same.
pub open spec fn transfer_step(
    claims: Map<Seq<u8>, Claim>,
    caller: AccountId,
    fingerprint: Seq<u8>,
    target: AccountId,
    now: BlockNumber,
) -> Outcome {
    match owner_verdict(owner_of(claims, fingerprint), caller) {
        Ok(_) => Outcome {
            claims: claims.insert(fingerprint, Claim { owner: target, claimed_at: now }),
            result: Ok(EventView::Transferred(caller, target, fingerprint)),
        },
        Err(e) => Outcome { claims, result: Err(e) },
    }
}

/// One request to the registry.
pub ghost enum Op {
    Create { caller: AccountId, fingerprint: Seq<u8>, now: BlockNumber },
    Revoke { caller: AccountId, fingerprint: Seq<u8> },
    Transfer { caller: AccountId, fingerprint: Seq<u8>, target: AccountId, now: BlockNumber },
}

impl Op {
    /// The fingerprint that the request names.
    pub open spec fn fingerprint(self) -> Seq<u8> {
        match self {
            Op::Create { fingerprint, .. } => fingerprint,
            Op::Revoke { fingerprint, .. } => fingerprint,
            Op::Transfer { fingerprint, .. } => fingerprint,
        }
    }
}

/// The step that a request asks for.
pub open spec fn step(claims: Map<Seq<u8>, Claim>, max: u32, op: Op) -> Outcome {
    match op {
        Op::Create { caller, fingerprint, now } => create_step(
            claims,
            max,
            caller,
            fingerprint,
            now,
        ),
        Op::Revoke { caller, fingerprint } => revoke_step(claims, caller, fingerprint),
        Op::Transfer { caller, fingerprint, target, now } => transfer_step(
            claims,
            caller,
            fingerprint,
            target,
            now,
        ),
    }
}

/// The mapping after a series of requests, taken in order from `claims`.
pub open spec fn run(claims: Map<Seq<u8>, Claim>, max: u32, ops: Seq<Op>) -> Map<Seq<u8>, Claim>
    decreases ops.len(),
{
    if ops.len() == 0 {
        claims
    } else {
        step(run(claims, max, ops.drop_last()), max, ops.last()).claims
    }
}

/// Decides whether a fingerprint of length `len` may be claimed.
pub fn check_create(max: u32, len: usize, claimed: bool) -> (r: Result<(), Error>)
    ensures
        r == create_verdict(max, len as nat, claimed),
{
    if len > max as usize {
        Err(Error::ClaimTooLarge)
    } else if claimed {
        Err(Error::AlreadyExists)
    } else {
        Ok(())
    }
}

/// Decides whether `caller` may revoke or transfer a claim, given its owner,
/// or that it has none.
pub fn check_owner(owner: Option<AccountId>, caller: AccountId) -> (r: Result<(), Error>)
    ensures
        r == owner_verdict(owner, caller),
{
    match owner {
        None => Err(Error::NotFound),
        Some(owner) => if owner == caller {
            Ok(())
        } else {
            Err(Error::NotOwner)
        },
    }
}

} // verus!
