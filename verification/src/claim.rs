//! The data of the registry: claims, configuration, events and errors.

use vstd::prelude::*;

verus! {

/// An account: whoever calls the registry has been authenticated as one.
pub type AccountId = u64;

/// A point of the logical clock, as a block height.
pub type BlockNumber = u64;

/// What the registry records for a claimed fingerprint.
#[derive(Clone, Copy, Debug, PartialEq, Eq, Structural)]
pub struct Claim {
    /// The account that holds the claim.
    pub owner: AccountId,
    /// The block at which that account received it.
    pub claimed_at: BlockNumber,
}

/// Why an operation was refused. A refused operation changes nothing.
#[derive(Clone, Copy, Debug, PartialEq, Eq, Structural)]
pub enum Error {
    /// The fingerprint is longer than the configured maximum.
    ClaimTooLarge,
    /// The fingerprint is claimed already.
    AlreadyExists,
    /// The fingerprint is not claimed.
    NotFound,
    /// The caller does not own the claim.
    NotOwner,
}

/// What a successful operation reports. The fingerprint is a copy of its own.
#[derive(Debug, PartialEq, Eq)]
pub enum Event {
    /// The account claimed the fingerprint.
    Created(AccountId, Vec<u8>),
    /// The account gave up its claim on the fingerprint.
    Revoked(AccountId, Vec<u8>),
    /// The first account handed its claim on the fingerprint to the second.
    Transferred(AccountId, AccountId, Vec<u8>),
}

/// An event with its fingerprint as a sequence of bytes.
pub ghost enum EventView {
    Created(AccountId, Seq<u8>),
    Revoked(AccountId, Seq<u8>),
    Transferred(AccountId, AccountId, Seq<u8>),
}

impl View for Event {
    type V = EventView;

    open spec fn view(&self) -> EventView {
        match *self {
            Event::Created(who, fingerprint) => EventView::Created(who, fingerprint@),
            Event::Revoked(who, fingerprint) => EventView::Revoked(who, fingerprint@),
            Event::Transferred(from, to, fingerprint) => EventView::Transferred(
                from,
                to,
                fingerprint@,
            ),
        }
    }
}

/// What a result reports, with the event's fingerprint as a sequence.
pub open spec fn outcome_of(r: Result<Event, Error>) -> Result<EventView, Error> {
    match r {
        Ok(event) => Ok(event@),
        Err(e) => Err(e),
    }
}

/// The configuration of a registry: the greatest length of a fingerprint.
/// It is positive and fixed for the registry's lifetime.
#[derive(Clone, Copy, Debug, PartialEq, Eq)]
pub struct Config {
    max_claim_length: u32,
}

impl Config {
    /// The greatest length that a fingerprint may have.
    pub closed spec fn spec_max_claim_length(&self) -> u32 {
        self.max_claim_length
    }

    /// The maximum is positive.
    pub open spec fn wf(&self) -> bool {
        self.spec_max_claim_length() > 0
    }

    /// A configuration with the given maximum, which must be positive.
    pub fn new(max_claim_length: u32) -> (r: Option<Config>)
        ensures
            max_claim_length > 0 <==> r is Some,
            r matches Some(c) ==> c.wf() && c.spec_max_claim_length() == max_claim_length,
    {
        if max_claim_length > 0 {
            Some(Config { max_claim_length })
        } else {
            None
        }
    }

    /// The greatest length that a fingerprint may have.
    #[verifier::when_used_as_spec(spec_max_claim_length)]
    pub fn max_claim_length(&self) -> (r: u32)
        ensures
            r == self.spec_max_claim_length(),
    {
        self.max_claim_length
    }
}

} // verus!
