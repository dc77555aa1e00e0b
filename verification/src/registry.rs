//! The registry itself.

use vstd::prelude::*;
use vstd::slice::slice_to_vec;
use crate::bytes::bytes_eq;
use crate::claim::{outcome_of, AccountId, BlockNumber, Claim, Config, Error, Event};
use crate::rules::{
    bounded, check_create, check_owner, create_step, lookup, owner_of, revoke_step, transfer_step,
    Outcome,
};

verus! {

/// One claimed fingerprint with its claim.
struct Entry {
    fingerprint: Vec<u8>,
    claim: Claim,
}

/// The registry, as a runtime holds it among its pallets: the claims that
/// are in force, and the configuration they were admitted under.
pub struct Pallet {
    config: Config,
    entries: Vec<Entry>,
}

/// The fingerprint of the entry at `i`.
spec fn key_at(entries: Seq<Entry>, i: int) -> Seq<u8> {
    entries[i].fingerprint@
}

/// The entry at `i` exists and is that of `fingerprint`.
spec fn holds(entries: Seq<Entry>, i: int, fingerprint: Seq<u8>) -> bool {
    0 <= i < entries.len() && key_at(entries, i) == fingerprint
}

/// No fingerprint has two entries.
spec fn distinct(entries: Seq<Entry>) -> bool {
    forall|i: int, j: int|
        0 <= i < entries.len() && 0 <= j < entries.len() && #[trigger] key_at(entries, i)
            == #[trigger] key_at(entries, j) ==> i == j
}

/// The mapping that the entries stand for.
spec fn claims_of(entries: Seq<Entry>) -> Map<Seq<u8>, Claim> {
    Map::new(
        |fingerprint: Seq<u8>| exists|i: int| holds(entries, i, fingerprint),
        |fingerprint: Seq<u8>| entries[choose|i: int| holds(entries, i, fingerprint)].claim,
    )
}

/// With distinct fingerprints, an entry's claim is what the mapping gives.
proof fn lemma_entry_in_claims(entries: Seq<Entry>, i: int)
    requires
        distinct(entries),
        0 <= i < entries.len(),
    ensures
        claims_of(entries).contains_key(key_at(entries, i)),
        claims_of(entries)[key_at(entries, i)] == entries[i].claim,
{
    let fingerprint = key_at(entries, i);
    assert(holds(entries, i, fingerprint));
    let j = choose|j: int| holds(entries, j, fingerprint);
    assert(holds(entries, j, fingerprint));
    assert(i == j);
}

/// A new entry for an unclaimed fingerprint adds its claim to the mapping.
proof fn lemma_push(before: Seq<Entry>, after: Seq<Entry>)
    requires
        distinct(before),
        after.len() == before.len() + 1,
        after.drop_last() == before,
        !claims_of(before).contains_key(key_at(after, after.len() - 1)),
    ensures
        distinct(after),
        claims_of(after) == claims_of(before).insert(
            key_at(after, after.len() - 1),
            after.last().claim,
        ),
{
    let n = before.len() as int;
    let added = key_at(after, n);
    assert forall|i: int| 0 <= i < n implies key_at(after, i) == key_at(before, i) && after[i]
        == before[i] by {
        assert(before[i] == after.drop_last()[i]);
    }
    assert forall|i: int| 0 <= i < n implies key_at(after, i) != added by {
        assert(holds(before, i, key_at(before, i)));
    }
    assert(distinct(after));
    let target = claims_of(before).insert(added, after.last().claim);
    assert forall|k: Seq<u8>| claims_of(after).contains_key(k) <==> target.contains_key(k) by {
        if claims_of(after).contains_key(k) {
            let i = choose|i: int| holds(after, i, k);
            if i < n {
                assert(holds(before, i, k));
            }
        }
        if claims_of(before).contains_key(k) {
            let i = choose|i: int| holds(before, i, k);
            assert(holds(after, i, k));
        }
        if k == added {
            assert(holds(after, n, k));
        }
    }
    assert forall|k: Seq<u8>| claims_of(after).contains_key(k) implies claims_of(after)[k]
        == target[k] by {
        let i = choose|i: int| holds(after, i, k);
        lemma_entry_in_claims(after, i);
        if i < n {
            lemma_entry_in_claims(before, i);
        }
    }
    assert(claims_of(after) =~= target);
}

/// Taking an entry out, with the last one moved into its place, takes its
/// fingerprint out of the mapping.
proof fn lemma_swap_remove(before: Seq<Entry>, after: Seq<Entry>, at: int)
    requires
        distinct(before),
        0 <= at < before.len(),
        after == before.update(at, before.last()).drop_last(),
    ensures
        distinct(after),
        claims_of(after) == claims_of(before).remove(key_at(before, at)),
{
    let n = after.len() as int;
    let gone = key_at(before, at);
    // where the entry at `i` of `after` stood in `before`
    let origin = |i: int| if i == at { n } else { i };
    assert forall|i: int| 0 <= i < n implies after[i] == before[origin(i)] && key_at(after, i)
        == key_at(before, origin(i)) && origin(i) != at && 0 <= origin(i) <= n by {}
    assert(distinct(after)) by {
        assert forall|i: int, j: int|
            0 <= i < n && 0 <= j < n && key_at(after, i) == key_at(after, j) implies i == j by {
            assert(key_at(before, origin(i)) == key_at(before, origin(j)));
        }
    }
    let target = claims_of(before).remove(gone);
    assert forall|k: Seq<u8>| claims_of(after).contains_key(k) <==> target.contains_key(k) by {
        if claims_of(after).contains_key(k) {
            let i = choose|i: int| holds(after, i, k);
            assert(holds(before, origin(i), k));
            assert(key_at(before, origin(i)) != key_at(before, at));
        }
        if target.contains_key(k) {
            let j = choose|j: int| holds(before, j, k);
            assert(j != at);
            let i = if j == n { at } else { j };
            assert(holds(after, i, k));
        }
    }
    assert forall|k: Seq<u8>| claims_of(after).contains_key(k) implies claims_of(after)[k]
        == target[k] by {
        let i = choose|i: int| holds(after, i, k);
        lemma_entry_in_claims(after, i);
        lemma_entry_in_claims(before, origin(i));
    }
    assert(claims_of(after) =~= target);
}

/// Replacing an entry by one for the same fingerprint replaces its claim in
/// the mapping.
proof fn lemma_set(before: Seq<Entry>, after: Seq<Entry>, at: int)
    requires
        distinct(before),
        0 <= at < before.len(),
        after.len() == before.len(),
        forall|i: int| 0 <= i < before.len() && i != at ==> after[i] == before[i],
        key_at(after, at) == key_at(before, at),
    ensures
        distinct(after),
        claims_of(after) == claims_of(before).insert(key_at(before, at), after[at].claim),
{
    assert forall|i: int| 0 <= i < before.len() implies key_at(after, i) == key_at(before, i) by {}
    assert(distinct(after)) by {
        assert forall|i: int, j: int|
            0 <= i < after.len() && 0 <= j < after.len() && key_at(after, i) == key_at(
                after,
                j,
            ) implies i == j by {
            assert(key_at(before, i) == key_at(before, j));
        }
    }
    let target = claims_of(before).insert(key_at(before, at), after[at].claim);
    assert forall|k: Seq<u8>| claims_of(after).contains_key(k) <==> target.contains_key(k) by {
        if claims_of(after).contains_key(k) {
            let i = choose|i: int| holds(after, i, k);
            assert(holds(before, i, k));
        }
        if claims_of(before).contains_key(k) {
            let i = choose|i: int| holds(before, i, k);
            assert(holds(after, i, k));
        }
        if k == key_at(before, at) {
            assert(holds(after, at, k));
        }
    }
    assert forall|k: Seq<u8>| claims_of(after).contains_key(k) implies claims_of(after)[k]
        == target[k] by {
        let i = choose|i: int| holds(after, i, k);
        lemma_entry_in_claims(after, i);
        if i != at {
            lemma_entry_in_claims(before, i);
        }
    }
    assert(claims_of(after) =~= target);
}

impl View for Pallet {
    type V = Map<Seq<u8>, Claim>;

    /// The claims in force, by fingerprint.
    closed spec fn view(&self) -> Map<Seq<u8>, Claim> {
        claims_of(self.entries@)
    }
}

impl Pallet {
    /// The configuration of this registry.
    pub closed spec fn config(&self) -> Config {
        self.config
    }

    /// The greatest length of a fingerprint in this registry.
    pub open spec fn max(&self) -> u32 {
        self.config().spec_max_claim_length()
    }

    /// Each claimed fingerprint is recorded once.
    pub closed spec fn recorded_once(&self) -> bool {
        distinct(self.entries@)
    }

    /// What holds of every registry: the configured maximum is positive, and
    /// no claimed fingerprint is longer than it.
    pub open spec fn wf(&self) -> bool {
        &&& self.config().wf()
        &&& self.recorded_once()
        &&& bounded(self@, self.max())
    }

    /// A registry without claims.
    pub fn new(config: Config) -> (r: Pallet)
        requires
            config.wf(),
        ensures
            r.wf(),
            r.config() == config,
            r@ == Map::<Seq<u8>, Claim>::empty(),
    {
        let r = Pallet { config, entries: Vec::new() };
        assert(r@ =~= Map::<Seq<u8>, Claim>::empty());
        r
    }

    /// The greatest length of a fingerprint in this registry.
    pub fn max_claim_length(&self) -> (r: u32)
        ensures
            r == self.max(),
    {
        self.config.max_claim_length()
    }

    /// Where the entry of `fingerprint` stands, if it has one.
    fn find(&self, fingerprint: &[u8]) -> (r: Option<usize>)
        ensures
            match r {
                Some(i) => holds(self.entries@, i as int, fingerprint@),
                None => forall|j: int| !holds(self.entries@, j, fingerprint@),
            },
    {
        let mut i: usize = 0;
        while i < self.entries.len()
            invariant
                i <= self.entries@.len(),
                forall|j: int| 0 <= j < i ==> !holds(self.entries@, j, fingerprint@),
            decreases self.entries@.len() - i,
        {
            if bytes_eq(self.entries[i].fingerprint.as_slice(), fingerprint) {
                return Some(i);
            }
            i += 1;
        }
        None
    }

    /// The claim on `fingerprint`, if it is claimed.
    pub fn proofs(&self, fingerprint: &[u8]) -> (r: Option<Claim>)
        requires
            self.wf(),
        ensures
            r == lookup(self@, fingerprint@),
    {
        match self.find(fingerprint) {
            Some(i) => {
                proof {
                    lemma_entry_in_claims(self.entries@, i as int);
                }
                Some(self.entries[i].claim)
            },
            None => None,
        }
    }

    /// Claims `fingerprint` for `caller` at time `now`.
    ///
    /// Refused with `ClaimTooLarge` where the fingerprint is longer than the
    /// configured maximum, else with `AlreadyExists` where it is claimed
    /// already. A refusal leaves the registry as it was.
    pub fn create_claim(
        &mut self,
        caller: AccountId,
        fingerprint: Vec<u8>,
        now: BlockNumber,
    ) -> (r: Result<Event, Error>)
        requires
            old(self).wf(),
        ensures
            final(self).wf(),
            final(self).config() == old(self).config(),
            (Outcome { claims: final(self)@, result: outcome_of(r) }) == create_step(
                old(self)@,
                old(self).max(),
                caller,
                fingerprint@,
                now,
            ),
            r is Ok <==> fingerprint@.len() <= old(self).max() && !old(self)@.contains_key(
                fingerprint@,
            ),
            r is Err ==> final(self)@ == old(self)@,
            fingerprint@.len() > old(self).max() ==> r == Err::<Event, Error>(Error::ClaimTooLarge),
    {
        let claimed = self.find(fingerprint.as_slice()).is_some();
        match check_create(self.config.max_claim_length(), fingerprint.len(), claimed) {
            Err(e) => Err(e),
            Ok(_) => {
                let claim = Claim { owner: caller, claimed_at: now };
                let key = slice_to_vec(fingerprint.as_slice());
                self.entries.push(Entry { fingerprint: key, claim });
                proof {
                    assert(self.entries@.drop_last() =~= old(self).entries@);
                    lemma_push(old(self).entries@, self.entries@);
                }
                Ok(Event::Created(caller, fingerprint))
            },
        }
    }

    /// Removes the claim of `caller` on `fingerprint`.
    ///
    /// Refused with `NotFound` where the fingerprint is not claimed, else
    /// with `NotOwner` where another account owns the claim. A refusal
    /// leaves the registry as it was.
    pub fn revoke_claim(&mut self, caller: AccountId, fingerprint: Vec<u8>) -> (r: Result<
        Event,
        Error,
    >)
        requires
            old(self).wf(),
        ensures
            final(self).wf(),
            final(self).config() == old(self).config(),
            (Outcome { claims: final(self)@, result: outcome_of(r) }) == revoke_step(
                old(self)@,
                caller,
                fingerprint@,
            ),
            r is Ok <==> owner_of(old(self)@, fingerprint@) == Some(caller),
            r is Err ==> final(self)@ == old(self)@,
            !old(self)@.contains_key(fingerprint@) ==> r == Err::<Event, Error>(Error::NotFound),
    {
        let found = self.find(fingerprint.as_slice());
        let owner = match found {
            Some(i) => {
                proof {
                    lemma_entry_in_claims(self.entries@, i as int);
                }
                Some(self.entries[i].claim.owner)
            },
            None => None,
        };
        match check_owner(owner, caller) {
            Err(e) => Err(e),
            Ok(_) => {
                let i = found.unwrap();
                let _ = self.entries.swap_remove(i);
                proof {
                    lemma_swap_remove(old(self).entries@, self.entries@, i as int);
                }
                Ok(Event::Revoked(caller, fingerprint))
            },
        }
    }

    /// Hands the claim of `caller` on `fingerprint` to `target`, at time `now`.
    ///
    /// Refused as `revoke_claim` is. The target may be the caller: the claim
    /// then keeps its owner and has its time renewed.
    pub fn transfer_claim(
        &mut self,
        caller: AccountId,
        fingerprint: Vec<u8>,
        target: AccountId,
        now: BlockNumber,
    ) -> (r: Result<Event, Error>)
        requires
            old(self).wf(),
        ensures
            final(self).wf(),
            final(self).config() == old(self).config(),
            (Outcome { claims: final(self)@, result: outcome_of(r) }) == transfer_step(
                old(self)@,
                caller,
                fingerprint@,
                target,
                now,
            ),
            r is Ok <==> owner_of(old(self)@, fingerprint@) == Some(caller),
            r is Err ==> final(self)@ == old(self)@,
            !old(self)@.contains_key(fingerprint@) ==> r == Err::<Event, Error>(Error::NotFound),
    {
        let found = self.find(fingerprint.as_slice());
        let owner = match found {
            Some(i) => {
                proof {
                    lemma_entry_in_claims(self.entries@, i as int);
                }
                Some(self.entries[i].claim.owner)
            },
            None => None,
        };
        match check_owner(owner, caller) {
            Err(e) => Err(e),
            Ok(_) => {
                let i = found.unwrap();
                let claim = Claim { owner: target, claimed_at: now };
                let key = slice_to_vec(fingerprint.as_slice());
                self.entries.set(i, Entry { fingerprint: key, claim });
                proof {
                    lemma_set(old(self).entries@, self.entries@, i as int);
                }
                Ok(Event::Transferred(caller, target, fingerprint))
            },
        }
    }
}

} // verus!
