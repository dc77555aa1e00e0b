use poe::{AccountId, BlockNumber, Claim, Config, Error, Event, Pallet};

const ALICE: AccountId = 1;
const BOB: AccountId = 2;
const CAROL: AccountId = 3;

const T1: BlockNumber = 10;
const T2: BlockNumber = 20;
const T3: BlockNumber = 30;

fn registry(max: u32) -> Pallet {
    Pallet::new(Config::new(max).expect("a positive maximum"))
}

fn hello() -> Vec<u8> {
    b"hello".to_vec()
}

fn claim(owner: AccountId, claimed_at: BlockNumber) -> Option<Claim> {
    Some(Claim { owner, claimed_at })
}

#[test]
fn a_new_registry_holds_no_claim() {
    let reg = registry(10);
    assert_eq!(reg.max_claim_length(), 10);
    assert_eq!(reg.proofs(b"hello"), None);
    assert_eq!(reg.proofs(b""), None);
}

#[test]
fn a_maximum_of_zero_is_no_configuration() {
    assert!(Config::new(0).is_none());
    assert_eq!(Config::new(1).map(|c| c.max_claim_length()), Some(1));
    assert_eq!(Config::new(u32::MAX).map(|c| c.max_claim_length()), Some(u32::MAX));
}

#[test]
fn alice_bob_and_carol() {
    let mut reg = registry(10);

    assert_eq!(reg.create_claim(ALICE, hello(), T1), Ok(Event::Created(ALICE, hello())));
    assert_eq!(reg.proofs(b"hello"), claim(ALICE, T1));

    assert_eq!(reg.create_claim(BOB, hello(), T2), Err(Error::AlreadyExists));
    assert_eq!(reg.proofs(b"hello"), claim(ALICE, T1));

    assert_eq!(reg.transfer_claim(BOB, hello(), CAROL, T3), Err(Error::NotOwner));
    assert_eq!(reg.proofs(b"hello"), claim(ALICE, T1));

    assert_eq!(
        reg.transfer_claim(ALICE, hello(), CAROL, T3),
        Ok(Event::Transferred(ALICE, CAROL, hello()))
    );
    assert_eq!(reg.proofs(b"hello"), claim(CAROL, T3));

    assert_eq!(reg.revoke_claim(ALICE, hello()), Err(Error::NotOwner));
    assert_eq!(reg.proofs(b"hello"), claim(CAROL, T3));

    assert_eq!(reg.revoke_claim(CAROL, hello()), Ok(Event::Revoked(CAROL, hello())));
    assert_eq!(reg.proofs(b"hello"), None);
}

#[test]
fn a_fingerprint_over_the_maximum_is_too_large() {
    let mut reg = registry(10);
    let long = b"hello world".to_vec();
    assert_eq!(long.len(), 11);
    assert_eq!(reg.create_claim(ALICE, long.clone(), T1), Err(Error::ClaimTooLarge));
    assert_eq!(reg.proofs(&long), None);
    assert_eq!(reg.revoke_claim(ALICE, long), Err(Error::NotFound));
}

#[test]
fn a_fingerprint_of_the_maximum_length_is_accepted() {
    let mut reg = registry(10);
    let full = b"0123456789".to_vec();
    assert_eq!(reg.create_claim(ALICE, full.clone(), T1), Ok(Event::Created(ALICE, full.clone())));
    assert_eq!(reg.proofs(&full), claim(ALICE, T1));
}

#[test]
fn the_empty_fingerprint_can_be_claimed() {
    let mut reg = registry(1);
    assert_eq!(reg.create_claim(BOB, Vec::new(), T1), Ok(Event::Created(BOB, Vec::new())));
    assert_eq!(reg.proofs(b""), claim(BOB, T1));
    assert_eq!(reg.create_claim(ALICE, vec![7, 7], T2), Err(Error::ClaimTooLarge));
    assert_eq!(reg.create_claim(ALICE, vec![7], T2), Ok(Event::Created(ALICE, vec![7])));
}

#[test]
fn a_second_claim_is_refused_and_the_first_stands() {
    let mut reg = registry(10);
    assert!(reg.create_claim(ALICE, hello(), T1).is_ok());
    assert_eq!(reg.create_claim(BOB, hello(), T2), Err(Error::AlreadyExists));
    assert_eq!(reg.create_claim(ALICE, hello(), T2), Err(Error::AlreadyExists));
    assert_eq!(reg.proofs(b"hello"), claim(ALICE, T1));
}

#[test]
fn an_unclaimed_fingerprint_is_not_found() {
    let mut reg = registry(10);
    assert_eq!(reg.revoke_claim(ALICE, hello()), Err(Error::NotFound));
    assert_eq!(reg.transfer_claim(ALICE, hello(), BOB, T1), Err(Error::NotFound));
    assert!(reg.create_claim(ALICE, b"other".to_vec(), T1).is_ok());
    assert_eq!(reg.revoke_claim(ALICE, hello()), Err(Error::NotFound));
    assert_eq!(reg.transfer_claim(ALICE, hello(), BOB, T2), Err(Error::NotFound));
    assert_eq!(reg.proofs(b"hello"), None);
    assert_eq!(reg.proofs(b"other"), claim(ALICE, T1));
}

#[test]
fn only_the_owner_revokes() {
    let mut reg = registry(10);
    assert!(reg.create_claim(ALICE, hello(), T1).is_ok());
    assert_eq!(reg.revoke_claim(BOB, hello()), Err(Error::NotOwner));
    assert_eq!(reg.proofs(b"hello"), claim(ALICE, T1));
}

#[test]
fn a_revoked_fingerprint_can_be_claimed_again() {
    let mut reg = registry(10);
    assert!(reg.create_claim(ALICE, hello(), T1).is_ok());
    assert_eq!(reg.revoke_claim(ALICE, hello()), Ok(Event::Revoked(ALICE, hello())));
    assert_eq!(reg.proofs(b"hello"), None);
    assert_eq!(reg.create_claim(BOB, hello(), T2), Ok(Event::Created(BOB, hello())));
    assert_eq!(reg.proofs(b"hello"), claim(BOB, T2));
}

#[test]
fn a_transfer_moves_the_claim_to_the_target() {
    let mut reg = registry(10);
    assert!(reg.create_claim(ALICE, hello(), T1).is_ok());
    assert_eq!(
        reg.transfer_claim(ALICE, hello(), BOB, T2),
        Ok(Event::Transferred(ALICE, BOB, hello()))
    );
    assert_eq!(reg.proofs(b"hello"), claim(BOB, T2));
    assert_eq!(reg.revoke_claim(ALICE, hello()), Err(Error::NotOwner));
    assert_eq!(reg.revoke_claim(BOB, hello()), Ok(Event::Revoked(BOB, hello())));
    assert_eq!(reg.proofs(b"hello"), None);
}

#[test]
fn a_transfer_to_oneself_renews_the_time() {
    let mut reg = registry(10);
    assert!(reg.create_claim(ALICE, hello(), T1).is_ok());
    assert_eq!(
        reg.transfer_claim(ALICE, hello(), ALICE, T2),
        Ok(Event::Transferred(ALICE, ALICE, hello()))
    );
    assert_eq!(reg.proofs(b"hello"), claim(ALICE, T2));
    assert_eq!(reg.revoke_claim(ALICE, hello()), Ok(Event::Revoked(ALICE, hello())));
}

#[test]
fn existence_is_checked_before_ownership() {
    let mut reg = registry(10);
    assert!(reg.create_claim(ALICE, hello(), T1).is_ok());
    assert_eq!(reg.revoke_claim(BOB, b"hellp".to_vec()), Err(Error::NotFound));
    assert_eq!(reg.transfer_claim(BOB, b"hell".to_vec(), CAROL, T2), Err(Error::NotFound));
    assert_eq!(reg.transfer_claim(BOB, hello(), CAROL, T2), Err(Error::NotOwner));
}

#[test]
fn other_claims_are_left_alone() {
    let mut reg = registry(4);
    assert!(reg.create_claim(ALICE, b"a".to_vec(), 1).is_ok());
    assert!(reg.create_claim(BOB, b"b".to_vec(), 2).is_ok());
    assert!(reg.create_claim(CAROL, b"c".to_vec(), 3).is_ok());
    assert!(reg.create_claim(ALICE, b"d".to_vec(), 4).is_ok());

    assert_eq!(reg.revoke_claim(BOB, b"b".to_vec()), Ok(Event::Revoked(BOB, b"b".to_vec())));
    assert_eq!(reg.proofs(b"a"), claim(ALICE, 1));
    assert_eq!(reg.proofs(b"b"), None);
    assert_eq!(reg.proofs(b"c"), claim(CAROL, 3));
    assert_eq!(reg.proofs(b"d"), claim(ALICE, 4));

    assert!(reg.transfer_claim(CAROL, b"c".to_vec(), BOB, 5).is_ok());
    assert_eq!(reg.proofs(b"a"), claim(ALICE, 1));
    assert_eq!(reg.proofs(b"c"), claim(BOB, 5));
    assert_eq!(reg.proofs(b"d"), claim(ALICE, 4));

    assert_eq!(reg.revoke_claim(ALICE, b"d".to_vec()), Ok(Event::Revoked(ALICE, b"d".to_vec())));
    assert_eq!(reg.revoke_claim(ALICE, b"a".to_vec()), Ok(Event::Revoked(ALICE, b"a".to_vec())));
    assert_eq!(reg.proofs(b"a"), None);
    assert_eq!(reg.proofs(b"c"), claim(BOB, 5));
    assert_eq!(reg.proofs(b"d"), None);
    assert_eq!(reg.revoke_claim(BOB, b"c".to_vec()), Ok(Event::Revoked(BOB, b"c".to_vec())));
    assert_eq!(reg.proofs(b"c"), None);
}

#[test]
fn fingerprints_are_told_apart_byte_by_byte() {
    let mut reg = registry(8);
    assert!(reg.create_claim(ALICE, vec![1, 2, 3], T1).is_ok());
    assert!(reg.create_claim(BOB, vec![1, 2], T2).is_ok());
    assert!(reg.create_claim(CAROL, vec![1, 2, 4], T3).is_ok());
    assert!(reg.create_claim(CAROL, vec![3, 2, 1], T3).is_ok());
    assert_eq!(reg.proofs(&[1, 2, 3]), claim(ALICE, T1));
    assert_eq!(reg.proofs(&[1, 2]), claim(BOB, T2));
    assert_eq!(reg.proofs(&[1, 2, 4]), claim(CAROL, T3));
    assert_eq!(reg.proofs(&[3, 2, 1]), claim(CAROL, T3));
    assert_eq!(reg.proofs(&[1]), None);
    assert_eq!(reg.proofs(&[1, 2, 3, 0]), None);
}

#[test]
fn the_configuration_stays_as_it_was_made() {
    let mut reg = registry(5);
    assert!(reg.create_claim(ALICE, hello(), T1).is_ok());
    assert_eq!(reg.max_claim_length(), 5);
    assert_eq!(reg.create_claim(ALICE, b"hello!".to_vec(), T1), Err(Error::ClaimTooLarge));
    assert!(reg.revoke_claim(ALICE, hello()).is_ok());
    assert_eq!(reg.max_claim_length(), 5);
}
