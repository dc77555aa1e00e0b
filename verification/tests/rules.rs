use poe::bytes::bytes_eq;
use poe::rules::{check_create, check_owner};
use poe::Error;

#[test]
fn the_length_is_checked_before_existence() {
    assert_eq!(check_create(10, 11, true), Err(Error::ClaimTooLarge));
    assert_eq!(check_create(10, 11, false), Err(Error::ClaimTooLarge));
    assert_eq!(check_create(10, 10, true), Err(Error::AlreadyExists));
    assert_eq!(check_create(10, 10, false), Ok(()));
    assert_eq!(check_create(10, 0, false), Ok(()));
    assert_eq!(check_create(10, 0, true), Err(Error::AlreadyExists));
}

#[test]
fn lengths_beyond_the_range_of_the_maximum_are_too_large() {
    assert_eq!(check_create(u32::MAX, u32::MAX as usize, false), Ok(()));
    assert_eq!(check_create(u32::MAX, usize::MAX, false), Err(Error::ClaimTooLarge));
    assert_eq!(check_create(1, 2, false), Err(Error::ClaimTooLarge));
}

#[test]
fn the_owner_and_nobody_else_may_dispose_of_a_claim() {
    assert_eq!(check_owner(None, 7), Err(Error::NotFound));
    assert_eq!(check_owner(Some(7), 7), Ok(()));
    assert_eq!(check_owner(Some(7), 8), Err(Error::NotOwner));
    assert_eq!(check_owner(Some(8), 7), Err(Error::NotOwner));
    assert_eq!(check_owner(Some(0), u64::MAX), Err(Error::NotOwner));
}

#[test]
fn byte_strings_are_equal_when_every_byte_is() {
    assert!(bytes_eq(b"", b""));
    assert!(bytes_eq(b"hello", b"hello"));
    assert!(!bytes_eq(b"hello", b"hellp"));
    assert!(!bytes_eq(b"hello", b"jello"));
    assert!(!bytes_eq(b"hello", b"hell"));
    assert!(!bytes_eq(b"", b"h"));
}
