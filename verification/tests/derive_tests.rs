use journal_store::address::{authorize, program_id, pubkey_eq};
use journal_store::errors::JournalError;
use std::str::FromStr;

fn pda(title: &Vec<u8>, owner: &[u8; 32]) -> Result<([u8; 32], u8), JournalError> {
    journal_store::address::derive(title, owner)
}

fn key(fill: u8) -> [u8; 32] {
    [fill; 32]
}

#[test]
fn derive_is_deterministic() {
    let owner = key(7);
    let title = b"Day1".to_vec();
    let first = pda(&title, &owner).unwrap();
    let second = pda(&title, &owner).unwrap();
    assert_eq!(first.0, second.0);
    assert_eq!(first.1, second.1);
}

#[test]
fn derive_differs_for_distinct_titles() {
    let owner = key(7);
    let a = pda(&b"Day1".to_vec(), &owner).unwrap();
    let b = pda(&b"Day2".to_vec(), &owner).unwrap();
    assert_ne!(a.0, b.0);
}

#[test]
fn derive_differs_for_distinct_owners() {
    let title = b"Day1".to_vec();
    let a = pda(&title, &key(7)).unwrap();
    let b = pda(&title, &key(8)).unwrap();
    assert_ne!(a.0, b.0);
}

#[test]
fn derive_matches_runtime_search() {
    let owner = key(9);
    let title = b"expected".to_vec();
    let got = pda(&title, &owner).unwrap();

    let id = anchor_lang::prelude::Pubkey::from_str("DY52aoULZMuua7QNA2ezDrrusCGhHrEq1H6tLn2by4G6")
        .unwrap();
    assert_eq!(id.to_bytes(), program_id());
    let (expected, bump) = anchor_lang::prelude::Pubkey::try_find_program_address(
        &[title.as_slice(), owner.as_slice()],
        &id,
    )
    .unwrap();
    assert_eq!(got.0, expected.to_bytes());
    assert_eq!(got.1, bump);
}

#[test]
fn derive_fails_for_over_long_seed() {
    // A seed longer than the runtime's 32-byte seed cap exhausts the search.
    let owner = key(7);
    let title = vec![b'x'; 40];
    assert_eq!(pda(&title, &owner), Err(JournalError::DerivationFailed));
}

#[test]
fn authorize_compares_identities() {
    assert!(authorize(&key(7), &key(7)));
    assert!(!authorize(&key(7), &key(8)));
    assert!(pubkey_eq(&key(0), &key(0)));
    let mut other = key(0);
    other[31] = 1;
    assert!(!pubkey_eq(&key(0), &other));
}
