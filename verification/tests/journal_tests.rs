use journal_store::errors::JournalError;
use journal_store::journal::{CreateEntry, DeleteEntry, Journal, UpdateEntry};
use journal_store::space::{MESSAGE_OFFSET, RECORD_RENT, RECORD_SPACE};

fn key(fill: u8) -> [u8; 32] {
    [fill; 32]
}

fn create(
    j: &mut Journal,
    title: &[u8],
    message: &[u8],
    owner: [u8; 32],
    payer: [u8; 32],
    lamports: u64,
) -> (Result<(), JournalError>, u64) {
    let mut ctx = CreateEntry { owner, payer, payer_lamports: lamports };
    let r = j.create_journal_entry(&mut ctx, title.to_vec(), message.to_vec());
    (r, ctx.payer_lamports)
}

fn update(
    j: &mut Journal,
    title: &[u8],
    message: &[u8],
    owner: [u8; 32],
    signer: [u8; 32],
) -> Result<(), JournalError> {
    let ctx = UpdateEntry { owner, signer };
    j.update_journal_entry(&ctx, &title.to_vec(), message.to_vec())
}

fn delete(
    j: &mut Journal,
    title: &[u8],
    owner: [u8; 32],
    signer: [u8; 32],
    lamports: u64,
) -> (Result<(), JournalError>, u64) {
    let mut ctx = DeleteEntry { owner, signer, signer_lamports: lamports };
    let r = j.delete_journal_entry(&mut ctx, &title.to_vec());
    (r, ctx.signer_lamports)
}

#[test]
fn create_then_read_returns_fields() {
    let mut j = Journal::new();
    let a = key(1);
    let (r, rest) = create(&mut j, b"Day1", b"hello", a, a, 100_000);
    assert_eq!(r, Ok(()));
    assert_eq!(rest, 100_000 - RECORD_RENT);
    let st = j.read_journal_entry(&b"Day1".to_vec(), &a).unwrap();
    assert_eq!(st.owner, a);
    assert_eq!(st.title, b"Day1".to_vec());
    assert_eq!(st.message, b"hello".to_vec());
}

#[test]
fn create_twice_fails_already_exists() {
    let mut j = Journal::new();
    let a = key(1);
    let (r1, _) = create(&mut j, b"Day1", b"first", a, a, 100_000);
    assert_eq!(r1, Ok(()));
    let (r2, rest2) = create(&mut j, b"Day1", b"second", a, a, 100_000);
    assert_eq!(r2, Err(JournalError::AlreadyExists));
    // The failed create changed nothing: the balance it was offered is whole
    // and the stored record still carries the first message.
    assert_eq!(rest2, 100_000);
    let st = j.read_journal_entry(&b"Day1".to_vec(), &a).unwrap();
    assert_eq!(st.message, b"first".to_vec());
}

#[test]
fn update_replaces_message_only() {
    let mut j = Journal::new();
    let a = key(1);
    create(&mut j, b"Day1", b"hello", a, a, 100_000).0.unwrap();
    assert_eq!(update(&mut j, b"Day1", b"changed", a, a), Ok(()));
    let st = j.read_journal_entry(&b"Day1".to_vec(), &a).unwrap();
    assert_eq!(st.owner, a);
    assert_eq!(st.title, b"Day1".to_vec());
    assert_eq!(st.message, b"changed".to_vec());
}

#[test]
fn update_by_non_owner_fails_unauthorized() {
    let mut j = Journal::new();
    let a = key(1);
    let b = key(2);
    create(&mut j, b"Day1", b"hello", a, a, 100_000).0.unwrap();
    assert_eq!(update(&mut j, b"Day1", b"stolen", a, b), Err(JournalError::Unauthorized));
    let st = j.read_journal_entry(&b"Day1".to_vec(), &a).unwrap();
    assert_eq!(st.message, b"hello".to_vec());
}

#[test]
fn update_keeps_storage_size_and_zeroes_tail() {
    let mut j = Journal::new();
    let a = key(1);
    create(&mut j, b"Day1", b"a long initial message", a, a, 100_000).0.unwrap();
    let before = j.account_data(&b"Day1".to_vec(), &a).unwrap();
    assert_eq!(before.len(), RECORD_SPACE);
    // Shrink the message: the allocation keeps its full size and every byte
    // beyond the new message is zero — no residue of the longer one.
    assert_eq!(update(&mut j, b"Day1", b"tiny", a, a), Ok(()));
    let after = j.account_data(&b"Day1".to_vec(), &a).unwrap();
    assert_eq!(after.len(), RECORD_SPACE);
    assert_eq!(&after[MESSAGE_OFFSET..MESSAGE_OFFSET + 4], b"tiny");
    assert!(after[MESSAGE_OFFSET + 4..RECORD_SPACE].iter().all(|b| *b == 0));
}

#[test]
fn delete_then_create_yields_fresh_record() {
    let mut j = Journal::new();
    let a = key(1);
    create(&mut j, b"Day1", b"old secret", a, a, 100_000).0.unwrap();
    let (r, refunded) = delete(&mut j, b"Day1", a, a, 500);
    assert_eq!(r, Ok(()));
    assert_eq!(refunded, 500 + RECORD_RENT);
    assert_eq!(
        j.read_journal_entry(&b"Day1".to_vec(), &a),
        Err(JournalError::NotFound)
    );
    // The address is free again and the fresh record has no residue.
    let (r2, _) = create(&mut j, b"Day1", b"new", a, a, 100_000);
    assert_eq!(r2, Ok(()));
    let st = j.read_journal_entry(&b"Day1".to_vec(), &a).unwrap();
    assert_eq!(st.message, b"new".to_vec());
    let data = j.account_data(&b"Day1".to_vec(), &a).unwrap();
    assert_eq!(&data[MESSAGE_OFFSET..MESSAGE_OFFSET + 3], b"new");
    assert!(data[MESSAGE_OFFSET + 3..RECORD_SPACE].iter().all(|b| *b == 0));
}

#[test]
fn delete_by_non_owner_fails_unauthorized() {
    let mut j = Journal::new();
    let a = key(1);
    let b = key(2);
    create(&mut j, b"Day1", b"hello", a, a, 100_000).0.unwrap();
    let (r, lamports) = delete(&mut j, b"Day1", a, b, 500);
    assert_eq!(r, Err(JournalError::Unauthorized));
    assert_eq!(lamports, 500);
    assert!(j.read_journal_entry(&b"Day1".to_vec(), &a).is_ok());
}

#[test]
fn delete_absent_fails_not_found() {
    let mut j = Journal::new();
    let a = key(1);
    let (r, lamports) = delete(&mut j, b"Day1", a, a, 500);
    assert_eq!(r, Err(JournalError::NotFound));
    assert_eq!(lamports, 500);
}

#[test]
fn create_with_underfunded_payer_fails() {
    let mut j = Journal::new();
    let a = key(1);
    let (r, rest) = create(&mut j, b"Day1", b"hello", a, a, RECORD_RENT - 1);
    assert_eq!(r, Err(JournalError::InsufficientFunds));
    assert_eq!(rest, RECORD_RENT - 1);
    assert_eq!(
        j.read_journal_entry(&b"Day1".to_vec(), &a),
        Err(JournalError::NotFound)
    );
}

#[test]
fn over_long_fields_fail_capacity_exceeded() {
    let mut j = Journal::new();
    let a = key(1);
    let long_title = vec![b't'; 51];
    let long_message = vec![b'm'; 1001];
    assert_eq!(
        create(&mut j, &long_title, b"hello", a, a, 100_000).0,
        Err(JournalError::CapacityExceeded)
    );
    assert_eq!(
        create(&mut j, b"Day1", &long_message, a, a, 100_000).0,
        Err(JournalError::CapacityExceeded)
    );
    create(&mut j, b"Day1", b"hello", a, a, 100_000).0.unwrap();
    assert_eq!(
        update(&mut j, b"Day1", &long_message, a, a),
        Err(JournalError::CapacityExceeded)
    );
}

#[test]
fn over_long_seed_fails_derivation() {
    // 40 bytes is within the title cap but beyond the runtime's seed cap, so
    // the derivation search is exhausted and the failure surfaces as an error.
    let mut j = Journal::new();
    let a = key(1);
    let title = vec![b'x'; 40];
    assert_eq!(
        create(&mut j, &title, b"hello", a, a, 100_000).0,
        Err(JournalError::DerivationFailed)
    );
}

#[test]
fn records_are_separate_per_title_and_owner() {
    let mut j = Journal::new();
    let a = key(1);
    let b = key(2);
    create(&mut j, b"Day1", b"a-one", a, a, 100_000).0.unwrap();
    create(&mut j, b"Day2", b"a-two", a, a, 100_000).0.unwrap();
    create(&mut j, b"Day1", b"b-one", b, b, 100_000).0.unwrap();
    assert_eq!(j.read_journal_entry(&b"Day1".to_vec(), &a).unwrap().message, b"a-one".to_vec());
    assert_eq!(j.read_journal_entry(&b"Day2".to_vec(), &a).unwrap().message, b"a-two".to_vec());
    assert_eq!(j.read_journal_entry(&b"Day1".to_vec(), &b).unwrap().message, b"b-one".to_vec());
}

#[test]
fn payer_may_differ_from_owner() {
    let mut j = Journal::new();
    let owner = key(1);
    let payer = key(9);
    let (r, rest) = create(&mut j, b"Day1", b"hello", owner, payer, 20_000);
    assert_eq!(r, Ok(()));
    assert_eq!(rest, 20_000 - RECORD_RENT);
    // The record belongs to the owner, not to the payer.
    let st = j.read_journal_entry(&b"Day1".to_vec(), &owner).unwrap();
    assert_eq!(st.owner, owner);
    assert_eq!(update(&mut j, b"Day1", b"mine", owner, payer), Err(JournalError::Unauthorized));
    assert_eq!(update(&mut j, b"Day1", b"mine", owner, owner), Ok(()));
}

#[test]
fn full_lifecycle_scenario() {
    let mut j = Journal::new();
    let a = key(1);
    let (r, _) = create(&mut j, b"Day1", b"hello", a, a, 100_000);
    assert_eq!(r, Ok(()));
    let st = j.read_journal_entry(&b"Day1".to_vec(), &a).unwrap();
    assert_eq!((st.owner, st.title, st.message), (a, b"Day1".to_vec(), b"hello".to_vec()));

    assert_eq!(update(&mut j, b"Day1", b"hello world, much longer now", a, a), Ok(()));
    let st = j.read_journal_entry(&b"Day1".to_vec(), &a).unwrap();
    assert_eq!(st.message, b"hello world, much longer now".to_vec());
    // The allocation was already at its cap, so its size is unchanged.
    assert_eq!(j.account_data(&b"Day1".to_vec(), &a).unwrap().len(), RECORD_SPACE);

    assert_eq!(delete(&mut j, b"Day1", a, a, 0).0, Ok(()));
    assert_eq!(
        j.read_journal_entry(&b"Day1".to_vec(), &a),
        Err(JournalError::NotFound)
    );
    assert_eq!(update(&mut j, b"Day1", b"x", a, a), Err(JournalError::NotFound));
}
