use snzup_subscription::{pda_pay, records_match, ErrorCode, Identity, Record};

#[test]
fn payment_moves_the_amount() {
    let mut from = 100;
    let mut to = 7;
    assert_eq!(pda_pay(&mut from, &mut to, 30), Ok(()));
    assert_eq!((from, to), (70, 37));
}

#[test]
fn payment_of_everything_empties_the_source() {
    let mut from = 100;
    let mut to = 0;
    assert_eq!(pda_pay(&mut from, &mut to, 100), Ok(()));
    assert_eq!((from, to), (0, 100));
}

#[test]
fn payment_of_nothing_changes_nothing() {
    let mut from = 0;
    let mut to = u64::MAX;
    assert_eq!(pda_pay(&mut from, &mut to, 0), Ok(()));
    assert_eq!((from, to), (0, u64::MAX));
}

#[test]
fn payment_beyond_the_source_is_refused() {
    let mut from = 29;
    let mut to = 7;
    assert_eq!(pda_pay(&mut from, &mut to, 30), Err(ErrorCode::InsufficientContractBalance));
    assert_eq!((from, to), (29, 7));
}

#[test]
fn payment_that_overflows_the_destination_is_refused() {
    let mut from = 100;
    let mut to = u64::MAX - 29;
    assert_eq!(pda_pay(&mut from, &mut to, 30), Err(ErrorCode::LamportMathError));
    assert_eq!((from, to), (100, u64::MAX - 29));
    let mut to = u64::MAX - 30;
    assert_eq!(pda_pay(&mut from, &mut to, 30), Ok(()));
    assert_eq!((from, to), (70, u64::MAX));
}

#[test]
fn payment_short_of_funds_is_reported_before_overflow() {
    let mut from = 1;
    let mut to = u64::MAX;
    assert_eq!(pda_pay(&mut from, &mut to, 2), Err(ErrorCode::InsufficientContractBalance));
}

#[test]
fn records_match_identities_place_by_place() {
    let a = Identity::new([1u8; 32]);
    let b = Identity::new([2u8; 32]);
    let of = |key: Identity| Record { key, owner: Identity::system_program(), lamports: 0 };
    assert!(records_match(&vec![], &vec![]));
    assert!(records_match(&vec![of(a), of(b)], &vec![a, b]));
    assert!(!records_match(&vec![of(b), of(a)], &vec![a, b]));
    assert!(!records_match(&vec![of(a)], &vec![a, b]));
    assert!(!records_match(&vec![of(a), of(b)], &vec![a]));
    let held = Record { key: b, owner: a, lamports: 0 };
    assert!(!records_match(&vec![of(a), held], &vec![a, b]));
}
