use diary::directory::same_slot;
use diary::limits::{ACCOUNT_TAG_LEN, MAX_DERIVED_ALLOCATION};
use diary::{Diary, SlotId, DIARY_LEN, MAX_NAME_LENGHT, MAX_RECORDS, PUBKEY_BYTES, RECORD_LEN};

fn key(n: u16) -> SlotId {
    let mut k = [0u8; 32];
    k[0] = (n % 256) as u8;
    k[31] = (n / 256) as u8;
    k
}

fn diary_with(records: Vec<SlotId>) -> Diary {
    Diary { id: 1, name: "notes".to_string(), records, bump: 254 }
}

#[test]
fn the_limits_have_their_values() {
    assert_eq!(MAX_RECORDS, 318);
    assert_eq!(MAX_NAME_LENGHT, 20);
    assert_eq!(PUBKEY_BYTES, 32);
    assert_eq!(RECORD_LEN, 10_000_000);
    assert_eq!(DIARY_LEN, 10205);
}

#[test]
fn the_record_limit_is_the_most_the_allocation_holds() {
    assert!(ACCOUNT_TAG_LEN + DIARY_LEN <= MAX_DERIVED_ALLOCATION);
    assert!(ACCOUNT_TAG_LEN + DIARY_LEN + PUBKEY_BYTES > MAX_DERIVED_ALLOCATION);
}

#[test]
fn the_default_diary_is_empty() {
    let diary = Diary::default();
    assert_eq!(diary.id, 0);
    assert_eq!(diary.name, "");
    assert!(diary.records.is_empty());
    assert_eq!(diary.bump, 0);
}

#[test]
fn same_slot_compares_every_byte() {
    let a = [7u8; 32];
    assert!(same_slot(&a, &[7u8; 32]));
    for i in 0..32 {
        let mut b = a;
        b[i] = 8;
        assert!(!same_slot(&a, &b));
        assert!(!same_slot(&b, &a));
    }
}

#[test]
fn position_finds_the_first_entry() {
    let diary = diary_with(vec![key(1), key(2), key(3), key(2)]);
    assert_eq!(diary.position(&key(1)), Some(0));
    assert_eq!(diary.position(&key(2)), Some(1));
    assert_eq!(diary.position(&key(3)), Some(2));
}

#[test]
fn position_of_an_unlisted_slot_is_none() {
    let diary = diary_with(vec![key(1), key(2)]);
    assert_eq!(diary.position(&key(3)), None);
    assert_eq!(diary.position(&key(257)), None);
    assert_eq!(diary_with(Vec::new()).position(&key(1)), None);
}
