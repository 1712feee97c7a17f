use medical_records::identity::{Identity, MAX_IDENTITY_BYTES};
use medical_records::text::{compose_record_id, decimal_text};
use medical_records::{greet, RecordInput, RecordStore};

#[test]
fn identity_takes_at_most_twenty_nine_bytes() {
    assert_eq!(MAX_IDENTITY_BYTES, 29);
    assert!(Identity::new(vec![]).is_some());
    assert!(Identity::new(vec![7; 29]).is_some());
    assert!(Identity::new(vec![7; 30]).is_none());
    assert!(Identity::new(vec![0; 1000]).is_none());
    let p = Identity::new(vec![1, 2, 3]).unwrap();
    assert_eq!(p.as_slice(), &[1, 2, 3]);
}

#[test]
fn identities_are_equal_by_their_bytes() {
    let a = Identity::new(vec![1, 2, 3]).unwrap();
    let b = Identity::new(vec![1, 2, 3]).unwrap();
    let c = Identity::new(vec![1, 2]).unwrap();
    let d = Identity::new(vec![1, 2, 4]).unwrap();
    let e = Identity::new(vec![1, 2, 3, 0]).unwrap();
    assert_eq!(a, b);
    assert_eq!(a, a.clone());
    assert_ne!(a, c);
    assert_ne!(a, d);
    assert_ne!(a, e);
}

#[test]
fn identity_text_is_the_principal_text() {
    let management = Identity::new(vec![]).unwrap();
    assert_eq!(management.to_text(), "aaaaa-aa");
    let anonymous = Identity::new(vec![4]).unwrap();
    assert_eq!(anonymous.to_text(), "2vxsx-fae");
    let canister = Identity::new(vec![0xef, 0xcd, 0xab, 0, 0, 0, 0, 0, 1]).unwrap();
    assert_eq!(canister.to_text(), "2chl6-4hpzw-vqaaa-aaaaa-c");

    let longest = vec![0xa5; 29];
    let expected = candid::Principal::from_slice(&longest).to_text();
    assert_eq!(Identity::new(longest).unwrap().to_text(), expected);
}

#[test]
fn decimal_text_of_numbers() {
    assert_eq!(decimal_text(0), "0");
    assert_eq!(decimal_text(7), "7");
    assert_eq!(decimal_text(9), "9");
    assert_eq!(decimal_text(10), "10");
    assert_eq!(decimal_text(1234567890), "1234567890");
    assert_eq!(decimal_text(1_000_000), "1000000");
    assert_eq!(decimal_text(u64::MAX), "18446744073709551615");
    for n in [0u64, 5, 99, 100, 101, 4096, 1_700_000_000_000_000_000] {
        assert_eq!(decimal_text(n), n.to_string());
    }
}

#[test]
fn record_id_joins_owner_type_and_time() {
    assert_eq!(compose_record_id("2vxsx-fae", "diagnosis", 1700000000), "2vxsx-fae_diagnosis_1700000000");
    assert_eq!(compose_record_id("", "", 0), "__0");
    assert_eq!(compose_record_id("a_b", "lab_result", 12), "a_b_lab_result_12");
}

#[test]
fn add_record_derives_the_id_from_the_caller() {
    let anonymous = Identity::new(vec![4]).unwrap();
    let mut store = RecordStore::new();
    let id = store.add_record(
        &anonymous,
        RecordInput { record_type: "diagnosis".to_string(), content: "flu".to_string() },
        1_700_000_000_000_000_000,
    );
    assert_eq!(id, "2vxsx-fae_diagnosis_1700000000000000000");

    let canister = Identity::new(vec![0xef, 0xcd, 0xab, 0, 0, 0, 0, 0, 1]).unwrap();
    let id = store.add_record(
        &canister,
        RecordInput { record_type: "lab_result".to_string(), content: String::new() },
        u64::MAX,
    );
    assert_eq!(id, "2chl6-4hpzw-vqaaa-aaaaa-c_lab_result_18446744073709551615");
    assert_eq!(store.get_my_records(&canister)[0].id, id);
}

#[test]
fn greeting_names_the_caller() {
    assert_eq!(greet("Ada".to_string()), "Hello, Ada! Welcome to the Medical Records DApp.");
    assert_eq!(greet(String::new()), "Hello, ! Welcome to the Medical Records DApp.");
}

#[test]
fn record_input_is_cloned_field_by_field() {
    let input = RecordInput { record_type: "diagnosis".to_string(), content: "flu".to_string() };
    let copy = input.clone();
    assert_eq!(copy.record_type, "diagnosis");
    assert_eq!(copy.content, "flu");
}
