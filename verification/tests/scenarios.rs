use medical_records::{Identity, MedicalRecord, RecordInput, RecordStore};

fn identity(bytes: &[u8]) -> Identity {
    Identity::new(bytes.to_vec()).expect("at most 29 bytes")
}

fn input(record_type: &str, content: &str) -> RecordInput {
    RecordInput { record_type: record_type.to_string(), content: content.to_string() }
}

fn ids(records: &[MedicalRecord]) -> Vec<String> {
    records.iter().map(|r| r.id.clone()).collect()
}

#[test]
fn created_record_is_listed_for_its_owner() {
    let patient = identity(&[1, 2, 3]);
    let mut store = RecordStore::new();
    let x = store.add_record(&patient, input("diagnosis", "flu"), 1_700_000_000);

    let mine = store.get_my_records(&patient);
    assert_eq!(mine.len(), 1);
    assert_eq!(mine[0].id, x);
    assert_eq!(mine[0].content, "flu");
    assert_eq!(mine[0].record_type, "diagnosis");
    assert_eq!(mine[0].patient_id, patient);
    assert_eq!(mine[0].timestamp, 1_700_000_000);
    assert!(mine[0].authorized_providers.is_empty());
    assert_eq!(store.len(), 1);
}

#[test]
fn shared_record_is_listed_for_the_provider() {
    let patient = identity(&[1]);
    let provider = identity(&[2]);
    let mut store = RecordStore::new();
    let x = store.add_record(&patient, input("diagnosis", "flu"), 10);

    assert!(store.get_shared_records(&provider).is_empty());
    assert!(store.share_with_provider(&patient, x.clone(), provider.clone()));

    let shared = store.get_shared_records(&provider);
    assert_eq!(ids(&shared), vec![x.clone()]);
    assert_eq!(shared[0].authorized_providers, vec![provider.clone()]);
    assert_eq!(shared[0].content, "flu");
    assert!(store.get_my_records(&provider).is_empty());
}

#[test]
fn share_by_a_stranger_is_refused() {
    let patient = identity(&[1]);
    let provider = identity(&[2]);
    let stranger = identity(&[3]);
    let mut store = RecordStore::new();
    let x = store.add_record(&patient, input("diagnosis", "flu"), 10);

    let before = ids(&store.get_shared_records(&provider));
    assert!(!store.share_with_provider(&stranger, x.clone(), provider.clone()));
    assert_eq!(ids(&store.get_shared_records(&provider)), before);
    assert!(store.get_my_records(&patient)[0].authorized_providers.is_empty());

    assert!(store.share_with_provider(&patient, x.clone(), provider.clone()));
    let other = identity(&[4]);
    assert!(!store.share_with_provider(&stranger, x.clone(), other.clone()));
    assert_eq!(ids(&store.get_shared_records(&provider)), vec![x.clone()]);
    assert!(store.get_shared_records(&other).is_empty());
}

#[test]
fn revoked_record_is_no_longer_listed() {
    let patient = identity(&[1]);
    let provider = identity(&[2]);
    let mut store = RecordStore::new();
    let x = store.add_record(&patient, input("diagnosis", "flu"), 10);
    assert!(store.share_with_provider(&patient, x.clone(), provider.clone()));
    assert_eq!(store.get_shared_records(&provider).len(), 1);

    assert!(store.revoke_access(&patient, x.clone(), provider.clone()));
    assert!(store.get_shared_records(&provider).is_empty());
    let mine = store.get_my_records(&patient);
    assert_eq!(ids(&mine), vec![x]);
    assert!(mine[0].authorized_providers.is_empty());
}

#[test]
fn share_of_a_missing_record_is_refused() {
    let patient = identity(&[1]);
    let provider = identity(&[2]);
    let mut store = RecordStore::new();
    assert!(!store.share_with_provider(&patient, "no such record".to_string(), provider.clone()));
    assert!(!store.revoke_access(&patient, "no such record".to_string(), provider.clone()));
    assert_eq!(store.len(), 0);

    let x = store.add_record(&patient, input("diagnosis", "flu"), 10);
    let mut near = x.clone();
    near.push('0');
    assert!(!store.share_with_provider(&patient, near, provider.clone()));
    assert!(!store.share_with_provider(&patient, String::new(), provider.clone()));
    assert!(store.get_shared_records(&provider).is_empty());
}

#[test]
fn revoke_by_a_stranger_is_refused() {
    let patient = identity(&[1]);
    let provider = identity(&[2]);
    let stranger = identity(&[3]);
    let mut store = RecordStore::new();
    let x = store.add_record(&patient, input("lab_result", "ok"), 10);
    assert!(store.share_with_provider(&patient, x.clone(), provider.clone()));

    assert!(!store.revoke_access(&stranger, x.clone(), provider.clone()));
    assert!(!store.revoke_access(&provider, x.clone(), provider.clone()));
    assert_eq!(ids(&store.get_shared_records(&provider)), vec![x]);
}

#[test]
fn empty_type_and_content_are_accepted() {
    let patient = identity(&[]);
    let mut store = RecordStore::new();
    let x = store.add_record(&patient, input("", ""), 0);
    assert_eq!(x, "aaaaa-aa__0");
    let mine = store.get_my_records(&patient);
    assert_eq!(mine.len(), 1);
    assert_eq!(mine[0].record_type, "");
    assert_eq!(mine[0].content, "");
}

#[test]
fn owner_listed_as_provider_appears_in_both_lists() {
    let patient = identity(&[9, 9]);
    let mut store = RecordStore::new();
    let x = store.add_record(&patient, input("prescription", "rest"), 5);
    assert!(store.share_with_provider(&patient, x.clone(), patient.clone()));
    assert_eq!(ids(&store.get_my_records(&patient)), vec![x.clone()]);
    assert_eq!(ids(&store.get_shared_records(&patient)), vec![x]);
}

#[test]
fn same_owner_type_and_time_replace_the_record() {
    let patient = identity(&[1]);
    let provider = identity(&[2]);
    let mut store = RecordStore::new();
    let first = store.add_record(&patient, input("diagnosis", "flu"), 10);
    let other = store.add_record(&patient, input("prescription", "rest"), 10);
    assert!(store.share_with_provider(&patient, first.clone(), provider.clone()));

    let second = store.add_record(&patient, input("diagnosis", "cold"), 10);
    assert_eq!(first, second);
    assert_eq!(store.len(), 2);
    let mine = store.get_my_records(&patient);
    assert_eq!(ids(&mine), vec![first, other]);
    assert_eq!(mine[0].content, "cold");
    assert!(mine[0].authorized_providers.is_empty());
    assert!(store.get_shared_records(&provider).is_empty());
}

#[test]
fn listed_records_are_snapshots() {
    let patient = identity(&[1]);
    let provider = identity(&[2]);
    let mut store = RecordStore::new();
    let x = store.add_record(&patient, input("diagnosis", "flu"), 10);
    let mut before = store.get_my_records(&patient);
    assert!(store.share_with_provider(&patient, x, provider.clone()));
    assert!(before[0].authorized_providers.is_empty());

    before[0].content = "changed".to_string();
    before[0].grant(identity(&[7]));
    let now = store.get_my_records(&patient);
    assert_eq!(now[0].content, "flu");
    assert_eq!(now[0].authorized_providers, vec![provider]);
}

#[test]
fn records_are_listed_in_the_order_of_creation() {
    let alice = identity(&[1]);
    let bob = identity(&[2]);
    let carol = identity(&[3]);
    let mut store = RecordStore::new();
    let a1 = store.add_record(&alice, input("diagnosis", "a1"), 1);
    let b1 = store.add_record(&bob, input("diagnosis", "b1"), 2);
    let a2 = store.add_record(&alice, input("lab_result", "a2"), 3);
    let b2 = store.add_record(&bob, input("prescription", "b2"), 4);
    assert!(store.share_with_provider(&bob, b2.clone(), carol.clone()));
    assert!(store.share_with_provider(&alice, a1.clone(), carol.clone()));
    assert!(store.share_with_provider(&alice, a2.clone(), bob.clone()));

    assert_eq!(ids(&store.get_my_records(&alice)), vec![a1.clone(), a2.clone()]);
    assert_eq!(ids(&store.get_my_records(&bob)), vec![b1, b2.clone()]);
    assert!(store.get_my_records(&carol).is_empty());
    assert_eq!(ids(&store.get_shared_records(&carol)), vec![a1, b2]);
    assert_eq!(ids(&store.get_shared_records(&bob)), vec![a2]);
    assert!(store.get_shared_records(&alice).is_empty());
    assert_eq!(store.len(), 4);
}
