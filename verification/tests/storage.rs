use crud_records::{DataKey, Identity, Record, Storage};

fn record(id: u32, name: &str) -> Record {
    Record::new(
        id,
        String::from(name),
        String::from("description"),
        10,
        Identity::new(String::from("owner")),
        1000,
    )
}

#[test]
fn new_storage_has_no_entry() {
    let storage = Storage::new();
    assert!(!storage.has(&DataKey::Counter));
    assert!(!storage.has(&DataKey::RecordsList));
    assert!(!storage.has(&DataKey::Record(0)));
    assert!(!storage.has(&DataKey::Record(1)));
    assert_eq!(storage.counter(), None);
    assert_eq!(storage.records_list(), None);
    assert_eq!(storage.record(1), None);
}

#[test]
fn entries_are_read_back_as_written() {
    let mut storage = Storage::new();
    storage.set_counter(5);
    storage.set_records_list(vec![4, 2]);
    storage.set_record(2, record(2, "two"));

    assert_eq!(storage.counter(), Some(5));
    assert_eq!(storage.records_list(), Some(vec![4, 2]));
    assert_eq!(storage.record(2), Some(record(2, "two")));
    assert_eq!(storage.record(4), None);
    assert!(storage.has(&DataKey::Counter));
    assert!(storage.has(&DataKey::RecordsList));
    assert!(storage.has(&DataKey::Record(2)));
    assert!(!storage.has(&DataKey::Record(4)));
}

#[test]
fn a_written_entry_replaces_the_one_before() {
    let mut storage = Storage::new();
    storage.set_counter(5);
    storage.set_counter(0);
    storage.set_records_list(vec![4, 2]);
    storage.set_records_list(vec![]);
    storage.set_record(2, record(2, "two"));
    storage.set_record(2, record(2, "deux"));

    assert_eq!(storage.counter(), Some(0));
    assert_eq!(storage.records_list(), Some(vec![]));
    assert_eq!(storage.record(2).unwrap().name, String::from("deux"));
}

#[test]
fn remove_takes_out_one_entry_and_no_other() {
    let mut storage = Storage::new();
    storage.set_counter(5);
    storage.set_records_list(vec![1, 2]);
    storage.set_record(1, record(1, "one"));
    storage.set_record(2, record(2, "two"));

    storage.remove(&DataKey::Record(1));
    assert_eq!(storage.record(1), None);
    assert_eq!(storage.record(2), Some(record(2, "two")));
    assert_eq!(storage.counter(), Some(5));
    assert_eq!(storage.records_list(), Some(vec![1, 2]));

    storage.remove(&DataKey::Counter);
    assert_eq!(storage.counter(), None);
    assert_eq!(storage.records_list(), Some(vec![1, 2]));
    assert!(storage.has(&DataKey::Record(2)));

    storage.remove(&DataKey::RecordsList);
    assert_eq!(storage.records_list(), None);
    assert!(storage.has(&DataKey::Record(2)));
}

#[test]
fn remove_of_an_absent_entry_changes_nothing() {
    let mut storage = Storage::new();
    storage.set_record(2, record(2, "two"));
    storage.remove(&DataKey::Record(3));
    storage.remove(&DataKey::Counter);
    storage.remove(&DataKey::RecordsList);
    assert_eq!(storage.record(2), Some(record(2, "two")));
    assert_eq!(storage.counter(), None);
    assert_eq!(storage.records_list(), None);
}

#[test]
fn data_keys_compare_by_kind_and_id() {
    assert_eq!(DataKey::Record(1), DataKey::Record(1));
    assert_ne!(DataKey::Record(1), DataKey::Record(2));
    assert_ne!(DataKey::Counter, DataKey::RecordsList);
    assert_ne!(DataKey::Record(0), DataKey::Counter);
}

#[test]
fn new_record_is_created_and_updated_at_the_same_time() {
    let made = record(9, "nine");
    assert_eq!(made.id, 9);
    assert_eq!(made.name, String::from("nine"));
    assert_eq!(made.description, String::from("description"));
    assert_eq!(made.value, 10);
    assert_eq!(made.owner, Identity::new(String::from("owner")));
    assert_eq!(made.created_at, 1000);
    assert_eq!(made.updated_at, 1000);
}

#[test]
fn revise_keeps_id_owner_and_time_of_creation() {
    let mut made = record(9, "nine");
    made.revise(String::from("neuf"), String::from("le neuf"), 11, 2000);
    assert_eq!(
        made,
        Record {
            id: 9,
            name: String::from("neuf"),
            description: String::from("le neuf"),
            value: 11,
            owner: Identity::new(String::from("owner")),
            created_at: 1000,
            updated_at: 2000,
        }
    );
}

#[test]
fn a_copy_of_a_record_equals_it() {
    let made = record(9, "nine");
    let copy = made.clone();
    assert_eq!(copy, made);
}

#[test]
fn identities_are_the_same_exactly_if_their_keys_are() {
    let ana = Identity::new(String::from("ana"));
    let again = Identity::new(String::from("ana"));
    let ben = Identity::new(String::from("ben"));
    assert!(ana.same_as(&again));
    assert!(!ana.same_as(&ben));
    assert!(ana == again);
    assert!(ana != ben);
    assert_eq!(ana.key(), "ana");
    assert!(ana.clone().same_as(&ana));
    assert!(record(1, "one").is_owned_by(&Identity::new(String::from("owner"))));
    assert!(!record(1, "one").is_owned_by(&ana));
    assert!(!Identity::new(String::new()).same_as(&ana));
}
