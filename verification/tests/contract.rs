use crud_records::{CrudRecordsContract, Identity, Storage};

fn user(key: &str) -> Identity {
    Identity::new(String::from(key))
}

#[test]
fn test_create_and_read_record() {
    let mut storage = Storage::new();
    let user = user("GDQOE23CFSUMSVQK4Y5JHPPYK73VYCNHZHA7ENKCV37P6SUEO6XQBKPP");

    let id = CrudRecordsContract::create_record(
        &mut storage,
        true,
        &user,
        String::from("Test Record"),
        String::from("A test record description"),
        1000u64,
        0,
    )
    .unwrap();

    assert_eq!(id, 1);

    let record = CrudRecordsContract::read_record(&storage, id).unwrap();
    assert_eq!(record.id, 1);
    assert_eq!(record.name, String::from("Test Record"));
    assert_eq!(record.value, 1000u64);
    assert_eq!(record.owner, user);
}

#[test]
fn test_update_record() {
    let mut storage = Storage::new();
    let user = user("GDQOE23CFSUMSVQK4Y5JHPPYK73VYCNHZHA7ENKCV37P6SUEO6XQBKPP");

    let id = CrudRecordsContract::create_record(
        &mut storage,
        true,
        &user,
        String::from("Original Record"),
        String::from("Original description"),
        500u64,
        0,
    )
    .unwrap();

    let success = CrudRecordsContract::update_record(
        &mut storage,
        true,
        &user,
        id,
        String::from("Updated Record"),
        String::from("Updated description"),
        1500u64,
        0,
    )
    .unwrap();

    assert!(success);

    let record = CrudRecordsContract::read_record(&storage, id).unwrap();
    assert_eq!(record.name, String::from("Updated Record"));
    assert_eq!(record.value, 1500u64);
}

#[test]
fn test_delete_record() {
    let mut storage = Storage::new();
    let user = user("GDQOE23CFSUMSVQK4Y5JHPPYK73VYCNHZHA7ENKCV37P6SUEO6XQBKPP");

    let id = CrudRecordsContract::create_record(
        &mut storage,
        true,
        &user,
        String::from("To Delete"),
        String::from("This will be deleted"),
        100u64,
        0,
    )
    .unwrap();

    let success = CrudRecordsContract::delete_record(&mut storage, true, &user, id).unwrap();
    assert!(success);

    let record = CrudRecordsContract::read_record(&storage, id);
    assert!(record.is_none());
}

#[test]
fn test_unauthorized_operations() {
    let mut storage = Storage::new();
    let owner = user("GDQOE23CFSUMSVQK4Y5JHPPYK73VYCNHZHA7ENKCV37P6SUEO6XQBKPP");
    let other_user = user("GBZXN7PIRZGNMHGA7MUUUF4GWPY5AYPV6LY4UV2GL6VJGIQRXFDNMADI");

    let id = CrudRecordsContract::create_record(
        &mut storage,
        true,
        &owner,
        String::from("Owner's Record"),
        String::from("Only owner can modify"),
        200u64,
        0,
    )
    .unwrap();

    let success = CrudRecordsContract::update_record(
        &mut storage,
        true,
        &other_user,
        id,
        String::from("Hacked"),
        String::from("Should not work"),
        9999u64,
        0,
    )
    .unwrap();

    assert!(!success);

    let success = CrudRecordsContract::delete_record(&mut storage, true, &other_user, id).unwrap();
    assert!(!success);
}

#[test]
fn test_list_records() {
    let mut storage = Storage::new();
    let user1 = user("GDQOE23CFSUMSVQK4Y5JHPPYK73VYCNHZHA7ENKCV37P6SUEO6XQBKPP");
    let user2 = user("GBZXN7PIRZGNMHGA7MUUUF4GWPY5AYPV6LY4UV2GL6VJGIQRXFDNMADI");

    CrudRecordsContract::create_record(
        &mut storage,
        true,
        &user1,
        String::from("Record 1"),
        String::from("First record"),
        100u64,
        0,
    )
    .unwrap();

    CrudRecordsContract::create_record(
        &mut storage,
        true,
        &user2,
        String::from("Record 2"),
        String::from("Second record"),
        200u64,
        0,
    )
    .unwrap();

    CrudRecordsContract::create_record(
        &mut storage,
        true,
        &user1,
        String::from("Record 3"),
        String::from("Third record"),
        300u64,
        0,
    )
    .unwrap();

    let all_records = CrudRecordsContract::list_records(&storage);
    assert_eq!(all_records.len(), 3);

    let user1_records = CrudRecordsContract::list_records_by_owner(&storage, &user1);
    assert_eq!(user1_records.len(), 2);

    let user2_records = CrudRecordsContract::list_records_by_owner(&storage, &user2);
    assert_eq!(user2_records.len(), 1);

    let count = CrudRecordsContract::get_records_count(&storage);
    assert_eq!(count, 3);
}
