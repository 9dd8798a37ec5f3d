//! Tests of the DAO community logic: registration, community records,
//! child records under composite keys, and the documented counter race.

use turtle_store::community::{
    append_child_record, get_all_communities, get_all_pdas, get_child_records,
    get_community_by_pda, get_contents_by_pda, save_community, save_pda, DaoError,
};
use turtle_store::mem_db::MemDatabase;
use turtle_store::records::Daopda;
use turtle_store::storage::SafeDatabase;

fn fresh() -> MemDatabase {
    MemDatabase::new(".").expect("in-memory store always opens")
}

#[test]
fn test_save_pda_empty_address_rejected() {
    let mut db = fresh();
    let daopda = Daopda {
        address: String::new(),
    };
    let r = save_pda(&mut db, &daopda);
    match r {
        Err(DaoError::ValidationError(msg)) => assert_eq!(msg, "PDA cannot be empty"),
        _ => panic!("expected a validation failure"),
    }
}

#[test]
fn test_save_pda_then_listed() {
    let mut db = fresh();
    let daopda = Daopda {
        address: "dao1".to_string(),
    };
    save_pda(&mut db, &daopda).unwrap();
    let other = Daopda {
        address: "dao2".to_string(),
    };
    save_pda(&mut db, &other).unwrap();
    let mut pdas = get_all_pdas(&db).unwrap();
    pdas.sort();
    assert_eq!(pdas, vec![b"dao1".to_vec(), b"dao2".to_vec()]);
}

#[test]
fn test_save_and_get_community() {
    let mut db = fresh();
    save_community(&mut db, "dao1", b"{\"record\":1}").unwrap();
    let got = get_community_by_pda(&db, "dao1").unwrap();
    assert_eq!(got, b"{\"record\":1}".to_vec());
}

#[test]
fn test_get_community_missing_is_validation_error() {
    let db = fresh();
    let r = get_community_by_pda(&db, "ghost");
    match r {
        Err(DaoError::ValidationError(msg)) => {
            assert_eq!(msg, "Community with PDA ghost not found");
        },
        _ => panic!("expected a validation failure"),
    }
}

#[test]
fn test_get_community_empty_pda_rejected() {
    let db = fresh();
    assert!(matches!(
        get_community_by_pda(&db, ""),
        Err(DaoError::ValidationError(_))
    ));
}

#[test]
fn test_get_all_communities_entries() {
    let mut db = fresh();
    save_community(&mut db, "dao1", b"one").unwrap();
    save_community(&mut db, "dao2", b"two").unwrap();
    let mut es = get_all_communities(&db).unwrap();
    es.sort();
    assert_eq!(
        es,
        vec![
            (b"dao1".to_vec(), b"one".to_vec()),
            (b"dao2".to_vec(), b"two".to_vec()),
        ]
    );
}

#[test]
fn test_append_child_and_fetch_by_pda() {
    let mut db = fresh();
    save_community(&mut db, "dao1", b"count=0").unwrap();
    append_child_record(&mut db, "dao1", "content", 1, b"post one", b"count=1").unwrap();
    append_child_record(&mut db, "dao1", "content", 2, b"post two", b"count=2").unwrap();
    // A child of another community must not show up.
    append_child_record(&mut db, "dao2", "content", 1, b"stranger", b"count=1").unwrap();
    let mut contents = get_contents_by_pda(&db, "dao1").unwrap();
    contents.sort();
    assert_eq!(contents, vec![b"post one".to_vec(), b"post two".to_vec()]);
    // The parent record was updated by the second append.
    assert_eq!(get_community_by_pda(&db, "dao1").unwrap(), b"count=2".to_vec());
}

#[test]
fn test_child_tables_per_kind() {
    let mut db = fresh();
    append_child_record(&mut db, "dao1", "content", 1, b"c", b"p").unwrap();
    append_child_record(&mut db, "dao1", "depositor", 1, b"d", b"p").unwrap();
    append_child_record(&mut db, "dao1", "proposal", 1, b"r", b"p").unwrap();
    assert_eq!(get_child_records(&db, "content", "dao1").unwrap(), vec![b"c".to_vec()]);
    assert_eq!(get_child_records(&db, "depositor", "dao1").unwrap(), vec![b"d".to_vec()]);
    assert_eq!(get_child_records(&db, "proposal", "dao1").unwrap(), vec![b"r".to_vec()]);
}

#[test]
fn test_append_child_empty_pda_rejected() {
    let mut db = fresh();
    assert!(matches!(
        append_child_record(&mut db, "", "content", 1, b"c", b"p"),
        Err(DaoError::ValidationError(_))
    ));
}

#[test]
fn test_child_append_race_loses_record() {
    // The documented hazard: appending a child spans a read and two
    // writes in separate critical sections. Two sessions that both
    // read the parent counter at 0 derive the same child key, so the
    // second child write silently replaces the first.
    let mut db = fresh();
    save_community(&mut db, "dao1", b"0").unwrap();
    // Both sessions read the counter before either writes.
    let c1 = get_community_by_pda(&db, "dao1").unwrap();
    let c2 = get_community_by_pda(&db, "dao1").unwrap();
    assert_eq!(c1, b"0".to_vec());
    assert_eq!(c2, b"0".to_vec());
    // Both compute counter + 1 == 1 and append under the same key.
    append_child_record(&mut db, "dao1", "content", 1, b"first child", b"1").unwrap();
    append_child_record(&mut db, "dao1", "content", 1, b"second child", b"1").unwrap();
    let contents = get_contents_by_pda(&db, "dao1").unwrap();
    // One child record was lost: two appends, one survivor.
    assert_eq!(contents, vec![b"second child".to_vec()]);
    // The parent's counter says one child, matching the survivor count
    // here, but the first record is gone for good.
    assert_eq!(get_community_by_pda(&db, "dao1").unwrap(), b"1".to_vec());
}

#[test]
fn test_dao_error_classification() {
    assert!(DaoError::MultipartError(String::new()).is_client_error());
    assert!(DaoError::ValidationError(String::new()).is_client_error());
    assert!(!DaoError::DatabaseError(String::new()).is_client_error());
    assert!(!DaoError::SerializationError(String::new()).is_client_error());
    let e = DaoError::DatabaseError("boom".to_string());
    assert_eq!(e.message(), "boom");
}
