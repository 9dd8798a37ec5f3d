//! Tests of the user-profile logic: saving under an address, fetching
//! back, the default profile for unknown addresses, and validation.

use turtle_store::mem_db::MemDatabase;
use turtle_store::profile::{get_profile_by_address, profile_write, ProfileError};
use turtle_store::records::{Community, UserProfile};
use turtle_store::storage::SafeDatabase;

fn fresh() -> MemDatabase {
    MemDatabase::new(".").expect("in-memory store always opens")
}

#[test]
fn test_profile_write_and_read_back() {
    let mut db = fresh();
    profile_write(&mut db, "0xabcdef123456789", b"profile bytes").unwrap();
    let got = get_profile_by_address(&db, "0xabcdef123456789").unwrap();
    assert_eq!(got, Some(b"profile bytes".to_vec()));
}

#[test]
fn test_profile_write_missing_address() {
    let mut db = fresh();
    let r = profile_write(&mut db, "", b"profile bytes");
    match r {
        Err(ProfileError::MultipartError(msg)) => assert_eq!(msg, "User ID is required"),
        _ => panic!("Expected MultipartError with 'User ID is required' message"),
    }
}

#[test]
fn test_get_profile_by_address_nonexistent() {
    let db = fresh();
    let got = get_profile_by_address(&db, "0xnonexistent123").unwrap();
    assert!(got.is_none());
    // The caller then serves the default profile for that address.
    let p = UserProfile::default_for_address("0xnonexistent123");
    assert_eq!(p.user_address, "0xnonexistent123");
    assert!(p.user_id.is_empty());
    assert!(p.user_name.is_empty());
    assert!(p.github_account.is_empty());
    assert!(p.x_account.is_empty());
    assert!(p.tg_account.is_empty());
    assert!(p.user_bio.is_empty());
    assert!(p.user_avatar.is_none());
    assert!(p.avatar_content_type.is_none());
}

#[test]
fn test_get_profile_by_address_empty_address() {
    let db = fresh();
    let r = get_profile_by_address(&db, "");
    match r {
        Err(ProfileError::MultipartError(msg)) => assert_eq!(msg, "Address is required"),
        _ => panic!("Expected MultipartError with 'Address is required' message"),
    }
}

#[test]
fn test_profile_overwrite_keeps_latest() {
    let mut db = fresh();
    profile_write(&mut db, "0xabc", b"old").unwrap();
    profile_write(&mut db, "0xabc", b"new").unwrap();
    assert_eq!(
        get_profile_by_address(&db, "0xabc").unwrap(),
        Some(b"new".to_vec())
    );
}

#[test]
fn test_profile_error_classification() {
    assert!(ProfileError::MultipartError(String::new()).is_client_error());
    assert!(!ProfileError::DatabaseError(String::new()).is_client_error());
    assert!(!ProfileError::SerializationError(String::new()).is_client_error());
    let e = ProfileError::SerializationError("bad json".to_string());
    assert_eq!(e.message(), "bad json");
}

#[test]
fn test_community_counter_updates() {
    let mut c = Community {
        admin: "admin_key".to_string(),
        time_limit: 60,
        base_fee: 5,
        ai_moderation: true,
        deposit_share: 40,
        last_activity_timestamp: 0,
        total_deposit: 1000,
        active_proposal_count: 2,
        content_count: 7,
        depositor_count: 3,
    };
    c.add_content(111);
    assert_eq!(c.content_count, 8);
    assert_eq!(c.last_activity_timestamp, 111);
    c.add_depositor(222);
    assert_eq!(c.depositor_count, 4);
    assert_eq!(c.last_activity_timestamp, 222);
    c.add_proposal(333);
    assert_eq!(c.active_proposal_count, 3);
    assert_eq!(c.last_activity_timestamp, 333);
    // Untouched fields are kept throughout.
    assert_eq!(c.admin, "admin_key");
    assert_eq!(c.time_limit, 60);
    assert_eq!(c.base_fee, 5);
    assert!(c.ai_moderation);
    assert_eq!(c.deposit_share, 40);
    assert_eq!(c.total_deposit, 1000);
    assert_eq!(c.content_count, 8);
    assert_eq!(c.depositor_count, 4);
}
