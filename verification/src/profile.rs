//! User-profile storage logic: saving a profile record under its
//! address and fetching it back; an address nothing was stored under
//! yields no record, and the caller serves a default profile instead.

use vstd::prelude::*;
use vstd::string::StringSliceAdditionalSpecFns;
use vstd::string::StringExecFns;

use crate::storage::{opt_bytes_view, store_get, store_put, SafeDatabase, StorageError};

verus! {

/// Query naming the address a profile is fetched for.
pub struct AddressQuery {
    pub address: String,
}

/// A failure of the profile storage logic or of what surrounds it.
#[derive(Debug)]
pub enum ProfileError {
    MultipartError(String),
    DatabaseError(String),
    SerializationError(String),
}

impl ProfileError {
    /// The human-readable description carried by the failure.
    pub fn message(self) -> (m: String)
        ensures
            self is MultipartError ==> m == self->MultipartError_0,
            self is DatabaseError ==> m == self->DatabaseError_0,
            self is SerializationError ==> m == self->SerializationError_0,
    {
        match self {
            ProfileError::MultipartError(m) => m,
            ProfileError::DatabaseError(m) => m,
            ProfileError::SerializationError(m) => m,
        }
    }

    /// Whether the failure is the caller's fault (a malformed request)
    /// rather than the service's.
    pub fn is_client_error(&self) -> (r: bool)
        ensures
            r == (self is MultipartError),
    {
        match self {
            ProfileError::MultipartError(_) => true,
            ProfileError::DatabaseError(_) => false,
            ProfileError::SerializationError(_) => false,
        }
    }
}

fn db_error(e: StorageError) -> (r: ProfileError)
    ensures
        r is DatabaseError,
{
    ProfileError::DatabaseError(e.message())
}

/// Stores a profile record under its address in the `user_profiles`
/// table. A missing (empty) address is rejected before the store is
/// touched.
pub fn profile_write<T: SafeDatabase>(db: &mut T, address: &str, record: &[u8]) -> (r: Result<
    (),
    ProfileError,
>)
    requires
        old(db).wf(),
    ensures
        final(db).wf(),
        address@.len() == 0 ==> r is Err && r->Err_0 is MultipartError && final(db).store() == old(
            db,
        ).store(),
        r is Ok ==> address@.len() > 0 && final(db).store() == store_put(
            old(db).store(),
            ("user_profiles").spec_bytes(),
            address.spec_bytes(),
            record@,
        ),
        r is Err ==> (r->Err_0 is MultipartError || r->Err_0 is DatabaseError) && final(db).store()
            == old(db).store(),
        r is Err && r->Err_0 is MultipartError ==> address@.len() == 0
            && r->Err_0->MultipartError_0@ == ("User ID is required")@,
{
    if address.is_empty() {
        return Err(ProfileError::MultipartError(String::from_str("User ID is required")));
    }
    match db.write(address.as_bytes(), record, "user_profiles") {
        Ok(()) => Ok(()),
        Err(e) => Err(db_error(e)),
    }
}

/// The profile record stored under `address`, or no record when none
/// was ever stored: absence is a value, not an error. An empty address
/// is rejected.
pub fn get_profile_by_address<T: SafeDatabase>(db: &T, address: &str) -> (r: Result<
    Option<Vec<u8>>,
    ProfileError,
>)
    requires
        db.wf(),
    ensures
        address@.len() == 0 ==> r is Err && r->Err_0 is MultipartError,
        r matches Ok(v) ==> address@.len() > 0 && opt_bytes_view(v) == store_get(
            db.store(),
            ("user_profiles").spec_bytes(),
            address.spec_bytes(),
        ),
        r is Err ==> r->Err_0 is MultipartError || r->Err_0 is DatabaseError,
        r is Err && r->Err_0 is MultipartError ==> address@.len() == 0
            && r->Err_0->MultipartError_0@ == ("Address is required")@,
{
    if address.is_empty() {
        return Err(ProfileError::MultipartError(String::from_str("Address is required")));
    }
    match db.read(address.as_bytes(), "user_profiles") {
        Ok(v) => Ok(v),
        Err(e) => Err(db_error(e)),
    }
}

} // verus!
