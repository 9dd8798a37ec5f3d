//! DAO community storage logic: registering DAO addresses, saving and
//! fetching community records, and appending child records (contents,
//! depositors, proposals) under counter-based composite keys.
//!
//! Records cross this boundary as opaque byte values; the callers parse
//! and render them.

use vstd::prelude::*;
use vstd::string::StringSliceAdditionalSpecFns;
use vstd::string::StringExecFns;

use crate::bytes::{child_key, child_key_view, child_prefix, child_prefix_view, has_prefix, is_prefix_of};
use crate::laws::{lemma_pairs_absent, lemma_pairs_index};
use crate::records::Daopda;
use crate::storage::{
    entries_view, pairs_map, store_get, store_put, table_in, SafeDatabase, StorageError,
};

verus! {

/// Query naming the community a request is about.
pub struct PdaQuery {
    pub pda: String,
}

/// Query naming the community a content record is appended to.
pub struct ContentCreateQuery {
    pub pda: String,
}

/// Query naming the community a depositor record is appended to.
pub struct DepositorCreateQuery {
    pub pda: String,
}

/// Query naming the community a proposal record is appended to.
pub struct ProposalCreateQuery {
    pub pda: String,
}

/// The list of every registered DAO address.
pub struct PdasResponse {
    pub pdas: Vec<String>,
}

/// The list of every community record.
pub struct CommunitiesResponse {
    pub communities: Vec<crate::records::Community>,
}

/// The content records of one community.
pub struct ContentsResponse {
    pub contents: Vec<crate::records::Content>,
}

/// The depositor records of one community.
pub struct DepositorsResponse {
    pub depositors: Vec<crate::records::Depositor>,
}

/// The proposal records of one community.
pub struct ProposalsResponse {
    pub proposals: Vec<crate::records::Proposal>,
}

/// A failure of the DAO storage logic or of what surrounds it.
#[derive(Debug)]
pub enum DaoError {
    MultipartError(String),
    DatabaseError(String),
    SerializationError(String),
    ValidationError(String),
}

impl DaoError {
    /// The human-readable description carried by the failure.
    pub fn message(self) -> (m: String)
        ensures
            self is MultipartError ==> m == self->MultipartError_0,
            self is DatabaseError ==> m == self->DatabaseError_0,
            self is SerializationError ==> m == self->SerializationError_0,
            self is ValidationError ==> m == self->ValidationError_0,
    {
        match self {
            DaoError::MultipartError(m) => m,
            DaoError::DatabaseError(m) => m,
            DaoError::SerializationError(m) => m,
            DaoError::ValidationError(m) => m,
        }
    }

    /// Whether the failure is the caller's fault (a malformed or invalid
    /// request) rather than the service's.
    pub fn is_client_error(&self) -> (r: bool)
        ensures
            r == (self is MultipartError || self is ValidationError),
    {
        match self {
            DaoError::MultipartError(_) => true,
            DaoError::ValidationError(_) => true,
            DaoError::DatabaseError(_) => false,
            DaoError::SerializationError(_) => false,
        }
    }
}

/// Every key of table `t` occurs in the list `ks`.
pub open spec fn covers_all_keys(ks: Seq<Vec<u8>>, t: crate::storage::TableView) -> bool {
    forall|k: Seq<u8>|
        t.dom().contains(k) ==> exists|i: int| 0 <= i < ks.len() && #[trigger] ks[i]@ == k
}

fn db_error(e: StorageError) -> (r: DaoError)
    ensures
        r is DatabaseError,
{
    DaoError::DatabaseError(e.message())
}

/// Registers a DAO: stores its address under itself in the `daopda`
/// table. An empty address is rejected before the store is touched.
pub fn save_pda<T: SafeDatabase>(db: &mut T, daopda: &Daopda) -> (r: Result<(), DaoError>)
    requires
        old(db).wf(),
    ensures
        final(db).wf(),
        daopda.address@.len() == 0 ==> r is Err && r->Err_0 is ValidationError && final(db).store()
            == old(db).store(),
        r is Ok ==> daopda.address@.len() > 0 && final(db).store() == store_put(
            old(db).store(),
            ("daopda").spec_bytes(),
            vstd::utf8::encode_utf8(daopda.address@),
            vstd::utf8::encode_utf8(daopda.address@),
        ),
        r is Err ==> (r->Err_0 is ValidationError || r->Err_0 is DatabaseError) && final(db).store()
            == old(db).store(),
        r is Err && r->Err_0 is ValidationError ==> daopda.address@.len() == 0
            && r->Err_0->ValidationError_0@ == ("PDA cannot be empty")@,
{
    if daopda.address.as_str().is_empty() {
        return Err(DaoError::ValidationError(String::from_str("PDA cannot be empty")));
    }
    let key = daopda.address.as_str().as_bytes();
    match db.write(key, key, "daopda") {
        Ok(()) => Ok(()),
        Err(e) => Err(db_error(e)),
    }
}

/// Every key of the `daopda` table: the addresses of every registered
/// DAO, each exactly once, in no promised order.
pub fn get_all_pdas<T: SafeDatabase>(db: &T) -> (r: Result<Vec<Vec<u8>>, DaoError>)
    requires
        db.wf(),
    ensures
        r matches Ok(ks) ==> forall|i: int, j: int| 0 <= i < j < ks@.len() ==> ks@[i]@ != ks@[j]@,
        r matches Ok(ks) ==> forall|i: int|
            0 <= i < ks@.len() ==> table_in(db.store(), ("daopda").spec_bytes()).dom().contains(
                #[trigger] ks@[i]@,
            ),
        r matches Ok(ks) ==> covers_all_keys(ks@, table_in(db.store(), ("daopda").spec_bytes())),
        r is Err ==> r->Err_0 is DatabaseError,
{
    let es = match db.read_all("daopda") {
        Ok(es) => es,
        Err(e) => {
            return Err(db_error(e));
        },
    };
    let ghost ev = entries_view(es@);
    let mut ks: Vec<Vec<u8>> = Vec::new();
    let mut i: usize = 0;
    while i < es.len()
        invariant
            0 <= i <= es@.len(),
            ev == entries_view(es@),
            ks@.len() == i,
            forall|j: int| 0 <= j < i ==> ks@[j]@ == es@[j].0@,
        decreases es@.len() - i,
    {
        ks.push(vstd::slice::slice_to_vec(es[i].0.as_slice()));
        i = i + 1;
    }
    proof {
        let t = table_in(db.store(), ("daopda").spec_bytes());
        assert forall|a: int, b: int| 0 <= a < b < ev.len() implies ev[a].0 != ev[b].0 by {
            assert(es@[a].0@ != es@[b].0@);
        }
        assert forall|a: int, b: int| 0 <= a < b < ks@.len() implies ks@[a]@ != ks@[b]@ by {
            assert(es@[a].0@ != es@[b].0@);
        }
        assert forall|j: int| 0 <= j < ks@.len() implies t.dom().contains(#[trigger] ks@[j]@) by {
            lemma_pairs_index(ev, j);
            assert(ev[j].0 == es@[j].0@);
        }
        assert forall|k: Seq<u8>| t.dom().contains(k) implies exists|j: int|
            0 <= j < ks@.len() && #[trigger] ks@[j]@ == k by {
            if forall|a: int| 0 <= a < ev.len() ==> (#[trigger] ev[a].0) != k {
                lemma_pairs_absent(ev, k);
            } else {
                let a = choose|a: int| 0 <= a < ev.len() && ev[a].0 == k;
                assert(ev[a].0 == es@[a].0@);
                assert(ks@[a]@ == k);
            }
        }
        assert(covers_all_keys(ks@, table_in(db.store(), ("daopda").spec_bytes())));
    }
    Ok(ks)
}

/// Saves a community record under its DAO address in the `community`
/// table. An empty address is rejected before the store is touched.
pub fn save_community<T: SafeDatabase>(db: &mut T, pda: &str, record: &[u8]) -> (r: Result<
    (),
    DaoError,
>)
    requires
        old(db).wf(),
    ensures
        final(db).wf(),
        pda@.len() == 0 ==> r is Err && r->Err_0 is ValidationError && final(db).store() == old(
            db,
        ).store(),
        r is Ok ==> pda@.len() > 0 && final(db).store() == store_put(
            old(db).store(),
            ("community").spec_bytes(),
            pda.spec_bytes(),
            record@,
        ),
        r is Err ==> (r->Err_0 is ValidationError || r->Err_0 is DatabaseError) && final(db).store()
            == old(db).store(),
        r is Err && r->Err_0 is ValidationError ==> pda@.len() == 0
            && r->Err_0->ValidationError_0@ == ("PDA cannot be empty")@,
{
    if pda.is_empty() {
        return Err(DaoError::ValidationError(String::from_str("PDA cannot be empty")));
    }
    match db.write(pda.as_bytes(), record, "community") {
        Ok(()) => Ok(()),
        Err(e) => Err(db_error(e)),
    }
}

/// The community record stored under `pda`, or a validation failure
/// when the address is empty or no community is registered under it.
pub fn get_community_by_pda<T: SafeDatabase>(db: &T, pda: &str) -> (r: Result<Vec<u8>, DaoError>)
    requires
        db.wf(),
    ensures
        pda@.len() == 0 ==> r is Err && r->Err_0 is ValidationError,
        r matches Ok(v) ==> pda@.len() > 0 && store_get(
            db.store(),
            ("community").spec_bytes(),
            pda.spec_bytes(),
        ) == Some(v@),
        pda@.len() > 0 && store_get(db.store(), ("community").spec_bytes(), pda.spec_bytes())
            is Some ==> r is Ok || r->Err_0 is DatabaseError,
        pda@.len() > 0 && store_get(db.store(), ("community").spec_bytes(), pda.spec_bytes())
            is None ==> r is Err && (r->Err_0 is ValidationError || r->Err_0 is DatabaseError),
        r is Err && r->Err_0 is ValidationError ==> pda@.len() == 0 || store_get(
            db.store(),
            ("community").spec_bytes(),
            pda.spec_bytes(),
        ) is None,
        r is Err && r->Err_0 is ValidationError && pda@.len() == 0
            ==> r->Err_0->ValidationError_0@ == ("PDA cannot be empty")@,
        r is Err && r->Err_0 is ValidationError && pda@.len() > 0
            ==> r->Err_0->ValidationError_0@ == ("Community with PDA ")@ + pda@ + (" not found")@,
        r is Err && r->Err_0 is DatabaseError ==> pda@.len() > 0,
{
    if pda.is_empty() {
        return Err(DaoError::ValidationError(String::from_str("PDA cannot be empty")));
    }
    match db.read(pda.as_bytes(), "community") {
        Ok(Some(v)) => Ok(v),
        Ok(None) => Err(
            DaoError::ValidationError(
                String::from_str("Community with PDA ").concat(pda).concat(" not found"),
            ),
        ),
        Err(e) => Err(db_error(e)),
    }
}

/// Every entry of the `community` table: each stored community record
/// with its DAO address, each address exactly once.
pub fn get_all_communities<T: SafeDatabase>(db: &T) -> (r: Result<Vec<(Vec<u8>, Vec<u8>)>, DaoError>)
    requires
        db.wf(),
    ensures
        r matches Ok(es) ==> crate::storage::entries_keys_distinct(es@) && pairs_map(
            entries_view(es@),
        ) == table_in(db.store(), ("community").spec_bytes()),
        r is Err ==> r->Err_0 is DatabaseError,
{
    match db.read_all("community") {
        Ok(es) => Ok(es),
        Err(e) => Err(db_error(e)),
    }
}

/// The value `v` is a record of table `t` stored under a key starting
/// with `p`.
pub open spec fn value_in_table_with_prefix(
    v: Seq<u8>,
    t: crate::storage::TableView,
    p: Seq<u8>,
) -> bool {
    exists|k: Seq<u8>| #[trigger] t.dom().contains(k) && is_prefix_of(p, k) && t[k] == v
}

/// Every value of the list `vs` is a record of table `t` stored under a
/// key starting with `p`.
pub open spec fn values_from_prefixed_keys(
    vs: Seq<Vec<u8>>,
    t: crate::storage::TableView,
    p: Seq<u8>,
) -> bool {
    forall|i: int| 0 <= i < vs.len() ==> value_in_table_with_prefix(#[trigger] vs[i]@, t, p)
}

/// Every record of table `t` stored under a key starting with `p`
/// occurs in the list `vs`.
pub open spec fn covers_prefixed_values(
    vs: Seq<Vec<u8>>,
    t: crate::storage::TableView,
    p: Seq<u8>,
) -> bool {
    forall|k: Seq<u8>|
        t.dom().contains(k) && is_prefix_of(p, k) ==> exists|i: int|
            0 <= i < vs.len() && #[trigger] vs[i]@ == t[k]
}

/// The value `v` is stored in the entry list `es` under a key starting
/// with `p`.
pub open spec fn value_has_prefixed_source(v: Seq<u8>, es: Seq<(Vec<u8>, Vec<u8>)>, p: Seq<u8>) -> bool {
    exists|a: int| 0 <= a < es.len() && is_prefix_of(p, #[trigger] es[a].0@) && es[a].1@ == v
}

/// Appends a child record of community `pda`: writes the record under
/// the composite key `pda ++ "_" ++ counter` in `child_table`, then
/// writes the updated parent record under `pda` in the `community`
/// table.
///
/// The two writes are two separate atomic operations, not one: between
/// them, and between the read that produced `counter` and the first
/// write, other callers can interleave. Two callers that read the same
/// counter derive the same child key and one child record silently
/// overwrites the other. This two-phase shape mirrors the exposed
/// interface, which offers no read-modify-write unit; the race is
/// accepted and documented rather than hidden.
pub fn append_child_record<T: SafeDatabase>(
    db: &mut T,
    pda: &str,
    child_table: &str,
    counter: u64,
    child_record: &[u8],
    parent_record: &[u8],
) -> (r: Result<(), DaoError>)
    requires
        old(db).wf(),
    ensures
        final(db).wf(),
        pda@.len() == 0 ==> r is Err && r->Err_0 is ValidationError && final(db).store() == old(
            db,
        ).store(),
        r is Ok ==> pda@.len() > 0 && final(db).store() == store_put(
            store_put(
                old(db).store(),
                child_table.spec_bytes(),
                child_key_view(pda.spec_bytes(), counter as nat),
                child_record@,
            ),
            ("community").spec_bytes(),
            pda.spec_bytes(),
            parent_record@,
        ),
        r is Err ==> (r->Err_0 is ValidationError || r->Err_0 is DatabaseError) && (final(db).store()
            == old(db).store() || final(db).store() == store_put(
            old(db).store(),
            child_table.spec_bytes(),
            child_key_view(pda.spec_bytes(), counter as nat),
            child_record@,
        )),
        r is Err && r->Err_0 is ValidationError ==> pda@.len() == 0
            && r->Err_0->ValidationError_0@ == ("PDA cannot be empty")@ && final(db).store()
            == old(db).store(),
{
    if pda.is_empty() {
        return Err(DaoError::ValidationError(String::from_str("PDA cannot be empty")));
    }
    let ck = child_key(pda.as_bytes(), counter);
    match db.write(ck.as_slice(), child_record, child_table) {
        Ok(()) => (),
        Err(e) => {
            return Err(db_error(e));
        },
    }
    match db.write(pda.as_bytes(), parent_record, "community") {
        Ok(()) => (),
        Err(e) => {
            return Err(db_error(e));
        },
    }
    Ok(())
}

/// The records of `table` whose keys mark them as children of community
/// `pda`: exactly the values stored under keys starting with
/// `pda ++ "_"`, in no promised order.
#[verifier::rlimit(60)]
pub fn get_child_records<T: SafeDatabase>(db: &T, table: &str, pda: &str) -> (r: Result<
    Vec<Vec<u8>>,
    DaoError,
>)
    requires
        db.wf(),
    ensures
        pda@.len() == 0 ==> r is Err && r->Err_0 is ValidationError,
        r matches Ok(vs) ==> pda@.len() > 0 && values_from_prefixed_keys(
            vs@,
            table_in(db.store(), table.spec_bytes()),
            child_prefix_view(pda.spec_bytes()),
        ) && covers_prefixed_values(
            vs@,
            table_in(db.store(), table.spec_bytes()),
            child_prefix_view(pda.spec_bytes()),
        ),
        r is Err ==> r->Err_0 is ValidationError || r->Err_0 is DatabaseError,
        r is Err && r->Err_0 is ValidationError ==> pda@.len() == 0
            && r->Err_0->ValidationError_0@ == ("PDA cannot be empty")@,
{
    if pda.is_empty() {
        return Err(DaoError::ValidationError(String::from_str("PDA cannot be empty")));
    }
    let prefix = child_prefix(pda.as_bytes());
    let es = match db.read_all(table) {
        Ok(es) => es,
        Err(e) => {
            return Err(db_error(e));
        },
    };
    let ghost ev = entries_view(es@);
    let ghost t = pairs_map(ev);
    let ghost p = child_prefix_view(pda.spec_bytes());
    let mut vs: Vec<Vec<u8>> = Vec::new();
    let mut i: usize = 0;
    while i < es.len()
        invariant
            0 <= i <= es@.len(),
            ev == entries_view(es@),
            p == prefix@,
            forall|j: int|
                0 <= j < vs@.len() ==> value_has_prefixed_source(#[trigger] vs@[j]@, es@, p),
            forall|a: int|
                0 <= a < i && is_prefix_of(p, #[trigger] es@[a].0@) ==> exists|j: int|
                    0 <= j < vs@.len() && #[trigger] vs@[j]@ == es@[a].1@,
        decreases es@.len() - i,
    {
        let ghost vs0 = vs@;
        if has_prefix(es[i].0.as_slice(), prefix.as_slice()) {
            vs.push(vstd::slice::slice_to_vec(es[i].1.as_slice()));
            proof {
                assert forall|j: int| 0 <= j < vs@.len() implies value_has_prefixed_source(
                    #[trigger] vs@[j]@,
                    es@,
                    p,
                ) by {
                    if j < vs0.len() {
                        assert(vs@[j] == vs0[j]);
                        assert(value_has_prefixed_source(vs0[j]@, es@, p));
                    } else {
                        assert(vs@[j]@ == es@[i as int].1@);
                        assert(is_prefix_of(p, es@[i as int].0@) && es@[i as int].1@ == vs@[j]@);
                        assert(value_has_prefixed_source(vs@[j]@, es@, p));
                    }
                }
                assert forall|a: int|
                    0 <= a < i + 1 && is_prefix_of(p, #[trigger] es@[a].0@) implies exists|j: int|
                    0 <= j < vs@.len() && #[trigger] vs@[j]@ == es@[a].1@ by {
                    if a < i {
                        let j = choose|j: int| 0 <= j < vs0.len() && vs0[j]@ == es@[a].1@;
                        assert(vs@[j] == vs0[j]);
                        assert(0 <= j < vs@.len() && vs@[j]@ == es@[a].1@);
                    } else {
                        assert(vs@[vs0.len() as int]@ == es@[a].1@);
                    }
                }
            }
        } else {
            proof {
                assert forall|a: int|
                    0 <= a < i + 1 && is_prefix_of(p, #[trigger] es@[a].0@) implies exists|j: int|
                    0 <= j < vs@.len() && #[trigger] vs@[j]@ == es@[a].1@ by {
                    assert(a < i);
                }
            }
        }
        i = i + 1;
    }
    proof {
        assert forall|a: int, b: int| 0 <= a < b < ev.len() implies ev[a].0 != ev[b].0 by {
            assert(es@[a].0@ != es@[b].0@);
        }
        assert forall|j: int| 0 <= j < vs@.len() implies value_in_table_with_prefix(
            #[trigger] vs@[j]@,
            t,
            p,
        ) by {
            assert(value_has_prefixed_source(vs@[j]@, es@, p));
            let a = choose|a: int|
                0 <= a < es@.len() && is_prefix_of(p, #[trigger] es@[a].0@) && es@[a].1@
                    == vs@[j]@;
            lemma_pairs_index(ev, a);
            assert(ev[a].0 == es@[a].0@ && ev[a].1 == es@[a].1@);
            assert(t.dom().contains(es@[a].0@) && is_prefix_of(p, es@[a].0@) && t[es@[a].0@]
                == vs@[j]@);
            assert(value_in_table_with_prefix(vs@[j]@, t, p));
        }
        assert(values_from_prefixed_keys(vs@, t, p));
        assert forall|k: Seq<u8>| t.dom().contains(k) && is_prefix_of(p, k) implies exists|j: int|
            0 <= j < vs@.len() && #[trigger] vs@[j]@ == t[k] by {
            if forall|a: int| 0 <= a < ev.len() ==> (#[trigger] ev[a].0) != k {
                lemma_pairs_absent(ev, k);
            } else {
                let a = choose|a: int| 0 <= a < ev.len() && ev[a].0 == k;
                lemma_pairs_index(ev, a);
                assert(ev[a].0 == es@[a].0@ && ev[a].1 == es@[a].1@);
                assert(is_prefix_of(p, es@[a].0@));
            }
        }
        assert(covers_prefixed_values(vs@, t, p));
    }
    Ok(vs)
}

/// The content records of community `pda`.
pub fn get_contents_by_pda<T: SafeDatabase>(db: &T, pda: &str) -> (r: Result<Vec<Vec<u8>>, DaoError>)
    requires
        db.wf(),
    ensures
        pda@.len() == 0 ==> r is Err && r->Err_0 is ValidationError,
        r matches Ok(vs) ==> pda@.len() > 0 && values_from_prefixed_keys(
            vs@,
            table_in(db.store(), ("content").spec_bytes()),
            child_prefix_view(pda.spec_bytes()),
        ) && covers_prefixed_values(
            vs@,
            table_in(db.store(), ("content").spec_bytes()),
            child_prefix_view(pda.spec_bytes()),
        ),
        r is Err ==> r->Err_0 is ValidationError || r->Err_0 is DatabaseError,
        r is Err && r->Err_0 is ValidationError ==> pda@.len() == 0
            && r->Err_0->ValidationError_0@ == ("PDA cannot be empty")@,
{
    get_child_records(db, "content", pda)
}

/// The depositor records of community `pda`.
pub fn get_depositors_by_pda<T: SafeDatabase>(db: &T, pda: &str) -> (r: Result<
    Vec<Vec<u8>>,
    DaoError,
>)
    requires
        db.wf(),
    ensures
        pda@.len() == 0 ==> r is Err && r->Err_0 is ValidationError,
        r matches Ok(vs) ==> pda@.len() > 0 && values_from_prefixed_keys(
            vs@,
            table_in(db.store(), ("depositor").spec_bytes()),
            child_prefix_view(pda.spec_bytes()),
        ) && covers_prefixed_values(
            vs@,
            table_in(db.store(), ("depositor").spec_bytes()),
            child_prefix_view(pda.spec_bytes()),
        ),
        r is Err ==> r->Err_0 is ValidationError || r->Err_0 is DatabaseError,
        r is Err && r->Err_0 is ValidationError ==> pda@.len() == 0
            && r->Err_0->ValidationError_0@ == ("PDA cannot be empty")@,
{
    get_child_records(db, "depositor", pda)
}

/// The proposal records of community `pda`.
pub fn get_proposals_by_pda<T: SafeDatabase>(db: &T, pda: &str) -> (r: Result<
    Vec<Vec<u8>>,
    DaoError,
>)
    requires
        db.wf(),
    ensures
        pda@.len() == 0 ==> r is Err && r->Err_0 is ValidationError,
        r matches Ok(vs) ==> pda@.len() > 0 && values_from_prefixed_keys(
            vs@,
            table_in(db.store(), ("proposal").spec_bytes()),
            child_prefix_view(pda.spec_bytes()),
        ) && covers_prefixed_values(
            vs@,
            table_in(db.store(), ("proposal").spec_bytes()),
            child_prefix_view(pda.spec_bytes()),
        ),
        r is Err ==> r->Err_0 is ValidationError || r->Err_0 is DatabaseError,
        r is Err && r->Err_0 is ValidationError ==> pda@.len() == 0
            && r->Err_0->ValidationError_0@ == ("PDA cannot be empty")@,
{
    get_child_records(db, "proposal", pda)
}

} // verus!
