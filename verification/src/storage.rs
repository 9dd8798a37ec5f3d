//! The mathematical model of the multi-table store, the storage error
//! taxonomy, and the capability trait that every backend implements.

use vstd::prelude::*;
use vstd::string::StringSliceAdditionalSpecFns;

verus! {

/// One table: an independent key -> value mapping over byte strings.
pub type TableView = Map<Seq<u8>, Seq<u8>>;

/// The whole environment: table name (bytes) -> table contents.
pub type StoreView = Map<Seq<u8>, TableView>;

/// Cap on the number of named tables an environment may hold.
pub const MAX_TABLES: usize = 100;

/// The contents of table `t` in store `s`; an absent table reads as empty.
pub open spec fn table_in(s: StoreView, t: Seq<u8>) -> TableView {
    if s.dom().contains(t) {
        s[t]
    } else {
        Map::empty()
    }
}

/// The store after upserting `k -> v` into table `t`, creating `t` if absent.
pub open spec fn store_put(s: StoreView, t: Seq<u8>, k: Seq<u8>, v: Seq<u8>) -> StoreView {
    s.insert(t, table_in(s, t).insert(k, v))
}

/// The value at key `k` of table `t`, if any; an absent table yields `None`
/// exactly as an absent key does.
pub open spec fn store_get(s: StoreView, t: Seq<u8>, k: Seq<u8>) -> Option<Seq<u8>> {
    if table_in(s, t).dom().contains(k) {
        Some(table_in(s, t)[k])
    } else {
        None
    }
}

/// The store after upserting every pair of `items` into table `t`, in order.
pub open spec fn store_put_seq(s: StoreView, t: Seq<u8>, items: Seq<(Seq<u8>, Seq<u8>)>) -> StoreView
    decreases items.len(),
{
    if items.len() == 0 {
        s
    } else {
        store_put(store_put_seq(s, t, items.drop_last()), t, items.last().0, items.last().1)
    }
}

/// The pairs of `items` as a mapping, a later pair overriding an earlier one.
pub open spec fn pairs_map(items: Seq<(Seq<u8>, Seq<u8>)>) -> TableView
    decreases items.len(),
{
    if items.len() == 0 {
        Map::empty()
    } else {
        pairs_map(items.drop_last()).insert(items.last().0, items.last().1)
    }
}

/// A failure surfaced by a storage backend. Absence of a key or of a table
/// is never an error: it is reported as "no value" at the value level.
#[derive(Debug)]
pub enum StorageError {
    /// The environment could not be opened or created, or its
    /// configuration was rejected.
    EnvironmentOpenFailure(String),
    /// Beginning or committing a transaction failed.
    TransactionFailure(String),
    /// Creating or opening a named table failed inside an otherwise
    /// valid transaction.
    TableAccessFailure(String),
}

impl StorageError {
    /// The human-readable description carried by the failure.
    pub fn message(self) -> (m: String)
        ensures
            self is EnvironmentOpenFailure ==> m == self->EnvironmentOpenFailure_0,
            self is TransactionFailure ==> m == self->TransactionFailure_0,
            self is TableAccessFailure ==> m == self->TableAccessFailure_0,
    {
        match self {
            StorageError::EnvironmentOpenFailure(m) => m,
            StorageError::TransactionFailure(m) => m,
            StorageError::TableAccessFailure(m) => m,
        }
    }
}

/// The mathematical value of an optional byte value.
pub open spec fn opt_bytes_view(v: Option<Vec<u8>>) -> Option<Seq<u8>> {
    match v {
        Some(b) => Some(b@),
        None => None,
    }
}

/// The pairs of an entry list as mathematical byte strings.
pub open spec fn entries_view(es: Seq<(Vec<u8>, Vec<u8>)>) -> Seq<(Seq<u8>, Seq<u8>)> {
    es.map_values(|e: (Vec<u8>, Vec<u8>)| (e.0@, e.1@))
}

/// No two entries of the list carry the same key.
pub open spec fn entries_keys_distinct(es: Seq<(Vec<u8>, Vec<u8>)>) -> bool {
    forall|i: int, j: int| 0 <= i < j < es.len() ==> es[i].0@ != es[j].0@
}

/// The storage capability: a handle to a multi-table byte-oriented
/// key-value environment with atomic single-key and batch writes, point
/// reads and full-table scans, each operation one atomic unit.
///
/// `store()` is the handle's model of the environment, and `wf()` its
/// well-formedness. A backend over shared state (a cloned on-disk handle)
/// tracks in `store()` only the operations made through this handle, so
/// nothing is promised here about how clones of one environment observe
/// each other; a value backend keeps clones independent.
pub trait SafeDatabase: Sized {
    /// The handle's model of the environment contents.
    spec fn store(&self) -> StoreView;

    /// The handle is in a usable state.
    spec fn wf(&self) -> bool;

    /// Opens or creates the environment at `path`, configured for at most
    /// `MAX_TABLES` named tables.
    fn new(path: &str) -> (r: Result<Self, StorageError>)
        ensures
            r matches Ok(db) ==> db.wf(),
    ;

    /// A new handle to the same environment; O(1), no I/O for a shared
    /// backend, a snapshot for a value backend.
    fn clone(&self) -> (r: Self)
        requires
            self.wf(),
        ensures
            r.wf(),
    ;

    /// Upserts `key -> value` in table `table` within one transaction,
    /// creating the table if absent; on failure nothing is changed.
    fn write(&mut self, key: &[u8], value: &[u8], table: &str) -> (r: Result<(), StorageError>)
        requires
            old(self).wf(),
        ensures
            final(self).wf(),
            r is Ok ==> final(self).store() == store_put(
                old(self).store(),
                table.spec_bytes(),
                key@,
                value@,
            ),
            r is Err ==> final(self).store() == old(self).store(),
    ;

    /// The value at `key` in table `table`; an absent key and an absent
    /// table both yield `None`, never an error.
    fn read(&self, key: &[u8], table: &str) -> (r: Result<Option<Vec<u8>>, StorageError>)
        requires
            self.wf(),
        ensures
            r matches Ok(v) ==> opt_bytes_view(v) == store_get(
                self.store(),
                table.spec_bytes(),
                key@,
            ),
    ;

    /// Every entry of table `table`, each key exactly once, with no
    /// extras and no promised order; an absent table yields no entries.
    fn read_all(&self, table: &str) -> (r: Result<Vec<(Vec<u8>, Vec<u8>)>, StorageError>)
        requires
            self.wf(),
        ensures
            r matches Ok(es) ==> entries_keys_distinct(es@) && pairs_map(entries_view(es@))
                == table_in(self.store(), table.spec_bytes()),
    ;

    /// Upserts every pair of `items` into table `table`, in order, within
    /// one transaction: either all of them take effect or none does.
    fn batch_write(&mut self, items: &[(Vec<u8>, Vec<u8>)], table: &str) -> (r: Result<
        (),
        StorageError,
    >)
        requires
            old(self).wf(),
        ensures
            final(self).wf(),
            r is Ok ==> final(self).store() == store_put_seq(
                old(self).store(),
                table.spec_bytes(),
                entries_view(items@),
            ),
            r is Err ==> final(self).store() == old(self).store(),
    ;
}

} // verus!
