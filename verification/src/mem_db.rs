//! A verified in-memory backend of the storage capability: tables are
//! association lists with distinct names, entries association lists with
//! distinct keys, and every operation is proved against the store model.

use vstd::prelude::*;
use vstd::string::StringSliceAdditionalSpecFns;

use crate::bytes::bytes_eq;
use crate::laws::{lemma_pairs_absent, lemma_pairs_index};
use crate::storage::{
    entries_keys_distinct, entries_view, opt_bytes_view, pairs_map, store_get, store_put,
    store_put_seq, table_in, SafeDatabase, StorageError, StoreView, TableView, MAX_TABLES,
};

verus! {

/// One named table held in memory.
pub struct MemTable {
    name: Vec<u8>,
    entries: Vec<(Vec<u8>, Vec<u8>)>,
}

/// An in-memory multi-table store. It satisfies the same capability as
/// an on-disk environment; cloning it snapshots the contents instead of
/// sharing them, so clones are independent stores.
pub struct MemDatabase {
    tables: Vec<MemTable>,
}

impl MemTable {
    /// The table's name, as bytes.
    pub closed spec fn name_view(&self) -> Seq<u8> {
        self.name@
    }

    /// The table's contents as a mapping.
    pub closed spec fn table_view(&self) -> TableView {
        pairs_map(entries_view(self.entries@))
    }

    /// No two entries carry the same key.
    pub closed spec fn wf(&self) -> bool {
        entries_keys_distinct(self.entries@)
    }
}

/// The store held by a list of tables, a later table of the same name
/// shadowing an earlier one (well-formed stores have distinct names).
pub closed spec fn tables_store(ts: Seq<MemTable>) -> StoreView
    decreases ts.len(),
{
    if ts.len() == 0 {
        Map::<Seq<u8>, TableView>::empty()
    } else {
        tables_store(ts.drop_last()).insert(ts.last().name_view(), ts.last().table_view())
    }
}

/// No two tables of the list carry the same name.
pub closed spec fn names_distinct(ts: Seq<MemTable>) -> bool {
    forall|i: int, j: int| 0 <= i < j < ts.len() ==> ts[i].name_view() != ts[j].name_view()
}

proof fn lemma_store_index(ts: Seq<MemTable>, i: int)
    requires
        names_distinct(ts),
        0 <= i < ts.len(),
    ensures
        tables_store(ts).dom().contains(ts[i].name_view()),
        tables_store(ts)[ts[i].name_view()] == ts[i].table_view(),
    decreases ts.len(),
{
    if i < ts.len() - 1 {
        lemma_store_index(ts.drop_last(), i);
        assert(ts.drop_last()[i] == ts[i]);
    }
}

proof fn lemma_store_absent(ts: Seq<MemTable>, n: Seq<u8>)
    requires
        forall|i: int| 0 <= i < ts.len() ==> ts[i].name_view() != n,
    ensures
        !tables_store(ts).dom().contains(n),
    decreases ts.len(),
{
    if ts.len() > 0 {
        lemma_store_absent(ts.drop_last(), n);
    }
}

proof fn lemma_store_update(ts: Seq<MemTable>, i: int, t2: MemTable)
    requires
        names_distinct(ts),
        0 <= i < ts.len(),
        t2.name_view() == ts[i].name_view(),
    ensures
        tables_store(ts.update(i, t2)) == tables_store(ts).insert(t2.name_view(), t2.table_view()),
    decreases ts.len(),
{
    if i == ts.len() - 1 {
        assert(ts.update(i, t2).drop_last() =~= ts.drop_last());
        assert(tables_store(ts.update(i, t2)) =~~= tables_store(ts).insert(
            t2.name_view(),
            t2.table_view(),
        ));
    } else {
        lemma_store_update(ts.drop_last(), i, t2);
        assert(ts.update(i, t2).drop_last() =~= ts.drop_last().update(i, t2));
        assert(ts.update(i, t2).last() == ts.last());
        assert(tables_store(ts.update(i, t2)) =~~= tables_store(ts).insert(
            t2.name_view(),
            t2.table_view(),
        ));
    }
}

proof fn lemma_pairs_update(ps: Seq<(Seq<u8>, Seq<u8>)>, i: int, p: (Seq<u8>, Seq<u8>))
    requires
        forall|a: int, b: int| 0 <= a < b < ps.len() ==> ps[a].0 != ps[b].0,
        0 <= i < ps.len(),
        p.0 == ps[i].0,
    ensures
        pairs_map(ps.update(i, p)) == pairs_map(ps).insert(p.0, p.1),
    decreases ps.len(),
{
    if i == ps.len() - 1 {
        assert(ps.update(i, p).drop_last() =~= ps.drop_last());
        assert(pairs_map(ps.update(i, p)) =~~= pairs_map(ps).insert(p.0, p.1));
    } else {
        lemma_pairs_update(ps.drop_last(), i, p);
        assert(ps.update(i, p).drop_last() =~= ps.drop_last().update(i, p));
        assert(ps.update(i, p).last() == ps.last());
        assert(pairs_map(ps.update(i, p)) =~~= pairs_map(ps).insert(p.0, p.1));
    }
}

proof fn lemma_store_dom(ts: Seq<MemTable>)
    requires
        names_distinct(ts),
    ensures
        tables_store(ts).dom().finite(),
        tables_store(ts).dom().len() == ts.len(),
    decreases ts.len(),
{
    if ts.len() > 0 {
        lemma_store_dom(ts.drop_last());
        assert forall|i: int| 0 <= i < ts.drop_last().len() implies ts.drop_last()[i].name_view()
            != ts.last().name_view() by {
            assert(ts.drop_last()[i] == ts[i]);
        }
        lemma_store_absent(ts.drop_last(), ts.last().name_view());
    }
}

fn copy_vec_u8(v: &Vec<u8>) -> (r: Vec<u8>)
    ensures
        r@ == v@,
{
    vstd::slice::slice_to_vec(v.as_slice())
}

fn copy_entries(es: &Vec<(Vec<u8>, Vec<u8>)>) -> (r: Vec<(Vec<u8>, Vec<u8>)>)
    ensures
        r@.len() == es@.len(),
        forall|j: int| 0 <= j < es@.len() ==> r@[j].0@ == es@[j].0@ && r@[j].1@ == es@[j].1@,
{
    let mut r: Vec<(Vec<u8>, Vec<u8>)> = Vec::new();
    let mut i: usize = 0;
    while i < es.len()
        invariant
            0 <= i <= es@.len(),
            r@.len() == i,
            forall|j: int| 0 <= j < i ==> r@[j].0@ == es@[j].0@ && r@[j].1@ == es@[j].1@,
        decreases es@.len() - i,
    {
        let k = vstd::slice::slice_to_vec(es[i].0.as_slice());
        let v = vstd::slice::slice_to_vec(es[i].1.as_slice());
        r.push((k, v));
        i = i + 1;
    }
    r
}

fn find_table(ts: &Vec<MemTable>, name: &[u8]) -> (r: Option<usize>)
    ensures
        match r {
            Some(i) => 0 <= i < ts@.len() && ts@[i as int].name_view() == name@,
            None => forall|j: int| 0 <= j < ts@.len() ==> ts@[j].name_view() != name@,
        },
{
    let mut i: usize = 0;
    while i < ts.len()
        invariant
            0 <= i <= ts@.len(),
            forall|j: int| 0 <= j < i ==> ts@[j].name_view() != name@,
        decreases ts@.len() - i,
    {
        if bytes_eq(ts[i].name.as_slice(), name) {
            return Some(i);
        }
        i = i + 1;
    }
    None
}

fn find_entry(es: &Vec<(Vec<u8>, Vec<u8>)>, key: &[u8]) -> (r: Option<usize>)
    ensures
        match r {
            Some(i) => 0 <= i < es@.len() && es@[i as int].0@ == key@,
            None => forall|j: int| 0 <= j < es@.len() ==> es@[j].0@ != key@,
        },
{
    let mut i: usize = 0;
    while i < es.len()
        invariant
            0 <= i <= es@.len(),
            forall|j: int| 0 <= j < i ==> es@[j].0@ != key@,
        decreases es@.len() - i,
    {
        if bytes_eq(es[i].0.as_slice(), key) {
            return Some(i);
        }
        i = i + 1;
    }
    None
}

fn table_with_put(t: &MemTable, key: &[u8], value: &[u8]) -> (r: MemTable)
    requires
        t.wf(),
    ensures
        r.wf(),
        r.name_view() == t.name_view(),
        r.table_view() == t.table_view().insert(key@, value@),
{
    let mut entries = copy_entries(&t.entries);
    proof {
        assert(entries_view(entries@) =~= entries_view(t.entries@));
    }
    let ghost ev0 = entries_view(entries@);
    let k = vstd::slice::slice_to_vec(key);
    let v = vstd::slice::slice_to_vec(value);
    match find_entry(&entries, key) {
        Some(i) => {
            entries.set(i, (k, v));
            proof {
                assert(entries_view(entries@) =~= ev0.update(i as int, (key@, value@)));
                lemma_pairs_update(ev0, i as int, (key@, value@));
            }
        },
        None => {
            entries.push((k, v));
            proof {
                assert(entries_view(entries@).drop_last() =~= ev0);
                assert(entries_view(entries@).last() == (key@, value@));
            }
        },
    }
    MemTable { name: copy_vec_u8(&t.name), entries }
}

fn table_with_puts(t: &MemTable, items: &[(Vec<u8>, Vec<u8>)]) -> (r: MemTable)
    requires
        t.wf(),
    ensures
        r.wf(),
        r.name_view() == t.name_view(),
        r.table_view() == t.table_view().union_prefer_right(pairs_map(entries_view(items@))),
{
    let mut cur = MemTable { name: copy_vec_u8(&t.name), entries: copy_entries(&t.entries) };
    proof {
        assert(entries_view(cur.entries@) =~= entries_view(t.entries@));
        assert(entries_view(items@.take(0)) =~= Seq::<(Seq<u8>, Seq<u8>)>::empty());
        assert(cur.table_view() =~= t.table_view().union_prefer_right(
            pairs_map(entries_view(items@.take(0))),
        ));
    }
    let mut i: usize = 0;
    while i < items.len()
        invariant
            0 <= i <= items@.len(),
            cur.wf(),
            cur.name_view() == t.name_view(),
            cur.table_view() == t.table_view().union_prefer_right(
                pairs_map(entries_view(items@.take(i as int))),
            ),
        decreases items@.len() - i,
    {
        let next = table_with_put(&cur, items[i].0.as_slice(), items[i].1.as_slice());
        proof {
            let ps = entries_view(items@.take(i as int));
            let ps1 = entries_view(items@.take(i as int + 1));
            assert(ps1.drop_last() =~= ps);
            assert(ps1.last() == (items@[i as int].0@, items@[i as int].1@));
            assert(next.table_view() =~= t.table_view().union_prefer_right(pairs_map(ps1)));
        }
        cur = next;
        i = i + 1;
    }
    proof {
        assert(items@.take(items@.len() as int) =~= items@);
    }
    cur
}

impl SafeDatabase for MemDatabase {
    /// The contents: the mapping held by the table list.
    closed spec fn store(&self) -> StoreView {
        tables_store(self.tables@)
    }

    /// Table names distinct, entry keys distinct per table, and at most
    /// `MAX_TABLES` tables.
    closed spec fn wf(&self) -> bool {
        &&& names_distinct(self.tables@)
        &&& forall|i: int| 0 <= i < self.tables@.len() ==> #[trigger] self.tables@[i].wf()
        &&& self.tables@.len() <= MAX_TABLES
    }

    /// An in-memory store needs no path: it always opens, empty.
    fn new(path: &str) -> (r: Result<Self, StorageError>)
        ensures
            r is Ok,
            r matches Ok(db) ==> db.store() == Map::<Seq<u8>, TableView>::empty(),
    {
        let _unused = path;
        Ok(MemDatabase { tables: Vec::new() })
    }

    /// A deep copy: the clone holds the same contents and evolves
    /// independently afterwards.
    fn clone(&self) -> (r: Self)
        ensures
            r.store() == self.store(),
    {
        let mut ts: Vec<MemTable> = Vec::new();
        let mut i: usize = 0;
        while i < self.tables.len()
            invariant
                0 <= i <= self.tables@.len(),
                self.wf(),
                ts@.len() == i,
                forall|j: int|
                    0 <= j < i ==> #[trigger] ts@[j].name_view() == self.tables@[j].name_view()
                        && ts@[j].table_view() == self.tables@[j].table_view() && ts@[j].wf(),
                tables_store(ts@) == tables_store(self.tables@.take(i as int)),
            decreases self.tables@.len() - i,
        {
            let src = &self.tables[i];
            let t2 = MemTable { name: copy_vec_u8(&src.name), entries: copy_entries(&src.entries) };
            proof {
                assert(entries_view(t2.entries@) =~= entries_view(src.entries@));
            }
            let ghost ts_before = ts@;
            let ghost g2 = t2;
            proof {
                assert(self.tables@[i as int].wf());
                assert forall|a: int, b: int| 0 <= a < b < g2.entries@.len() implies g2.entries@[a].0@
                    != g2.entries@[b].0@ by {
                    assert(src.entries@[a].0@ != src.entries@[b].0@);
                }
            }
            ts.push(t2);
            proof {
                assert(ts@.drop_last() =~= ts_before);
                assert(self.tables@.take(i as int + 1).drop_last() =~= self.tables@.take(i as int));
                assert(self.tables@.take(i as int + 1).last() == self.tables@[i as int]);
                assert(ts@[i as int].wf());
                assert forall|j: int| 0 <= j < i as int + 1 implies #[trigger] ts@[j].name_view()
                    == self.tables@[j].name_view() && ts@[j].table_view()
                    == self.tables@[j].table_view() && ts@[j].wf() by {
                    if j < i as int {
                        assert(ts@[j] == ts_before[j]);
                        assert(ts_before[j].name_view() == self.tables@[j].name_view()
                            && ts_before[j].table_view() == self.tables@[j].table_view()
                            && ts_before[j].wf());
                    }
                }
            }
            i = i + 1;
        }
        proof {
            assert(self.tables@.take(self.tables@.len() as int) =~= self.tables@);
        }
        MemDatabase { tables: ts }
    }

    /// Succeeds exactly when the table already exists or the table cap
    /// leaves room to create it; a refused creation changes nothing.
    fn write(&mut self, key: &[u8], value: &[u8], table: &str) -> (r: Result<(), StorageError>)
        ensures
            r is Ok <==> (old(self).store().dom().contains(table.spec_bytes()) || old(
                self,
            ).store().dom().len() < MAX_TABLES),
            r is Err ==> r->Err_0 is TableAccessFailure,
    {
        let name = vstd::slice::slice_to_vec(table.as_bytes());
        proof {
            lemma_store_dom(self.tables@);
        }
        match find_table(&self.tables, name.as_slice()) {
            Some(ti) => {
                proof {
                    lemma_store_index(self.tables@, ti as int);
                }
                let t2 = table_with_put(&self.tables[ti], key, value);
                let ghost g = t2;
                let ghost ts0 = self.tables@;
                self.tables.set(ti, t2);
                proof {
                    lemma_store_update(ts0, ti as int, g);
                    assert(names_distinct(self.tables@));
                    assert(tables_store(self.tables@) =~~= store_put(
                        tables_store(ts0),
                        table.spec_bytes(),
                        key@,
                        value@,
                    ));
                }
                Ok(())
            },
            None => {
                proof {
                    lemma_store_absent(self.tables@, name@);
                }
                if self.tables.len() >= MAX_TABLES {
                    return Err(
                        StorageError::TableAccessFailure(
                            "maximum number of named tables reached".to_owned(),
                        ),
                    );
                }
                let k = vstd::slice::slice_to_vec(key);
                let v = vstd::slice::slice_to_vec(value);
                let mut entries: Vec<(Vec<u8>, Vec<u8>)> = Vec::new();
                entries.push((k, v));
                let t2 = MemTable { name, entries };
                let ghost g = t2;
                let ghost ts0 = self.tables@;
                self.tables.push(t2);
                proof {
                    assert(self.tables@.drop_last() =~= ts0);
                    assert(entries_view(g.entries@).len() == 1);
                    assert(entries_view(g.entries@).last() == (key@, value@));
                    assert(entries_view(g.entries@).drop_last() =~= Seq::<(
                        Seq<u8>,
                        Seq<u8>,
                    )>::empty());
                    assert(pairs_map(entries_view(g.entries@).drop_last()) == Map::<
                        Seq<u8>,
                        Seq<u8>,
                    >::empty());
                    assert(g.table_view() =~= Map::<Seq<u8>, Seq<u8>>::empty().insert(key@, value@));
                    assert(table_in(tables_store(ts0), table.spec_bytes()) =~= Map::<
                        Seq<u8>,
                        Seq<u8>,
                    >::empty());
                    assert(tables_store(self.tables@) =~~= store_put(
                        tables_store(ts0),
                        table.spec_bytes(),
                        key@,
                        value@,
                    ));
                }
                Ok(())
            },
        }
    }

    /// Never fails: an absent table and an absent key both read as no
    /// value.
    fn read(&self, key: &[u8], table: &str) -> (r: Result<Option<Vec<u8>>, StorageError>)
        ensures
            r is Ok,
    {
        let name = vstd::slice::slice_to_vec(table.as_bytes());
        match find_table(&self.tables, name.as_slice()) {
            None => {
                proof {
                    lemma_store_absent(self.tables@, name@);
                }
                Ok(None)
            },
            Some(ti) => {
                proof {
                    lemma_store_index(self.tables@, ti as int);
                }
                let t = &self.tables[ti];
                proof {
                    assert(self.tables@[ti as int].wf());
                    assert forall|a: int, b: int|
                        0 <= a < b < entries_view(t.entries@).len() implies entries_view(
                        t.entries@,
                    )[a].0 != entries_view(t.entries@)[b].0 by {
                        assert(t.entries@[a].0@ != t.entries@[b].0@);
                    }
                }
                match find_entry(&t.entries, key) {
                    Some(ki) => {
                        proof {
                            lemma_pairs_index(entries_view(t.entries@), ki as int);
                        }
                        Ok(Some(vstd::slice::slice_to_vec(t.entries[ki].1.as_slice())))
                    },
                    None => {
                        proof {
                            assert forall|j: int|
                                0 <= j < entries_view(t.entries@).len() implies entries_view(
                                t.entries@,
                            )[j].0 != key@ by {
                                assert(t.entries@[j].0@ != key@);
                            }
                            lemma_pairs_absent(entries_view(t.entries@), key@);
                        }
                        Ok(None)
                    },
                }
            },
        }
    }

    /// Never fails: an absent table scans as empty.
    fn read_all(&self, table: &str) -> (r: Result<Vec<(Vec<u8>, Vec<u8>)>, StorageError>)
        ensures
            r is Ok,
    {
        let name = vstd::slice::slice_to_vec(table.as_bytes());
        match find_table(&self.tables, name.as_slice()) {
            None => {
                proof {
                    lemma_store_absent(self.tables@, name@);
                    assert(entries_view(Seq::<(Vec<u8>, Vec<u8>)>::empty()) =~= Seq::<(
                        Seq<u8>,
                        Seq<u8>,
                    )>::empty());
                    assert(pairs_map(entries_view(Seq::<(Vec<u8>, Vec<u8>)>::empty())) =~= table_in(
                        tables_store(self.tables@),
                        name@,
                    ));
                }
                Ok(Vec::new())
            },
            Some(ti) => {
                proof {
                    lemma_store_index(self.tables@, ti as int);
                }
                let t = &self.tables[ti];
                let es = copy_entries(&t.entries);
                proof {
                    assert(entries_view(es@) =~= entries_view(t.entries@));
                    assert(self.tables@[ti as int].wf());
                    assert forall|a: int, b: int| 0 <= a < b < es@.len() implies es@[a].0@
                        != es@[b].0@ by {
                        assert(t.entries@[a].0@ != t.entries@[b].0@);
                    }
                }
                Ok(es)
            },
        }
    }

    /// One atomic unit: succeeds, applying every pair in order, exactly
    /// when the batch is empty, the table exists, or the cap leaves room
    /// to create it; otherwise nothing is changed.
    fn batch_write(&mut self, items: &[(Vec<u8>, Vec<u8>)], table: &str) -> (r: Result<
        (),
        StorageError,
    >)
        ensures
            r is Ok <==> (items@.len() == 0 || old(self).store().dom().contains(table.spec_bytes())
                || old(self).store().dom().len() < MAX_TABLES),
            r is Err ==> r->Err_0 is TableAccessFailure,
    {
        let name = vstd::slice::slice_to_vec(table.as_bytes());
        proof {
            lemma_store_dom(self.tables@);
        }
        match find_table(&self.tables, name.as_slice()) {
            Some(ti) => {
                proof {
                    lemma_store_index(self.tables@, ti as int);
                }
                let t2 = table_with_puts(&self.tables[ti], items);
                let ghost g = t2;
                let ghost ts0 = self.tables@;
                self.tables.set(ti, t2);
                proof {
                    lemma_store_update(ts0, ti as int, g);
                    if items@.len() == 0 {
                        assert(entries_view(items@) =~= Seq::<(Seq<u8>, Seq<u8>)>::empty());
                        assert(g.table_view() =~= ts0[ti as int].table_view());
                        assert(tables_store(self.tables@) =~~= tables_store(ts0));
                    } else {
                        crate::laws::lemma_batch_as_insert(
                            tables_store(ts0),
                            table.spec_bytes(),
                            entries_view(items@),
                        );
                        assert(tables_store(self.tables@) =~~= store_put_seq(
                            tables_store(ts0),
                            table.spec_bytes(),
                            entries_view(items@),
                        ));
                    }
                }
                Ok(())
            },
            None => {
                if items.len() == 0 {
                    return Ok(());
                }
                proof {
                    lemma_store_absent(self.tables@, name@);
                }
                if self.tables.len() >= MAX_TABLES {
                    return Err(
                        StorageError::TableAccessFailure(
                            "maximum number of named tables reached".to_owned(),
                        ),
                    );
                }
                let fresh = MemTable { name, entries: Vec::new() };
                proof {
                    assert(entries_view(fresh.entries@) =~= Seq::<(Seq<u8>, Seq<u8>)>::empty());
                    assert(fresh.table_view() =~= Map::<Seq<u8>, Seq<u8>>::empty());
                }
                let t2 = table_with_puts(&fresh, items);
                let ghost g = t2;
                let ghost ts0 = self.tables@;
                self.tables.push(t2);
                proof {
                    assert(self.tables@.drop_last() =~= ts0);
                    crate::laws::lemma_batch_as_insert(
                        tables_store(ts0),
                        table.spec_bytes(),
                        entries_view(items@),
                    );
                    assert(table_in(tables_store(ts0), table.spec_bytes()) =~= Map::<
                        Seq<u8>,
                        Seq<u8>,
                    >::empty());
                    assert(g.table_view() =~~= table_in(
                        tables_store(ts0),
                        table.spec_bytes(),
                    ).union_prefer_right(pairs_map(entries_view(items@))));
                    assert(tables_store(self.tables@) =~~= store_put_seq(
                        tables_store(ts0),
                        table.spec_bytes(),
                        entries_view(items@),
                    ));
                }
                Ok(())
            },
        }
    }
}

} // verus!
