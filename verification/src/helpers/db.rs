//! The typed key-value store behind all persistence: raw get/put/delete
//! over integer-tagged columns, whole-column reads in key order, and
//! atomic multi-key writes.
//!
//! The store is the column-family database of the `kvdb` family; what it
//! holds is modelled by [`kv_contents`], a map from `(column, key)` to the
//! stored bytes, and every operation's contract says exactly how it reads
//! or changes that map.

use vstd::prelude::*;

use kvdb::KeyValueDB;

use crate::errors::CloudError;

verus! {

#[verifier::external_type_specification]
#[verifier::external_body]
pub struct ExInMemory(kvdb_memorydb::InMemory);

/// What the backing database holds: the stored bytes per column and key.
pub uninterp spec fn kv_contents(db: kvdb_memorydb::InMemory) -> Map<(u32, Seq<u8>), Seq<u8>>;

/// The number of columns the backing database was created with.
pub uninterp spec fn kv_columns(db: kvdb_memorydb::InMemory) -> u32;

/// The empty store contents.
pub open spec fn empty_contents() -> Map<(u32, Seq<u8>), Seq<u8>> {
    Map::empty()
}

/// Lexicographic order on byte strings, as the store's iteration yields
/// keys.
pub open spec fn bytes_lt(a: Seq<u8>, b: Seq<u8>) -> bool
    decreases a.len(),
{
    if b.len() == 0 {
        false
    } else if a.len() == 0 {
        true
    } else if a[0] < b[0] {
        true
    } else if a[0] > b[0] {
        false
    } else {
        bytes_lt(a.drop_first(), b.drop_first())
    }
}

/// Relies on `KeyValueDB::get` of the in-memory database: the stored value
/// for the key, or an error exactly when the column does not exist.
#[verifier::external_body]
fn mem_get(db: &kvdb_memorydb::InMemory, col: u32, key: &Vec<u8>) -> (r: Option<Vec<u8>>)
    requires
        col < kv_columns(*db),
    ensures
        match r {
            Some(v) => kv_contents(*db).contains_key((col, key@)) && v@ == kv_contents(*db)[
                (col, key@)
            ],
            None => !kv_contents(*db).contains_key((col, key@)),
        },
{
    db.get(col, key).ok().flatten()
}

/// Relies on `KeyValueDB::write` with a single-insert transaction: the
/// write is applied in full.
#[verifier::external_body]
fn mem_put(db: &mut kvdb_memorydb::InMemory, col: u32, key: &Vec<u8>, value: &Vec<u8>)
    requires
        col < kv_columns(*old(db)),
    ensures
        kv_columns(*final(db)) == kv_columns(*old(db)),
        kv_contents(*final(db)) == kv_contents(*old(db)).insert((col, key@), value@),
{
    let mut tx = kvdb::DBTransaction::new();
    tx.put(col, key, value);
    let _ = db.write(tx);
}

/// Relies on `KeyValueDB::write` with one transaction holding every pair:
/// the whole batch is applied atomically — afterwards the contents carry
/// every pair of the batch, later pairs overriding earlier ones at equal
/// keys, and nothing else changed.
#[verifier::external_body]
fn mem_put_all(db: &mut kvdb_memorydb::InMemory, col: u32, kvs: &Vec<(Vec<u8>, Vec<u8>)>)
    requires
        col < kv_columns(*old(db)),
    ensures
        kv_columns(*final(db)) == kv_columns(*old(db)),
        kv_contents(*final(db)) == batch_insert(kv_contents(*old(db)), col, kvs@),
{
    let mut tx = kvdb::DBTransaction::new();
    for (key, value) in kvs.iter() {
        tx.put(col, key, value);
    }
    let _ = db.write(tx);
}

/// The effect of writing a batch of pairs in order.
pub open spec fn batch_insert(
    m: Map<(u32, Seq<u8>), Seq<u8>>,
    col: u32,
    kvs: Seq<(Vec<u8>, Vec<u8>)>,
) -> Map<(u32, Seq<u8>), Seq<u8>>
    decreases kvs.len(),
{
    if kvs.len() == 0 {
        m
    } else {
        batch_insert(m, col, kvs.drop_last()).insert(
            (col, kvs.last().0@),
            kvs.last().1@,
        )
    }
}

/// Relies on `KeyValueDB::write` with a delete operation.
#[verifier::external_body]
fn mem_delete(db: &mut kvdb_memorydb::InMemory, col: u32, key: &Vec<u8>)
    requires
        col < kv_columns(*old(db)),
    ensures
        kv_columns(*final(db)) == kv_columns(*old(db)),
        kv_contents(*final(db)) == kv_contents(*old(db)).remove((col, key@)),
{
    let mut tx = kvdb::DBTransaction::new();
    tx.delete(col, key);
    let _ = db.write(tx);
}

/// Relies on `KeyValueDB::write` with an empty-prefix delete: it clears
/// the column.
#[verifier::external_body]
fn mem_delete_all(db: &mut kvdb_memorydb::InMemory, col: u32)
    requires
        col < kv_columns(*old(db)),
    ensures
        kv_columns(*final(db)) == kv_columns(*old(db)),
        forall|k: (u32, Seq<u8>)|
            kv_contents(*final(db)).contains_key(k) <==> (kv_contents(*old(db)).contains_key(k)
                && k.0 != col),
        forall|k: (u32, Seq<u8>)|
            kv_contents(*final(db)).contains_key(k) ==> kv_contents(*final(db))[k] == kv_contents(
                *old(db),
            )[k],
{
    let mut tx = kvdb::DBTransaction::new();
    tx.delete_prefix(col, &[]);
    let _ = db.write(tx);
}

/// Relies on `KeyValueDB::iter` of the in-memory database, which walks a
/// column's ordered map: every stored pair of the column, each exactly
/// once, in strictly increasing key order.
#[verifier::external_body]
fn mem_iter_all(db: &kvdb_memorydb::InMemory, col: u32) -> (r: Vec<(Vec<u8>, Vec<u8>)>)
    requires
        col < kv_columns(*db),
    ensures
        forall|i: int|
            0 <= i < r@.len() ==> kv_contents(*db).contains_key((col, (#[trigger] r@[i]).0@))
                && r@[i].1@ == kv_contents(*db)[(col, r@[i].0@)],
        forall|k: Seq<u8>|
            kv_contents(*db).contains_key((col, k)) ==> exists|i: int|
                0 <= i < r@.len() && (#[trigger] r@[i]).0@ == k,
        forall|i: int, j: int|
            0 <= i < j < r@.len() ==> bytes_lt((#[trigger] r@[i]).0@, (#[trigger] r@[j]).0@),
{
    db.iter(col).map(|(k, v)| (k.into_vec(), v.into_vec())).collect()
}

/// The typed store: a fixed number of integer-tagged columns over one
/// backing database.
pub struct KeyValueDb {
    columns: u32,
    db: kvdb_memorydb::InMemory,
}

impl KeyValueDb {
    pub closed spec fn wf(&self) -> bool {
        kv_columns(self.db) == self.columns
    }

    pub closed spec fn contents(&self) -> Map<(u32, Seq<u8>), Seq<u8>> {
        kv_contents(self.db)
    }

    pub closed spec fn columns_spec(&self) -> u32 {
        self.columns
    }

    /// Opens a fresh store with the given number of columns. Relies on
    /// `kvdb_memorydb::create`: a fresh database holding nothing.
    #[verifier::external_body]
    pub fn new(columns: u32) -> (r: KeyValueDb)
        ensures
            r.wf(),
            r.columns_spec() == columns,
            r.contents() == empty_contents(),
    {
        KeyValueDb { columns, db: kvdb_memorydb::create(columns) }
    }

    /// Reads the stored bytes for a key; a read outside the store's
    /// columns is a database error.
    pub fn get_raw(&self, col: u32, key: &Vec<u8>) -> (r: Result<Option<Vec<u8>>, CloudError>)
        requires
            self.wf(),
        ensures
            col < self.columns_spec() ==> match r {
                Ok(Some(v)) => self.contents().contains_key((col, key@)) && v@ == self.contents()[
                    (col, key@)
                ],
                Ok(None) => !self.contents().contains_key((col, key@)),
                Err(_) => false,
            },
            col >= self.columns_spec() ==> (r matches Err(e) && e matches
                CloudError::DataBaseReadError(_)),
    {
        if col >= self.columns {
            return Err(
                CloudError::DataBaseReadError(String::from_str("no such column in the store")),
            );
        }
        Ok(mem_get(&self.db, col, key))
    }

    /// Whether a key is present.
    pub fn contains(&self, col: u32, key: &Vec<u8>) -> (r: Result<bool, CloudError>)
        requires
            self.wf(),
        ensures
            col < self.columns_spec() ==> r == Ok::<bool, CloudError>(
                self.contents().contains_key((col, key@)),
            ),
            col >= self.columns_spec() ==> r is Err,
    {
        match self.get_raw(col, key) {
            Ok(Some(_)) => Ok(true),
            Ok(None) => Ok(false),
            Err(e) => Err(e),
        }
    }

    /// Stores bytes under a key.
    pub fn save_raw(&mut self, col: u32, key: &Vec<u8>, value: &Vec<u8>) -> (r: Result<
        (),
        CloudError,
    >)
        requires
            old(self).wf(),
        ensures
            final(self).wf(),
            final(self).columns_spec() == old(self).columns_spec(),
            col < old(self).columns_spec() ==> r is Ok && final(self).contents() == old(
                self,
            ).contents().insert((col, key@), value@),
            col >= old(self).columns_spec() ==> (r matches Err(e) && e matches
                CloudError::DataBaseWriteError(_) && final(self).contents() == old(
                self,
            ).contents()),
    {
        if col >= self.columns {
            return Err(
                CloudError::DataBaseWriteError(String::from_str("no such column in the store")),
            );
        }
        mem_put(&mut self.db, col, key, value);
        Ok(())
    }

    /// Stores a whole batch of pairs in one atomic write: afterwards every
    /// pair of the batch is present, and nothing else changed.
    pub fn save_all_raw(&mut self, col: u32, kvs: &Vec<(Vec<u8>, Vec<u8>)>) -> (r: Result<
        (),
        CloudError,
    >)
        requires
            old(self).wf(),
        ensures
            final(self).wf(),
            final(self).columns_spec() == old(self).columns_spec(),
            col < old(self).columns_spec() ==> r is Ok && final(self).contents() == batch_insert(
                old(self).contents(),
                col,
                kvs@,
            ),
            col >= old(self).columns_spec() ==> (r matches Err(e) && e matches
                CloudError::DataBaseWriteError(_) && final(self).contents() == old(
                self,
            ).contents()),
    {
        if col >= self.columns {
            return Err(
                CloudError::DataBaseWriteError(String::from_str("no such column in the store")),
            );
        }
        mem_put_all(&mut self.db, col, kvs);
        Ok(())
    }

    /// Removes a key.
    pub fn delete(&mut self, col: u32, key: &Vec<u8>) -> (r: Result<(), CloudError>)
        requires
            old(self).wf(),
        ensures
            final(self).wf(),
            final(self).columns_spec() == old(self).columns_spec(),
            col < old(self).columns_spec() ==> r is Ok && final(self).contents() == old(
                self,
            ).contents().remove((col, key@)),
            col >= old(self).columns_spec() ==> r is Err && final(self).contents() == old(
                self,
            ).contents(),
    {
        if col >= self.columns {
            return Err(
                CloudError::DataBaseWriteError(String::from_str("no such column in the store")),
            );
        }
        mem_delete(&mut self.db, col, key);
        Ok(())
    }

    /// Clears one column.
    pub fn delete_all(&mut self, col: u32) -> (r: Result<(), CloudError>)
        requires
            old(self).wf(),
        ensures
            final(self).wf(),
            final(self).columns_spec() == old(self).columns_spec(),
            col < old(self).columns_spec() ==> r is Ok && (forall|k: (u32, Seq<u8>)|
                final(self).contents().contains_key(k) <==> (old(self).contents().contains_key(k)
                    && k.0 != col)) && (forall|k: (u32, Seq<u8>)|
                final(self).contents().contains_key(k) ==> final(self).contents()[k] == old(
                    self,
                ).contents()[k]),
            col >= old(self).columns_spec() ==> r is Err && final(self).contents() == old(
                self,
            ).contents(),
    {
        if col >= self.columns {
            return Err(
                CloudError::DataBaseWriteError(String::from_str("no such column in the store")),
            );
        }
        mem_delete_all(&mut self.db, col);
        Ok(())
    }

    /// Every stored pair of one column, in strictly increasing key order.
    pub fn get_all_raw(&self, col: u32) -> (r: Result<Vec<(Vec<u8>, Vec<u8>)>, CloudError>)
        requires
            self.wf(),
        ensures
            col < self.columns_spec() ==> match r {
                Ok(v) => {
                    &&& forall|i: int|
                        0 <= i < v@.len() ==> self.contents().contains_key(
                            (col, (#[trigger] v@[i]).0@),
                        ) && v@[i].1@ == self.contents()[(col, v@[i].0@)]
                    &&& forall|k: Seq<u8>|
                        self.contents().contains_key((col, k)) ==> exists|i: int|
                            0 <= i < v@.len() && (#[trigger] v@[i]).0@ == k
                    &&& forall|i: int, j: int|
                        0 <= i < j < v@.len() ==> bytes_lt(
                            (#[trigger] v@[i]).0@,
                            (#[trigger] v@[j]).0@,
                        )
                },
                Err(_) => false,
            },
            col >= self.columns_spec() ==> r is Err,
    {
        if col >= self.columns {
            return Err(
                CloudError::DataBaseReadError(String::from_str("no such column in the store")),
            );
        }
        Ok(mem_iter_all(&self.db, col))
    }
}

} // verus!
