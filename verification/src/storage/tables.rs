//! The embedded database: tables, transactions, and what is known of them.
use crate::order::text_lt;
use vstd::prelude::*;

verus! {

#[verifier::external_type_specification]
#[verifier::external_body]
pub struct ExDatabase(redb::Database);

#[verifier::external_type_specification]
#[verifier::external_body]
pub struct ExWriteTransaction(redb::WriteTransaction);

#[verifier::external_type_specification]
#[verifier::external_body]
pub struct ExReadTransaction(redb::ReadTransaction);

/// The tables of a database, by name, in four groups after the types of their
/// keys and values: text to bytes, number to bytes, text to number, text to
/// text.
#[verifier::ext_equal]
pub struct Tables {
    pub blobs: Map<Seq<char>, Map<Seq<char>, Seq<u8>>>,
    pub rows: Map<Seq<char>, Map<u64, Seq<u8>>>,
    pub numbers: Map<Seq<char>, Map<Seq<char>, u64>>,
    pub names: Map<Seq<char>, Map<Seq<char>, Seq<char>>>,
}

impl Tables {
    /// No tables.
    pub open spec fn blank() -> Tables {
        Tables {
            blobs: Map::empty(),
            rows: Map::empty(),
            numbers: Map::empty(),
            names: Map::empty(),
        }
    }
}

/// What the table called `name` holds: nothing where there is none.
pub open spec fn table<K, V>(group: Map<Seq<char>, Map<K, V>>, name: Seq<char>) -> Map<K, V> {
    if group.contains_key(name) {
        group[name]
    } else {
        Map::empty()
    }
}

/// A group in which there is a table called `name`: an empty one, where there
/// was none.
pub open spec fn made<K, V>(group: Map<Seq<char>, Map<K, V>>, name: Seq<char>) -> Map<
    Seq<char>,
    Map<K, V>,
> {
    group.insert(name, table(group, name))
}

/// A group after `key` was put into the table called `name`, which is made where
/// there is none.
pub open spec fn put<K, V>(
    group: Map<Seq<char>, Map<K, V>>,
    name: Seq<char>,
    key: K,
    value: V,
) -> Map<Seq<char>, Map<K, V>> {
    group.insert(name, table(group, name).insert(key, value))
}

/// The value under a key, if any.
pub open spec fn lookup<K, V>(table: Map<K, V>, key: K) -> Option<V> {
    if table.contains_key(key) {
        Some(table[key])
    } else {
        None
    }
}

/// What a database holds: what was committed to it.
pub uninterp spec fn stored(db: redb::Database) -> Tables;

/// Whether a write transaction is open on the database.
pub uninterp spec fn writing(db: redb::Database) -> bool;

/// Which database this is.
pub uninterp spec fn identity(db: redb::Database) -> int;

/// What a write transaction would commit.
pub uninterp spec fn staged(tx: redb::WriteTransaction) -> Tables;

/// Which database a write transaction was begun on.
pub uninterp spec fn home(tx: redb::WriteTransaction) -> int;

/// What a read transaction sees.
pub uninterp spec fn snapshot(tx: redb::ReadTransaction) -> Tables;

/// `redb::Builder::create_with_backend` on a new `InMemoryBackend`: an empty
/// database, if any, on which nothing is being written.
#[verifier::external_body]
pub(crate) fn create_in_memory() -> (r: Result<redb::Database, redb::DatabaseError>)
    ensures
        r matches Ok(db) ==> !writing(db) && stored(db) == Tables::blank(),
{
    redb::Database::builder().create_with_backend(redb::backends::InMemoryBackend::new())
}

/// `redb::Database::begin_read`: a view of what is committed.
#[verifier::external_body]
pub(crate) fn begin_read(db: &redb::Database) -> (r: Result<
    redb::ReadTransaction,
    redb::TransactionError,
>)
    ensures
        r matches Ok(tx) ==> snapshot(tx) == stored(*db),
{
    db.begin_read()
}

/// `redb::Database::begin_write`. The transaction starts from what is
/// committed and changes none of it. Only one may be open on a database: a
/// second one would wait for the first.
#[verifier::external_body]
pub(crate) fn begin_write(db: &mut redb::Database) -> (r: Result<
    redb::WriteTransaction,
    redb::TransactionError,
>)
    requires
        !writing(*old(db)),
    ensures
        stored(*final(db)) == stored(*old(db)),
        identity(*final(db)) == identity(*old(db)),
        writing(*final(db)) == r.is_ok(),
        r matches Ok(tx) ==> staged(tx) == stored(*old(db)) && home(tx) == identity(*old(db)),
{
    db.begin_write()
}

/// `redb::WriteTransaction::commit`. On success the database holds what the
/// transaction staged. A failure may come before or after the new contents
/// took hold, never in between.
#[verifier::external_body]
pub(crate) fn commit(db: &mut redb::Database, tx: redb::WriteTransaction) -> (r: Result<
    (),
    redb::CommitError,
>)
    requires
        writing(*old(db)),
        home(tx) == identity(*old(db)),
    ensures
        identity(*final(db)) == identity(*old(db)),
        !writing(*final(db)),
        r is Ok ==> stored(*final(db)) == staged(tx),
        r is Err ==> stored(*final(db)) == staged(tx) || stored(*final(db)) == stored(*old(db)),
{
    tx.commit()
}

/// `redb::WriteTransaction::abort`: nothing that was staged takes hold.
#[verifier::external_body]
pub(crate) fn abort(db: &mut redb::Database, tx: redb::WriteTransaction) -> (r: Result<
    (),
    redb::Error,
>)
    requires
        writing(*old(db)),
        home(tx) == identity(*old(db)),
    ensures
        identity(*final(db)) == identity(*old(db)),
        !writing(*final(db)),
        stored(*final(db)) == stored(*old(db)),
{
    Ok(tx.abort()?)
}

/// `redb::WriteTransaction::open_table` on a table from text to bytes: the
/// table is there afterwards, and holds what it held, or nothing where it was
/// not there before.
#[verifier::external_body]
pub(crate) fn create_blobs(tx: &mut redb::WriteTransaction, table: &str) -> (r: Result<
    (),
    redb::Error,
>)
    requires
        table@.len() > 0,
    ensures
        home(*final(tx)) == home(*old(tx)),
        r is Ok ==> staged(*final(tx)) == (Tables {
            blobs: made(staged(*old(tx)).blobs, table@),
            ..staged(*old(tx))
        }),
{
    tx.open_table(redb::TableDefinition::<&str, &[u8]>::new(table))?;
    Ok(())
}

/// `redb::WriteTransaction::open_table` on a table from number to bytes.
#[verifier::external_body]
pub(crate) fn create_rows(tx: &mut redb::WriteTransaction, table: &str) -> (r: Result<
    (),
    redb::Error,
>)
    requires
        table@.len() > 0,
    ensures
        home(*final(tx)) == home(*old(tx)),
        r is Ok ==> staged(*final(tx)) == (Tables {
            rows: made(staged(*old(tx)).rows, table@),
            ..staged(*old(tx))
        }),
{
    tx.open_table(redb::TableDefinition::<u64, &[u8]>::new(table))?;
    Ok(())
}

/// `redb::WriteTransaction::open_table` on a table from text to number.
#[verifier::external_body]
pub(crate) fn create_numbers(tx: &mut redb::WriteTransaction, table: &str) -> (r: Result<
    (),
    redb::Error,
>)
    requires
        table@.len() > 0,
    ensures
        home(*final(tx)) == home(*old(tx)),
        r is Ok ==> staged(*final(tx)) == (Tables {
            numbers: made(staged(*old(tx)).numbers, table@),
            ..staged(*old(tx))
        }),
{
    tx.open_table(redb::TableDefinition::<&str, u64>::new(table))?;
    Ok(())
}

/// `redb::WriteTransaction::open_table` on a table from text to text.
#[verifier::external_body]
pub(crate) fn create_names(tx: &mut redb::WriteTransaction, table: &str) -> (r: Result<
    (),
    redb::Error,
>)
    requires
        table@.len() > 0,
    ensures
        home(*final(tx)) == home(*old(tx)),
        r is Ok ==> staged(*final(tx)) == (Tables {
            names: made(staged(*old(tx)).names, table@),
            ..staged(*old(tx))
        }),
{
    tx.open_table(redb::TableDefinition::<&str, &str>::new(table))?;
    Ok(())
}

/// `redb::Table::insert` on a table from text to bytes: the value replaces what
/// was under the key. Opening the table makes it where there is none.
#[verifier::external_body]
pub(crate) fn put_blob(
    tx: &mut redb::WriteTransaction,
    table: &str,
    key: &str,
    value: &Vec<u8>,
) -> (r: Result<(), redb::Error>)
    requires
        table@.len() > 0,
    ensures
        home(*final(tx)) == home(*old(tx)),
        r is Ok ==> staged(*final(tx)) == (Tables {
            blobs: put(staged(*old(tx)).blobs, table@, key@, value@),
            ..staged(*old(tx))
        }),
{
    let mut open = tx.open_table(redb::TableDefinition::<&str, &[u8]>::new(table))?;
    open.insert(key, value.as_slice())?;
    Ok(())
}

/// `redb::Table::insert` on a table from number to bytes.
#[verifier::external_body]
pub(crate) fn put_row(
    tx: &mut redb::WriteTransaction,
    table: &str,
    key: u64,
    value: &Vec<u8>,
) -> (r: Result<(), redb::Error>)
    requires
        table@.len() > 0,
    ensures
        home(*final(tx)) == home(*old(tx)),
        r is Ok ==> staged(*final(tx)) == (Tables {
            rows: put(staged(*old(tx)).rows, table@, key, value@),
            ..staged(*old(tx))
        }),
{
    let mut open = tx.open_table(redb::TableDefinition::<u64, &[u8]>::new(table))?;
    open.insert(key, value.as_slice())?;
    Ok(())
}

/// `redb::Table::insert` on a table from text to number.
#[verifier::external_body]
pub(crate) fn put_number(
    tx: &mut redb::WriteTransaction,
    table: &str,
    key: &str,
    value: u64,
) -> (r: Result<(), redb::Error>)
    requires
        table@.len() > 0,
    ensures
        home(*final(tx)) == home(*old(tx)),
        r is Ok ==> staged(*final(tx)) == (Tables {
            numbers: put(staged(*old(tx)).numbers, table@, key@, value),
            ..staged(*old(tx))
        }),
{
    let mut open = tx.open_table(redb::TableDefinition::<&str, u64>::new(table))?;
    open.insert(key, value)?;
    Ok(())
}

/// `redb::Table::insert` on a table from text to text.
#[verifier::external_body]
pub(crate) fn put_name(
    tx: &mut redb::WriteTransaction,
    table: &str,
    key: &str,
    value: &str,
) -> (r: Result<(), redb::Error>)
    requires
        table@.len() > 0,
    ensures
        home(*final(tx)) == home(*old(tx)),
        r is Ok ==> staged(*final(tx)) == (Tables {
            names: put(staged(*old(tx)).names, table@, key@, value@),
            ..staged(*old(tx))
        }),
{
    let mut open = tx.open_table(redb::TableDefinition::<&str, &str>::new(table))?;
    open.insert(key, value)?;
    Ok(())
}

/// The contents of an optional byte string.
pub open spec fn opt_bytes(v: Option<Vec<u8>>) -> Option<Seq<u8>> {
    match v {
        Some(b) => Some(b@),
        None => None,
    }
}

/// `redb::ReadableTable::get` on a table from text to bytes. A table that is not
/// there cannot be read.
#[verifier::external_body]
pub(crate) fn get_blob(tx: &redb::ReadTransaction, table: &str, key: &str) -> (r: Result<
    Option<Vec<u8>>,
    redb::Error,
>)
    requires
        table@.len() > 0,
    ensures
        r matches Ok(v) ==> snapshot(*tx).blobs.contains_key(table@) && opt_bytes(v) == lookup(snapshot(*tx).blobs[table@], key@),
{
    let open = tx.open_table(redb::TableDefinition::<&str, &[u8]>::new(table))?;
    let found = redb::ReadableTable::get(&open, key)?;
    Ok(found.map(|v| v.value().to_vec()))
}

/// `redb::ReadableTable::get` on a table from number to bytes.
#[verifier::external_body]
pub(crate) fn get_row(tx: &redb::ReadTransaction, table: &str, key: u64) -> (r: Result<
    Option<Vec<u8>>,
    redb::Error,
>)
    requires
        table@.len() > 0,
    ensures
        r matches Ok(v) ==> snapshot(*tx).rows.contains_key(table@) && opt_bytes(v) == lookup(snapshot(*tx).rows[table@], key),
{
    let open = tx.open_table(redb::TableDefinition::<u64, &[u8]>::new(table))?;
    let found = redb::ReadableTable::get(&open, key)?;
    Ok(found.map(|v| v.value().to_vec()))
}

/// `redb::ReadableTable::get` on a table from text to number.
#[verifier::external_body]
pub(crate) fn get_number(tx: &redb::ReadTransaction, table: &str, key: &str) -> (r: Result<
    Option<u64>,
    redb::Error,
>)
    requires
        table@.len() > 0,
    ensures
        r matches Ok(v) ==> snapshot(*tx).numbers.contains_key(table@) && v == lookup(snapshot(*tx).numbers[table@], key@),
{
    let open = tx.open_table(redb::TableDefinition::<&str, u64>::new(table))?;
    let found = redb::ReadableTable::get(&open, key)?;
    Ok(found.map(|v| v.value()))
}

/// `redb::ReadableTable::get` on a table from text to text.
#[verifier::external_body]
pub(crate) fn get_name(tx: &redb::ReadTransaction, table: &str, key: &str) -> (r: Result<
    Option<String>,
    redb::Error,
>)
    requires
        table@.len() > 0,
    ensures
        r matches Ok(v) ==> snapshot(*tx).names.contains_key(table@) && crate::text::opt_text(v)
            == lookup(snapshot(*tx).names[table@], key@),
{
    let open = tx.open_table(redb::TableDefinition::<&str, &str>::new(table))?;
    let found = redb::ReadableTable::get(&open, key)?;
    Ok(found.map(|v| v.value().to_owned()))
}

/// `redb::ReadableTable::get` on a table from text to text that a write
/// transaction has staged. The table must be there: opening it would make it.
#[verifier::external_body]
pub(crate) fn get_staged_name(tx: &redb::WriteTransaction, table: &str, key: &str) -> (r: Result<
    Option<String>,
    redb::Error,
>)
    requires
        table@.len() > 0,
        staged(*tx).names.contains_key(table@),
    ensures
        r matches Ok(v) ==> crate::text::opt_text(v) == lookup(
            staged(*tx).names[table@],
            key@,
        ),
{
    let open = tx.open_table(redb::TableDefinition::<&str, &str>::new(table))?;
    let found = redb::ReadableTable::get(&open, key)?;
    Ok(found.map(|v| v.value().to_owned()))
}

/// Whether `keys` and `values` list a table: every key once, in the order of
/// text, each with its value.
pub open spec fn lists<V>(table: Map<Seq<char>, V>, keys: Seq<Seq<char>>, values: Seq<V>) -> bool {
    &&& keys.len() == values.len()
    &&& forall|i: int, j: int| 0 <= i < j < keys.len() ==> text_lt(keys[i], keys[j])
    &&& forall|i: int|
        0 <= i < keys.len() ==> table.contains_key(#[trigger] keys[i]) && table[keys[i]]
            == values[i]
    &&& forall|k: Seq<char>| #[trigger] table.contains_key(k) ==> keys.contains(k)
}

/// The keys of a list of text-keyed entries.
pub open spec fn entry_keys<V>(s: Seq<(String, V)>) -> Seq<Seq<char>> {
    Seq::new(s.len(), |i: int| s[i].0@)
}

/// The byte strings of a list of entries.
pub open spec fn entry_blobs(s: Seq<(String, Vec<u8>)>) -> Seq<Seq<u8>> {
    Seq::new(s.len(), |i: int| s[i].1@)
}

/// The numbers of a list of entries.
pub open spec fn entry_numbers(s: Seq<(String, u64)>) -> Seq<u64> {
    Seq::new(s.len(), |i: int| s[i].1)
}

/// `redb::ReadableTable::iter` on a table from text to bytes: all entries, in
/// the order of the keys, which is that of `str`.
#[verifier::external_body]
pub(crate) fn scan_blobs(tx: &redb::ReadTransaction, table: &str) -> (r: Result<
    Vec<(String, Vec<u8>)>,
    redb::Error,
>)
    requires
        table@.len() > 0,
    ensures
        r matches Ok(v) ==> snapshot(*tx).blobs.contains_key(table@) && lists(
            snapshot(*tx).blobs[table@],
            entry_keys(v@),
            entry_blobs(v@),
        ),
{
    let open = tx.open_table(redb::TableDefinition::<&str, &[u8]>::new(table))?;
    let entries = redb::ReadableTable::iter(&open)?;
    let owned = entries.map(|e| e.map(|(k, v)| (k.value().to_owned(), v.value().to_vec())));
    Ok(owned.collect::<Result<Vec<(String, Vec<u8>)>, redb::StorageError>>()?)
}

/// `redb::ReadableTable::iter` on a table from text to number.
#[verifier::external_body]
pub(crate) fn scan_numbers(tx: &redb::ReadTransaction, table: &str) -> (r: Result<
    Vec<(String, u64)>,
    redb::Error,
>)
    requires
        table@.len() > 0,
    ensures
        r matches Ok(v) ==> snapshot(*tx).numbers.contains_key(table@) && lists(
            snapshot(*tx).numbers[table@],
            entry_keys(v@),
            entry_numbers(v@),
        ),
{
    let open = tx.open_table(redb::TableDefinition::<&str, u64>::new(table))?;
    let entries = redb::ReadableTable::iter(&open)?;
    let owned = entries.map(|e| e.map(|(k, v)| (k.value().to_owned(), v.value())));
    Ok(owned.collect::<Result<Vec<(String, u64)>, redb::StorageError>>()?)
}

/// Whether `keys` and `values` list a table: every number once, ascending, each
/// with its value.
pub open spec fn lists_rows(table: Map<u64, Seq<u8>>, keys: Seq<u64>, values: Seq<Seq<u8>>) -> bool {
    &&& keys.len() == values.len()
    &&& forall|i: int, j: int| 0 <= i < j < keys.len() ==> keys[i] < keys[j]
    &&& forall|i: int|
        0 <= i < keys.len() ==> table.contains_key(#[trigger] keys[i]) && table[keys[i]]
            == values[i]
    &&& forall|k: u64| #[trigger] table.contains_key(k) ==> keys.contains(k)
}

/// The numbers of a list of numbered rows.
pub open spec fn row_keys(s: Seq<(u64, Vec<u8>)>) -> Seq<u64> {
    Seq::new(s.len(), |i: int| s[i].0)
}

/// The byte strings of a list of numbered rows.
pub open spec fn row_blobs(s: Seq<(u64, Vec<u8>)>) -> Seq<Seq<u8>> {
    Seq::new(s.len(), |i: int| s[i].1@)
}

/// The texts of a list of entries.
pub open spec fn entry_names(s: Seq<(String, String)>) -> Seq<Seq<char>> {
    Seq::new(s.len(), |i: int| s[i].1@)
}

/// `redb::ReadableTable::iter` on a table from number to bytes.
#[verifier::external_body]
pub(crate) fn scan_rows(tx: &redb::ReadTransaction, table: &str) -> (r: Result<
    Vec<(u64, Vec<u8>)>,
    redb::Error,
>)
    requires
        table@.len() > 0,
    ensures
        r matches Ok(v) ==> snapshot(*tx).rows.contains_key(table@) && lists_rows(
            snapshot(*tx).rows[table@],
            row_keys(v@),
            row_blobs(v@),
        ),
{
    let open = tx.open_table(redb::TableDefinition::<u64, &[u8]>::new(table))?;
    let entries = redb::ReadableTable::iter(&open)?;
    let owned = entries.map(|e| e.map(|(k, v)| (k.value(), v.value().to_vec())));
    Ok(owned.collect::<Result<Vec<(u64, Vec<u8>)>, redb::StorageError>>()?)
}

/// `redb::ReadableTable::iter` on a table from text to text.
#[verifier::external_body]
pub(crate) fn scan_names(tx: &redb::ReadTransaction, table: &str) -> (r: Result<
    Vec<(String, String)>,
    redb::Error,
>)
    requires
        table@.len() > 0,
    ensures
        r matches Ok(v) ==> snapshot(*tx).names.contains_key(table@) && lists(
            snapshot(*tx).names[table@],
            entry_keys(v@),
            entry_names(v@),
        ),
{
    let open = tx.open_table(redb::TableDefinition::<&str, &str>::new(table))?;
    let entries = redb::ReadableTable::iter(&open)?;
    let owned = entries.map(|e| e.map(|(k, v)| (k.value().to_owned(), v.value().to_owned())));
    Ok(owned.collect::<Result<Vec<(String, String)>, redb::StorageError>>()?)
}

} // verus!
