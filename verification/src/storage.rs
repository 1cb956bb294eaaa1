use fuzzy_matcher::skim::SkimMatcherV2;
use fuzzy_matcher::FuzzyMatcher;
use rusqlite::{Connection, OptionalExtension};
use vstd::prelude::*;
use vstd::string::StringExecFns;

use crate::encryption::Encrypter;
use crate::entry::{
    opened, overwritten, rendered, seal_failure, text_view, CipherView, Decrypt, Encrypt,
    EncryptedEntry, Entry, EntryView, ImportedEntry, ID_LEN,
};
use crate::error::VaultError;

verus! {

#[verifier::external_type_specification]
#[verifier::external_body]
pub struct ExConnection(rusqlite::Connection);

#[verifier::external_type_specification]
#[verifier::external_body]
pub struct ExSqlError(rusqlite::Error);

/// The table of the vault: a surrogate key that grows with every row, the
/// id in clear, which no two rows share, and the five blobs.
pub const CREATE_TABLE: &'static str =
    "CREATE TABLE IF NOT EXISTS candado (id INTEGER PRIMARY KEY AUTOINCREMENT, entry_id TEXT NOT NULL UNIQUE, service BLOB NOT NULL, email BLOB NOT NULL, password BLOB NOT NULL, username BLOB NOT NULL, url BLOB NOT NULL)";

/// The text under which the database keeps the declaration of a table
/// that `CREATE_TABLE` made.
pub const TABLE_SQL: &'static str =
    "CREATE TABLE candado (id INTEGER PRIMARY KEY AUTOINCREMENT, entry_id TEXT NOT NULL UNIQUE, service BLOB NOT NULL, email BLOB NOT NULL, password BLOB NOT NULL, username BLOB NOT NULL, url BLOB NOT NULL)";

pub const SELECT_TABLE_SQL: &'static str =
    "SELECT sql FROM sqlite_master WHERE type='table' AND name='candado'";

pub const INSERT_ROW: &'static str =
    "INSERT INTO candado (entry_id, service, email, password, username, url) VALUES (?1, ?2, ?3, ?4, ?5, ?6)";

pub const UPDATE_ROWS: &'static str =
    "UPDATE candado SET service=?2, email=?3, password=?4, username=?5, url=?6 WHERE entry_id=?1";

pub const DELETE_ROWS: &'static str = "DELETE FROM candado WHERE entry_id=?1";

pub const SELECT_ROWS: &'static str =
    "SELECT entry_id, service, email, password, username, url FROM candado ORDER BY id";

pub const SELECT_ROW: &'static str =
    "SELECT entry_id, service, email, password, username, url FROM candado WHERE entry_id=?1 ORDER BY id";

/// The rows of the vault's table as the connection sees them, in the order
/// in which they were inserted; none where there is no table yet.
pub uninterp spec fn stored_rows(conn: Connection) -> Seq<CipherView>;

/// The text under which the database keeps the declaration of the vault's
/// table, or `None` where there is no such table.
pub uninterp spec fn table_sql(conn: Connection) -> Option<Seq<char>>;

/// The score that the skim matcher, as it is by default, gives a pattern
/// in a text, or `None` where the pattern does not match.
pub uninterp spec fn fuzzy_score(text: Seq<char>, pattern: Seq<char>) -> Option<i64>;

/// The views of stored records.
pub open spec fn records(list: Seq<EncryptedEntry>) -> Seq<CipherView> {
    list.map_values(|record: EncryptedEntry| record@)
}

/// The views of entries.
pub open spec fn views(list: Seq<Entry>) -> Seq<EntryView> {
    list.map_values(|entry: Entry| entry@)
}

/// Tells the rows that have another id.
pub open spec fn with_other_id(id: Seq<char>) -> spec_fn(CipherView) -> bool {
    |row: CipherView| row.id != id
}

/// Puts the record in the place of a row that has its id, and keeps every
/// other row.
pub open spec fn replacing(record: CipherView) -> spec_fn(CipherView) -> CipherView {
    |row: CipherView|
        if row.id == record.id {
            record
        } else {
            row
        }
}

/// Some row has the id.
pub open spec fn has_id(rows: Seq<CipherView>, id: Seq<char>) -> bool {
    exists|i: int| 0 <= i < rows.len() && (#[trigger] rows[i]).id == id
}

/// The first row that has the id, or `None` where none has it.
pub open spec fn found(rows: Seq<CipherView>, id: Seq<char>) -> Option<CipherView>
    decreases rows.len(),
{
    if rows.len() == 0 {
        None
    } else if rows[0].id == id {
        Some(rows[0])
    } else {
        found(rows.drop_first(), id)
    }
}

/// `pattern` stands in `text` as it is, in one piece.
pub open spec fn occurs_in(pattern: Seq<char>, text: Seq<char>) -> bool {
    exists|at: int|
        0 <= at && at + pattern.len() <= text.len() && #[trigger] text.subrange(
            at,
            at + pattern.len(),
        ) == pattern
}

/// Tells the entries whose rendered text the query matches.
pub open spec fn matching(query: Seq<char>) -> spec_fn(EntryView) -> bool {
    |entry: EntryView| fuzzy_score(rendered(entry), query) is Some
}

/// The entries that the rows open to under a vault, or `None` where a row
/// does not open.
pub open spec fn opened_rows(vault: &Encrypter, rows: Seq<CipherView>) -> Option<Seq<EntryView>> {
    if forall|i: int| 0 <= i < rows.len() ==> opened(vault, #[trigger] rows[i]) is Some {
        Some(Seq::new(rows.len(), |i: int| opened(vault, rows[i])->0))
    } else {
        None
    }
}

/// What reading an id from the rows gives, the backing store permitting:
/// the first row with the id, opened.
pub open spec fn read_outcome(vault: &Encrypter, rows: Seq<CipherView>, id: Seq<char>) -> Result<
    EntryView,
    VaultError,
> {
    match found(rows, id) {
        None => Err(VaultError::NotFound),
        Some(row) => match opened(vault, row) {
            Some(entry) => Ok(entry),
            None => Err(VaultError::Decrypt),
        },
    }
}

/// Calls `rusqlite::Connection::open`.
///
/// Trusted: nothing. What the connection holds depends on the file.
#[verifier::external_body]
pub(crate) fn db_open(location: &str) -> (r: Result<Connection, rusqlite::Error>) {
    Connection::open(location)
}

/// Calls `rusqlite::Connection::execute` with `CREATE_TABLE`.
///
/// Trusted: the rows stay as they are; a table that is created is empty.
#[verifier::external_body]
pub(crate) fn db_create_table(conn: &mut Connection) -> (r: Result<usize, rusqlite::Error>)
    ensures
        stored_rows(*final(conn)) == stored_rows(*old(conn)),
{
    conn.execute(CREATE_TABLE, ())
}

/// Calls `rusqlite::Connection::execute` with `INSERT_ROW`.
///
/// Trusted: a table that is declared as `TABLE_SQL` has it gives a new row
/// a key above all others, or the insert fails; so there, on success, the
/// record is the last row and the others are as before. On failure nothing
/// has changed.
#[verifier::external_body]
pub(crate) fn db_insert(conn: &mut Connection, record: &EncryptedEntry) -> (r: Result<
    usize,
    rusqlite::Error,
>)
    ensures
        match r {
            Ok(_) => table_sql(*old(conn)) == Some(TABLE_SQL@) ==> stored_rows(*final(conn))
                == stored_rows(*old(conn)).push(record@),
            Err(_) => stored_rows(*final(conn)) == stored_rows(*old(conn)),
        },
{
    let blobs = (&record.service, &record.email, &record.password, &record.username, &record.url);
    conn.execute(INSERT_ROW, (&record.id, blobs.0, blobs.1, blobs.2, blobs.3, blobs.4))
}

/// Calls `rusqlite::Connection::execute` with `UPDATE_ROWS`.
///
/// Trusted: on success every row with the record's id holds the record's
/// blobs and the others are as before; on failure nothing has changed.
#[verifier::external_body]
pub(crate) fn db_update(conn: &mut Connection, record: &EncryptedEntry) -> (r: Result<
    usize,
    rusqlite::Error,
>)
    ensures
        match r {
            Ok(_) => stored_rows(*final(conn)) == stored_rows(*old(conn)).map_values(
                replacing(record@),
            ),
            Err(_) => stored_rows(*final(conn)) == stored_rows(*old(conn)),
        },
{
    let blobs = (&record.service, &record.email, &record.password, &record.username, &record.url);
    conn.execute(UPDATE_ROWS, (&record.id, blobs.0, blobs.1, blobs.2, blobs.3, blobs.4))
}

/// Calls `rusqlite::Connection::execute` with `DELETE_ROWS`.
///
/// Trusted: on success the rows with the id are gone and the others are as
/// before, in their order; on failure nothing has changed.
#[verifier::external_body]
pub(crate) fn db_delete(conn: &mut Connection, id: &str) -> (r: Result<usize, rusqlite::Error>)
    ensures
        match r {
            Ok(_) => stored_rows(*final(conn)) == stored_rows(*old(conn)).filter(
                with_other_id(id@),
            ),
            Err(_) => stored_rows(*final(conn)) == stored_rows(*old(conn)),
        },
{
    conn.execute(DELETE_ROWS, (id,))
}

/// Calls `rusqlite::Connection::query_row` with `SELECT_TABLE_SQL`, and
/// `rusqlite::OptionalExtension::optional`.
///
/// Trusted: on success the text is that of the table's declaration, or
/// there is none and no such table.
#[verifier::external_body]
pub(crate) fn db_table_sql(conn: &Connection) -> (r: Result<Option<String>, rusqlite::Error>)
    ensures
        r matches Ok(sql) ==> text_view(sql) == table_sql(*conn),
{
    conn.query_row(SELECT_TABLE_SQL, (), |row| row.get(0)).optional()
}

/// Calls `rusqlite::Connection::prepare` with `SELECT_ROWS`, and
/// `rusqlite::Statement::query_map`.
///
/// Trusted: on success the records are the rows, in their order.
#[verifier::external_body]
pub(crate) fn db_select_all(conn: &Connection) -> (r: Result<Vec<EncryptedEntry>, rusqlite::Error>)
    ensures
        r matches Ok(list) ==> records(list@) == stored_rows(*conn),
{
    let mut statement = conn.prepare(SELECT_ROWS)?;
    let rows = statement.query_map((), |row| {
        let (id, service, email) = (row.get(0)?, row.get(1)?, row.get(2)?);
        let (password, username, url) = (row.get(3)?, row.get(4)?, row.get(5)?);
        Ok(EncryptedEntry::init(id, service, email, password, username, url))
    })?;
    rows.collect()
}

/// Calls `rusqlite::Connection::query_row` with `SELECT_ROW`, and
/// `rusqlite::OptionalExtension::optional`.
///
/// Trusted: on success the record is the first row with the id, or there
/// is none and no row has the id.
#[verifier::external_body]
pub(crate) fn db_select(conn: &Connection, id: &str) -> (r: Result<
    Option<EncryptedEntry>,
    rusqlite::Error,
>)
    ensures
        r matches Ok(hit) ==> match hit {
            Some(record) => found(stored_rows(*conn), id@) == Some(record@),
            None => found(stored_rows(*conn), id@) is None,
        },
{
    let read = conn.query_row(SELECT_ROW, (id,), |row| {
        let (id, service, email) = (row.get(0)?, row.get(1)?, row.get(2)?);
        let (password, username, url) = (row.get(3)?, row.get(4)?, row.get(5)?);
        Ok(EncryptedEntry::init(id, service, email, password, username, url))
    });
    read.optional()
}

/// Calls `fuzzy_matcher::skim::SkimMatcherV2::default` and its
/// `fuzzy_match`.
///
/// Trusted: the score is a function of text and pattern; the empty pattern
/// scores 0 in any text; and a pattern that stands in the text as it is
/// matches.
#[verifier::external_body]
pub(crate) fn fuzzy_match(text: &str, pattern: &str) -> (score: Option<i64>)
    ensures
        score == fuzzy_score(text@, pattern@),
        pattern@.len() == 0 ==> score == Some(0i64),
        occurs_in(pattern@, text@) ==> score is Some,
{
    SkimMatcherV2::default().fuzzy_match(text, pattern)
}

/// A file that can be imported, with what was read from it.
pub enum SupportedFile {
    JSON(String),
    SQL(String),
}

/// The extension of a path as `std::path::Path` tells it, or `None` where
/// the path has none.
pub uninterp spec fn path_extension(filepath: Seq<char>) -> Option<Seq<char>>;

/// Calls `std::path::Path::extension`.
///
/// Trusted: the extension is a function of the path.
#[verifier::external_body]
pub(crate) fn extension_of(filepath: &str) -> (extension: Option<String>)
    ensures
        match extension {
            Some(text) => path_extension(filepath@) == Some(text@),
            None => path_extension(filepath@) is None,
        },
{
    match std::path::Path::new(filepath).extension() {
        Some(extension) => Some(extension.to_string_lossy().into_owned()),
        None => None,
    }
}

/// Tells whether a file can be imported, by its extension: `json` can,
/// and nothing else.
pub fn supported(filepath: &str) -> (r: Result<(), VaultError>)
    ensures
        match r {
            Ok(_) => path_extension(filepath@) == Some("json"@),
            Err(e) => e == VaultError::UnsupportedFormat && path_extension(filepath@) != Some(
                "json"@,
            ),
        },
{
    match extension_of(filepath) {
        Some(extension) => {
            if extension == String::from_str("json") {
                Ok(())
            } else {
                Err(VaultError::UnsupportedFormat)
            }
        },
        None => Err(VaultError::UnsupportedFormat),
    }
}

/// The content of an imported record.
pub open spec fn import_content(record: &ImportedEntry) -> (
    Seq<char>,
    Seq<char>,
    Seq<char>,
    Seq<char>,
    Seq<char>,
) {
    (record.service@, record.email@, record.password@, record.username@, record.url@)
}

/// `after` is `before` with one row more, which opens to an entry of the
/// given content.
pub open spec fn grown_by(
    vault: &Encrypter,
    before: Seq<CipherView>,
    after: Seq<CipherView>,
    content: (Seq<char>, Seq<char>, Seq<char>, Seq<char>, Seq<char>),
) -> bool {
    &&& after.len() == before.len() + 1
    &&& after.drop_last() == before
    &&& !has_id(before, after.last().id)
    &&& opened(vault, after.last()) is Some
    &&& opened(vault, after.last())->0.content() == content
}

/// `after` is `before` with one row more for each of the first `count`
/// records, in their order, each opening to an entry of its record's
/// content, under an id of twelve characters that no row before it has.
pub open spec fn grown_by_all(
    vault: &Encrypter,
    before: Seq<CipherView>,
    after: Seq<CipherView>,
    list: Seq<ImportedEntry>,
    count: int,
) -> bool {
    &&& 0 <= count <= list.len()
    &&& after.len() == before.len() + count
    &&& after.subrange(0, before.len() as int) == before
    &&& forall|k: int|
        0 <= k < count ==> {
            &&& opened(vault, #[trigger] after[before.len() + k]) is Some
            &&& opened(vault, after[before.len() + k])->0.content() == import_content(&list[k])
            &&& after[before.len() + k].id.len() == ID_LEN
            &&& !has_id(after.subrange(0, before.len() + k), after[before.len() + k].id)
        }
}

/// An import stopped at the record at `count`: the records before it were
/// written, and writing this one, under the id drawn for it, failed with
/// `e`.
pub open spec fn stopped_at(
    vault: &Encrypter,
    before: Seq<CipherView>,
    after: Seq<CipherView>,
    list: Seq<ImportedEntry>,
    count: int,
    e: VaultError,
) -> bool {
    &&& count < list.len()
    &&& grown_by_all(vault, before, after, list, count)
    &&& exists|id: Seq<char>|
        id.len() == ID_LEN && #[trigger] refused_with(
            vault,
            after,
            imported_as(id, &list[count]),
            e,
        )
}

/// The vault's store of records: a table of rows, each an id in clear and
/// five blobs, read and written through a vault that is unlocked.
pub struct Storage<'unlocked> {
    conn: Connection,
    encrypter: &'unlocked Encrypter,
}

impl<'unlocked> Storage<'unlocked> {
    /// The rows of the table, in the order in which they were written.
    pub closed spec fn rows(&self) -> Seq<CipherView> {
        stored_rows(self.conn)
    }

    /// The vault that seals and opens the rows.
    pub closed spec fn vault(&self) -> &Encrypter {
        self.encrypter
    }

    /// The entries that the rows open to, or `None` where a row does not
    /// open.
    pub open spec fn entries(&self) -> Option<Seq<EntryView>> {
        opened_rows(self.vault(), self.rows())
    }

    /// Opens the store at a location, and creates its table where there is
    /// none yet. What the store holds is what was written there before.
    pub fn init(encrypter: &'unlocked Encrypter, location: &str) -> (r: Result<Self, VaultError>)
        ensures
            match r {
                Ok(store) => store.vault() == encrypter,
                Err(e) => e == VaultError::Io,
            },
    {
        let mut conn = match db_open(location) {
            Ok(conn) => conn,
            Err(_) => { return Err(VaultError::Io); },
        };
        match db_create_table(&mut conn) {
            Ok(_) => Ok(Storage { conn, encrypter }),
            Err(_) => Err(VaultError::Io),
        }
    }

    /// Tells whether the store's table is declared as this library
    /// declares it, so that a row that is written becomes the last.
    fn appends(&self) -> (yes: bool)
        ensures
            yes ==> table_sql(self.conn) == Some(TABLE_SQL@),
    {
        match db_table_sql(&self.conn) {
            Ok(Some(sql)) => sql == String::from_str(TABLE_SQL),
            _ => false,
        }
    }

    /// Seals an entry and writes it as a new row, the last one. A store
    /// whose table is declared otherwise than this library declares it
    /// takes no row.
    ///
    /// An entry that cannot be sealed is refused with the reason, and one
    /// whose id a row has already with `DuplicateId`. Whenever the call
    /// fails, the rows are as before.
    pub fn write<T: Encrypt>(&mut self, entry: T) -> (r: Result<(), VaultError>)
        ensures
            final(self).vault() == old(self).vault(),
            match r {
                Ok(_) => {
                    &&& seal_failure(old(self).vault(), entry.plain()) is None
                    &&& !has_id(old(self).rows(), entry.plain().id)
                    &&& final(self).rows().len() == old(self).rows().len() + 1
                    &&& final(self).rows().drop_last() == old(self).rows()
                    &&& final(self).rows().last().id == entry.plain().id
                    &&& opened(old(self).vault(), final(self).rows().last()) == Some(entry.plain())
                },
                Err(e) => {
                    &&& final(self).rows() == old(self).rows()
                    &&& match seal_failure(old(self).vault(), entry.plain()) {
                        Some(reason) => e == reason,
                        None => e == VaultError::Io || (e == VaultError::DuplicateId && has_id(
                            old(self).rows(),
                            entry.plain().id,
                        )),
                    }
                },
            },
    {
        let record = match entry.encrypt(self.encrypter) {
            Ok(record) => record,
            Err(e) => { return Err(e); },
        };
        match db_select(&self.conn, record.id.as_str()) {
            Ok(Some(_)) => {
                proof {
                    lemma_found(self.rows(), record@.id);
                }
                return Err(VaultError::DuplicateId);
            },
            Ok(None) => {
                proof {
                    lemma_found(self.rows(), record@.id);
                }
            },
            Err(_) => { return Err(VaultError::Io); },
        }
        if !self.appends() {
            return Err(VaultError::Io);
        }
        let ghost before = self.rows();
        match db_insert(&mut self.conn, &record) {
            Ok(_) => {
                proof {
                    assert(before.push(record@).drop_last() == before);
                }
                Ok(())
            },
            Err(_) => Err(VaultError::Io),
        }
    }

    /// Deletes every row that has the id.
    pub fn remove(&mut self, id: &str) -> (r: Result<(), VaultError>)
        ensures
            final(self).vault() == old(self).vault(),
            match r {
                Ok(_) => final(self).rows() == old(self).rows().filter(with_other_id(id@)),
                Err(e) => e == VaultError::Io && final(self).rows() == old(self).rows(),
            },
    {
        match db_delete(&mut self.conn, id) {
            Ok(_) => Ok(()),
            Err(_) => Err(VaultError::Io),
        }
    }

    /// Reads the entry of an id: the first row that has it, opened.
    pub fn read(&self, id: &str) -> (r: Result<Entry, VaultError>)
        ensures
            match r {
                Ok(entry) => read_outcome(self.vault(), self.rows(), id@) == Ok::<
                    EntryView,
                    VaultError,
                >(entry@),
                Err(e) => e == VaultError::Io || read_outcome(self.vault(), self.rows(), id@)
                    == Err::<EntryView, VaultError>(e),
            },
    {
        match db_select(&self.conn, id) {
            Ok(Some(record)) => match record.decrypt(self.encrypter) {
                Ok(entry) => Ok(entry),
                Err(e) => Err(e),
            },
            Ok(None) => Err(VaultError::NotFound),
            Err(_) => Err(VaultError::Io),
        }
    }

    /// Seals an entry anew and puts it in the place of every row that has
    /// its id. The ids stay, and so does every other row.
    pub fn update<T: Encrypt>(&mut self, entry: T) -> (r: Result<(), VaultError>)
        ensures
            final(self).vault() == old(self).vault(),
            match r {
                Ok(_) => {
                    &&& seal_failure(old(self).vault(), entry.plain()) is None
                    &&& exists|record: CipherView|
                        {
                            &&& record.id == entry.plain().id
                            &&& opened(old(self).vault(), record) == Some(entry.plain())
                            &&& final(self).rows() == #[trigger] old(self).rows().map_values(
                                replacing(record),
                            )
                        }
                },
                Err(e) => {
                    &&& final(self).rows() == old(self).rows()
                    &&& match seal_failure(old(self).vault(), entry.plain()) {
                        Some(reason) => e == reason,
                        None => e == VaultError::Io,
                    }
                },
            },
    {
        let record = match entry.encrypt(self.encrypter) {
            Ok(record) => record,
            Err(e) => { return Err(e); },
        };
        let ghost before = self.rows();
        match db_update(&mut self.conn, &record) {
            Ok(_) => {
                assert(self.rows() == before.map_values(replacing(record@)));
                Ok(())
            },
            Err(_) => Err(VaultError::Io),
        }
    }

    /// Opens every row, in the order of the rows.
    pub fn list(&self) -> (r: Result<Vec<Entry>, VaultError>)
        ensures
            match r {
                Ok(entries) => self.entries() == Some(views(entries@)),
                Err(e) => e == VaultError::Io || (e == VaultError::Decrypt && self.entries()
                    is None),
            },
    {
        let list = match db_select_all(&self.conn) {
            Ok(list) => list,
            Err(_) => { return Err(VaultError::Io); },
        };
        let ghost rows = self.rows();
        let mut entries: Vec<Entry> = Vec::new();
        let mut i: usize = 0;
        while i < list.len()
            invariant
                i <= list@.len(),
                records(list@) == rows,
                rows == self.rows(),
                entries@.len() == i,
                forall|k: int|
                    0 <= k < i ==> opened(self.vault(), #[trigger] rows[k]) == Some(entries@[k]@),
            decreases list@.len() - i,
        {
            assert(rows[i as int] == list@[i as int]@);
            match list[i].decrypt(self.encrypter) {
                Ok(entry) => {
                    entries.push(entry);
                },
                Err(e) => {
                    return Err(e);
                },
            }
            i += 1;
        }
        proof {
            assert(opened_rows(self.vault(), rows)->0 =~= views(entries@));
        }
        Ok(entries)
    }

    /// The entries that a query matches, in the order of the rows: the
    /// query is matched, approximately, against the text that each entry
    /// is rendered as.
    ///
    /// An entry whose text holds the query as it is is among them, and the
    /// empty query matches every entry.
    pub fn find(&self, query: &str) -> (r: Result<Vec<Entry>, VaultError>)
        ensures
            match r {
                Ok(hits) => {
                    &&& self.entries() is Some
                    &&& views(hits@) == self.entries()->0.filter(matching(query@))
                    &&& forall|i: int|
                        0 <= i < self.entries()->0.len() && occurs_in(
                            query@,
                            rendered(#[trigger] self.entries()->0[i]),
                        ) ==> views(hits@).contains(self.entries()->0[i])
                    &&& query@.len() == 0 ==> views(hits@) == self.entries()->0
                },
                Err(e) => e == VaultError::Io || (e == VaultError::Decrypt && self.entries()
                    is None),
            },
    {
        let entries = match self.list() {
            Ok(entries) => entries,
            Err(e) => { return Err(e); },
        };
        let ghost all = views(entries@);
        let mut hits: Vec<Entry> = Vec::new();
        let mut i: usize = 0;
        while i < entries.len()
            invariant
                i <= entries@.len(),
                all == views(entries@),
                views(hits@) == all.subrange(0, i as int).filter(matching(query@)),
                forall|k: int|
                    0 <= k < i && occurs_in(query@, rendered(#[trigger] all[k])) ==> matching(
                        query@,
                    )(all[k]),
                query@.len() == 0 ==> views(hits@) == all.subrange(0, i as int),
            decreases entries@.len() - i,
        {
            let text = entries[i].render();
            let ghost kept = views(hits@);
            proof {
                assert(all.subrange(0, i + 1) == all.subrange(0, i as int).push(all[i as int]));
                all.subrange(0, i as int).lemma_filter_push(all[i as int], matching(query@));
            }
            match fuzzy_match(text.as_str(), query) {
                Some(_) => {
                    hits.push(entries[i].clone());
                    proof {
                        assert(views(hits@) == kept.push(all[i as int]));
                    }
                },
                None => {},
            }
            i += 1;
        }
        proof {
            assert(all.subrange(0, i as int) == all);
            assert forall|k: int|
                0 <= k < all.len() && occurs_in(query@, rendered(#[trigger] all[k])) implies views(
                hits@,
            ).contains(all[k]) by {
                all.lemma_filter_contains(matching(query@), k);
            }
        }
        Ok(hits)
    }

    /// What was read from a file of records in JSON.
    pub fn load_json(data: String) -> (file: SupportedFile)
        ensures
            file == SupportedFile::JSON(data),
    {
        SupportedFile::JSON(data)
    }

    /// Gives an imported record an id of its own, of twelve letters and
    /// digits, and writes it as the last row.
    ///
    /// A record that cannot be sealed is refused with the reason, and one
    /// whose id a row has already with `DuplicateId`. Whenever the call
    /// fails, the rows are as before.
    pub fn import_entry(&mut self, record: &ImportedEntry) -> (r: Result<(), VaultError>)
        ensures
            final(self).vault() == old(self).vault(),
            match r {
                Ok(_) => {
                    &&& grown_by(
                        old(self).vault(),
                        old(self).rows(),
                        final(self).rows(),
                        import_content(record),
                    )
                    &&& final(self).rows().last().id.len() == ID_LEN
                    &&& opened(old(self).vault(), final(self).rows().last()) == Some(
                        imported_as(final(self).rows().last().id, record),
                    )
                },
                Err(e) => {
                    &&& final(self).rows() == old(self).rows()
                    &&& exists|id: Seq<char>|
                        id.len() == ID_LEN && #[trigger] refused_with(
                            old(self).vault(),
                            old(self).rows(),
                            imported_as(id, record),
                            e,
                        )
                },
            },
    {
        let entry = Entry::from_import(
            ImportedEntry {
                service: record.service.clone(),
                email: record.email.clone(),
                password: record.password.clone(),
                username: record.username.clone(),
                url: record.url.clone(),
            },
        );
        let ghost plain = entry@;
        assert(plain == imported_as(plain.id, record));
        let ghost before = self.rows();
        let r = self.write(entry);
        proof {
            if r is Err {
                assert(refused_with(self.vault(), before, imported_as(plain.id, record), r->Err_0));
            }
        }
        r
    }

    /// Writes the records one at a time, each under an id of its own.
    ///
    /// The rows written before a failure stay.
    pub fn import(&mut self, list: &Vec<ImportedEntry>) -> (r: Result<(), VaultError>)
        ensures
            final(self).vault() == old(self).vault(),
            match r {
                Ok(_) => grown_by_all(
                    old(self).vault(),
                    old(self).rows(),
                    final(self).rows(),
                    list@,
                    list@.len() as int,
                ),
                Err(e) => exists|count: int| #[trigger]
                    stopped_at(
                        old(self).vault(),
                        old(self).rows(),
                        final(self).rows(),
                        list@,
                        count,
                        e,
                    ),
            },
    {
        let ghost before = self.rows();
        let mut i: usize = 0;
        assert(self.rows().subrange(0, before.len() as int) == before);
        while i < list.len()
            invariant
                i <= list@.len(),
                self.vault() == old(self).vault(),
                before == old(self).rows(),
                grown_by_all(self.vault(), before, self.rows(), list@, i as int),
            decreases list@.len() - i,
        {
            let ghost so_far = self.rows();
            match self.import_entry(&list[i]) {
                Ok(_) => {
                    proof {
                        let now = self.rows();
                        assert(now.drop_last() == so_far);
                        assert(now.subrange(0, before.len() as int) == before) by {
                            assert(now.subrange(0, before.len() as int) =~= so_far.subrange(
                                0,
                                before.len() as int,
                            ));
                        }
                        assert forall|k: int| 0 <= k < i + 1 implies {
                            &&& opened(self.vault(), #[trigger] now[before.len() + k]) is Some
                            &&& opened(self.vault(), now[before.len() + k])->0.content()
                                == import_content(&list@[k])
                            &&& now[before.len() + k].id.len() == ID_LEN
                            &&& !has_id(
                                now.subrange(0, before.len() + k),
                                now[before.len() + k].id,
                            )
                        } by {
                            if k < i {
                                assert(now[before.len() + k] == so_far[before.len() + k]);
                                assert(now.subrange(0, before.len() + k) == so_far.subrange(
                                    0,
                                    before.len() + k,
                                ));
                            } else {
                                assert(now[before.len() + k] == now.last());
                                assert(now.subrange(0, before.len() + k) == so_far);
                            }
                        }
                    }
                },
                Err(e) => {
                    proof {
                        assert(stopped_at(self.vault(), before, self.rows(), list@, i as int, e));
                    }
                    return Err(e);
                },
            }
            i += 1;
        }
        Ok(())
    }

    /// The entries to export: every row, opened.
    pub fn export(&self) -> (r: Result<Vec<Entry>, VaultError>)
        ensures
            match r {
                Ok(entries) => self.entries() == Some(views(entries@)),
                Err(e) => e == VaultError::Io || (e == VaultError::Decrypt && self.entries()
                    is None),
            },
    {
        self.list()
    }

    /// Changes the fields that are given of the entry of an id: the entry
    /// is read, each value that is given is put in place of the entry's
    /// own, and the entry is sealed anew and put in the place of every row
    /// that has the id. The id stays.
    ///
    /// Fails as reading does where the id is not found or its row does not
    /// open, and as sealing does where the changed entry cannot be sealed.
    /// Whenever the call fails, the rows are as before.
    pub fn revise(
        &mut self,
        id: &str,
        service: Option<String>,
        email: Option<String>,
        password: Option<String>,
        username: Option<String>,
        url: Option<String>,
    ) -> (r: Result<(), VaultError>)
        ensures
            final(self).vault() == old(self).vault(),
            match r {
                Ok(_) => exists|record: CipherView|
                    {
                        &&& record.id == id@
                        &&& revise_outcome(
                            old(self).vault(),
                            old(self).rows(),
                            id@,
                            text_view(service),
                            text_view(email),
                            text_view(password),
                            text_view(username),
                            text_view(url),
                        ) == Ok::<EntryView, VaultError>(opened(old(self).vault(), record)->0)
                        &&& opened(old(self).vault(), record) is Some
                        &&& final(self).rows() == #[trigger] old(self).rows().map_values(
                            replacing(record),
                        )
                    },
                Err(e) => {
                    &&& final(self).rows() == old(self).rows()
                    &&& (e == VaultError::Io || revise_outcome(
                        old(self).vault(),
                        old(self).rows(),
                        id@,
                        text_view(service),
                        text_view(email),
                        text_view(password),
                        text_view(username),
                        text_view(url),
                    ) == Err::<EntryView, VaultError>(e))
                },
            },
    {
        let mut entry = match self.read(id) {
            Ok(entry) => entry,
            Err(e) => { return Err(e); },
        };
        let ghost before = self.rows();
        proof {
            lemma_found(before, id@);
        }
        entry.overite(service, email, password, username, url);
        let ghost changed = entry@;
        let r = self.update(entry);
        proof {
            if r is Ok {
                let record = choose|record: CipherView|
                    {
                        &&& record.id == changed.id
                        &&& opened(self.vault(), record) == Some(changed)
                        &&& self.rows() == #[trigger] before.map_values(replacing(record))
                    };
                assert(record.id == id@);
                assert(self.rows() == before.map_values(replacing(record)));
            }
        }
        r
    }
}

/// A row is found for an id exactly where some row has the id, and the
/// row that is found has it.
pub proof fn lemma_found(rows: Seq<CipherView>, id: Seq<char>)
    ensures
        found(rows, id) is Some <==> has_id(rows, id),
        found(rows, id) is Some ==> found(rows, id)->0.id == id && rows.contains(found(rows, id)->0),
    decreases rows.len(),
{
    if rows.len() == 0 {
    } else if rows[0].id == id {
    } else {
        let rest = rows.drop_first();
        lemma_found(rest, id);
        if has_id(rows, id) {
            let i = choose|i: int| 0 <= i < rows.len() && (#[trigger] rows[i]).id == id;
            assert(rest[i - 1] == rows[i]);
        }
        if has_id(rest, id) {
            let i = choose|i: int| 0 <= i < rest.len() && (#[trigger] rest[i]).id == id;
            assert(rows[i + 1] == rest[i]);
        }
        if found(rest, id) is Some {
            let hit = found(rest, id)->0;
            let j = choose|j: int| 0 <= j < rest.len() && rest[j] == hit;
            assert(rows[j + 1] == hit);
        }
    }
}

/// A row appended to rows of which none has its id is the row found for
/// that id.
pub proof fn lemma_found_appended(rows: Seq<CipherView>, row: CipherView)
    requires
        !has_id(rows, row.id),
    ensures
        found(rows.push(row), row.id) == Some(row),
    decreases rows.len(),
{
    let longer = rows.push(row);
    if rows.len() == 0 {
        assert(longer[0] == row);
    } else {
        assert(rows[0].id != row.id);
        assert(longer[0] == rows[0]);
        let rest = rows.drop_first();
        assert(longer.drop_first() == rest.push(row));
        if has_id(rest, row.id) {
            let i = choose|i: int| 0 <= i < rest.len() && (#[trigger] rest[i]).id == row.id;
            assert(rows[i + 1] == rest[i]);
        }
        lemma_found_appended(rest, row);
    }
}

/// Reading after writing: once an entry is written, reading its id gives
/// that entry, field for field.
///
/// `before` and `after` are the rows around a `write` that succeeded.
pub proof fn lemma_read_after_write(
    vault: &Encrypter,
    before: Seq<CipherView>,
    after: Seq<CipherView>,
    entry: EntryView,
)
    requires
        !has_id(before, entry.id),
        after.len() == before.len() + 1,
        after.drop_last() == before,
        after.last().id == entry.id,
        opened(vault, after.last()) == Some(entry),
    ensures
        read_outcome(vault, after, entry.id) == Ok::<EntryView, VaultError>(entry),
{
    assert(after == before.push(after.last()));
    lemma_found_appended(before, after.last());
}

/// Reading after removing: once an id is removed, reading it finds
/// nothing.
pub proof fn lemma_read_after_remove(vault: &Encrypter, rows: Seq<CipherView>, id: Seq<char>)
    ensures
        read_outcome(vault, rows.filter(with_other_id(id)), id) == Err::<EntryView, VaultError>(
            VaultError::NotFound,
        ),
{
    let rest = rows.filter(with_other_id(id));
    lemma_found(rest, id);
    if has_id(rest, id) {
        let i = choose|i: int| 0 <= i < rest.len() && (#[trigger] rest[i]).id == id;
        rows.lemma_filter_pred(with_other_id(id), i);
    }
}

/// What an update changes: the rows keep their number, their order and
/// their ids; a row with the record's id becomes the record, and every
/// other row stays as it was.
pub proof fn lemma_update_is_local(rows: Seq<CipherView>, record: CipherView)
    ensures
        rows.map_values(replacing(record)).len() == rows.len(),
        forall|i: int|
            0 <= i < rows.len() ==> (#[trigger] rows.map_values(replacing(record))[i]).id
                == rows[i].id,
        forall|i: int|
            0 <= i < rows.len() && rows[i].id != record.id ==> #[trigger] rows.map_values(
                replacing(record),
            )[i] == rows[i],
        forall|i: int|
            0 <= i < rows.len() && rows[i].id == record.id ==> #[trigger] rows.map_values(
                replacing(record),
            )[i] == record,
{
}

/// What is found is among what is listed: every entry that a query keeps
/// is one of the entries.
pub proof fn lemma_find_within_list(all: Seq<EntryView>, query: Seq<char>)
    ensures
        all.filter(matching(query)).len() <= all.len(),
        forall|entry: EntryView| #[trigger]
            all.filter(matching(query)).contains(entry) ==> all.contains(entry),
{
    all.lemma_filter_len(matching(query));
    assert forall|entry: EntryView| #[trigger]
        all.filter(matching(query)).contains(entry) implies all.contains(entry) by {
        all.lemma_filter_contains_rev(matching(query), entry);
    }
}

/// The contents of entries: each without its id.
pub open spec fn contents(entries: Seq<EntryView>) -> Seq<
    (Seq<char>, Seq<char>, Seq<char>, Seq<char>, Seq<char>),
> {
    entries.map_values(|entry: EntryView| entry.content())
}

/// Export, then import: where the records imported into an empty store
/// carry the contents of the entries exported, the store then lists
/// entries of the same contents, in the same order, whatever the ids.
///
/// `after` is the rows after an `import` of `list` that succeeded on a
/// store without rows.
pub proof fn lemma_import_reproduces(
    vault: &Encrypter,
    exported: Seq<EntryView>,
    list: Seq<ImportedEntry>,
    after: Seq<CipherView>,
)
    requires
        list.len() == exported.len(),
        forall|k: int| 0 <= k < list.len() ==> import_content(&#[trigger] list[k]) == exported[k].content(),
        grown_by_all(vault, Seq::empty(), after, list, list.len() as int),
    ensures
        opened_rows(vault, after) is Some,
        contents(opened_rows(vault, after)->0) == contents(exported),
        contents(opened_rows(vault, after)->0).to_multiset() == contents(exported).to_multiset(),
{
    assert forall|i: int| 0 <= i < after.len() implies opened(vault, #[trigger] after[i])
        is Some by {
        assert(after[0 + i] == after[i]);
    }
    let listed = opened_rows(vault, after)->0;
    assert forall|i: int| 0 <= i < listed.len() implies contents(listed)[i] == contents(
        exported,
    )[i] by {
        assert(after[0 + i] == after[i]);
    }
    assert(contents(listed) =~= contents(exported));
}

/// The entry that a record is imported as, under an id.
pub open spec fn imported_as(id: Seq<char>, record: &ImportedEntry) -> EntryView {
    EntryView {
        id,
        service: record.service@,
        email: record.email@,
        password: record.password@,
        username: record.username@,
        url: record.url@,
    }
}

/// Tells the error with which writing an entry to the rows fails: the
/// reason why the entry cannot be sealed; where it can, `DuplicateId`
/// where a row has its id, or what the backing store reports.
pub open spec fn refused_with(
    vault: &Encrypter,
    rows: Seq<CipherView>,
    entry: EntryView,
    e: VaultError,
) -> bool {
    match seal_failure(vault, entry) {
        Some(reason) => e == reason,
        None => e == VaultError::Io || (e == VaultError::DuplicateId && has_id(rows, entry.id)),
    }
}

/// What revising the entry of an id gives, the backing store permitting:
/// the entry read from the rows with every value that is given put in
/// place of its own, or the reason why it cannot be read or cannot be
/// sealed.
pub open spec fn revise_outcome(
    vault: &Encrypter,
    rows: Seq<CipherView>,
    id: Seq<char>,
    service: Option<Seq<char>>,
    email: Option<Seq<char>>,
    password: Option<Seq<char>>,
    username: Option<Seq<char>>,
    url: Option<Seq<char>>,
) -> Result<EntryView, VaultError> {
    match read_outcome(vault, rows, id) {
        Err(e) => Err(e),
        Ok(entry) => {
            let changed = overwritten(entry, service, email, password, username, url);
            match seal_failure(vault, changed) {
                Some(reason) => Err(reason),
                None => Ok(changed),
            }
        },
    }
}

} // verus!
