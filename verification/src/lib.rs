pub mod codec;
pub mod crypto;
pub mod encryption;
pub mod entry;
pub mod error;
pub mod generators;
pub mod keyfile;
pub mod storage;
pub mod text;
pub mod tui;

pub use encryption::Encrypter;
pub use entry::Entry;
pub use error::VaultError;
pub use storage::Storage;

use entry::ImportedEntry;
use storage::{read_outcome, views};
use vstd::prelude::*;
use vstd::string::StringSliceAdditionalSpecFns;

verus! {

pub const VERSION: &'static str = "V1.0.2";

pub const ABOUT: &'static str = "Candado a Local Encrypted Password Manager & Secret Generator";

pub const PREFIX: &'static str = "Candado \u{f023}";

/// Directory, below the user's base directory, that holds the vault's files.
pub const PROGRAM_FOLDER: &'static str = ".candado";

//------------------------------------------
// Manager
//------------------------------------------
/// Creates a vault for a passphrase: see `Encrypter::init`.
pub fn init(password: &str, vault_exists: bool) -> (r: Result<Vec<u8>, VaultError>)
    ensures
        vault_exists ==> r == Err::<Vec<u8>, VaultError>(VaultError::VaultExists),
        !vault_exists ==> match r {
            Ok(content) => {
                &&& password.spec_bytes().len() <= crypto::KDF_INPUT_MAX
                &&& encryption::salted(content@)
                &&& encryption::wraps_a_key(content@)
                &&& encryption::opens_with(password.spec_bytes(), content@)
            },
            Err(e) => e == VaultError::Kdf && password.spec_bytes().len()
                > crypto::KDF_INPUT_MAX,
        },
{
    Encrypter::init(password, vault_exists)
}

/// Unlocks a vault with a passphrase: see `Encrypter::unlock`.
pub fn unlock(password: &str, keyfile: Option<&[u8]>) -> (r: Result<Encrypter, VaultError>)
    ensures
        match keyfile {
            None => r matches Err(e) && e == VaultError::VaultAbsent,
            Some(content) => match r {
                Ok(vault) => encryption::unlocked(password.spec_bytes(), content@) == Ok::<
                    (Seq<u8>, Seq<u8>),
                    VaultError,
                >((vault.derived_key@, vault.encrpytion_key@)),
                Err(e) => encryption::unlocked(password.spec_bytes(), content@) == Err::<
                    (Seq<u8>, Seq<u8>),
                    VaultError,
                >(e),
            },
        },
{
    Encrypter::unlock(password, keyfile)
}

/// Lists the entries of a store: see `Storage::list`.
pub fn ls<'a>(store: &Storage<'a>) -> (r: Result<Vec<Entry>, VaultError>)
    ensures
        match r {
            Ok(entries) => store.entries() == Some(views(entries@)),
            Err(e) => e == VaultError::Io || (e == VaultError::Decrypt && store.entries() is None),
        },
{
    store.list()
}

/// Removes the entries of an id from a store: see `Storage::remove`.
pub fn rm<'a>(store: &mut Storage<'a>, id: &str) -> (r: Result<(), VaultError>)
    ensures
        final(store).vault() == old(store).vault(),
        match r {
            Ok(_) => final(store).rows() == old(store).rows().filter(storage::with_other_id(id@)),
            Err(e) => e == VaultError::Io && final(store).rows() == old(store).rows(),
        },
{
    store.remove(id)
}

/// Reads the entry of an id from a store: see `Storage::read`.
pub fn read<'a>(store: &Storage<'a>, id: &str) -> (r: Result<Entry, VaultError>)
    ensures
        match r {
            Ok(entry) => read_outcome(store.vault(), store.rows(), id@) == Ok::<
                entry::EntryView,
                VaultError,
            >(entry@),
            Err(e) => e == VaultError::Io || read_outcome(store.vault(), store.rows(), id@)
                == Err::<entry::EntryView, VaultError>(e),
        },
{
    store.read(id)
}

/// Adds a new entry to a store, under an id drawn for it, and gives the
/// id. Where no password is given, one is generated that meets the
/// composition rule.
pub fn add<'a>(
    store: &mut Storage<'a>,
    service: String,
    email: String,
    password: Option<String>,
    username: Option<String>,
    url: Option<String>,
) -> (r: Result<String, VaultError>)
    ensures
        final(store).vault() == old(store).vault(),
        match r {
            Ok(id) => {
                &&& id@.len() == entry::ID_LEN
                &&& !storage::has_id(old(store).rows(), id@)
                &&& final(store).rows().len() == old(store).rows().len() + 1
                &&& final(store).rows().drop_last() == old(store).rows()
                &&& final(store).rows().last().id == id@
                &&& entry::opened(old(store).vault(), final(store).rows().last()) is Some
                &&& entry::is_new(
                    entry::opened(old(store).vault(), final(store).rows().last())->0,
                    id@,
                    service@,
                    email@,
                    entry::text_view(password),
                    entry::text_view(username),
                    entry::text_view(url),
                )
            },
            Err(e) => {
                &&& final(store).rows() == old(store).rows()
                &&& exists|id: Seq<char>, fallback: Seq<char>|
                    id.len() == entry::ID_LEN && storage::refused_with(
                        old(store).vault(),
                        old(store).rows(),
                        #[trigger] entry::assembled(
                            id,
                            service@,
                            email@,
                            entry::text_view(password),
                            fallback,
                            entry::text_view(username),
                            entry::text_view(url),
                        ),
                        e,
                    )
            },
        },
{
    let ghost given = (
        service@,
        email@,
        entry::text_view(password),
        entry::text_view(username),
        entry::text_view(url),
    );
    let entry = Entry::new(service, email, password, username, url);
    let ghost plain = entry@;
    let ghost fallback = choose|fallback: Seq<char>| #[trigger]
        entry::assembled(plain.id, given.0, given.1, given.2, fallback, given.3, given.4) == plain;
    assert(entry::assembled(plain.id, given.0, given.1, given.2, fallback, given.3, given.4)
        == plain);
    let id = entry.id.clone();
    match store.write(entry) {
        Ok(_) => {
            Ok(id)
        },
        Err(e) => {
            assert(storage::refused_with(
                old(store).vault(),
                old(store).rows(),
                entry::assembled(plain.id, given.0, given.1, given.2, fallback, given.3, given.4),
                e,
            ));
            Err(e)
        },
    }
}

/// Changes the fields that are given of the entry of an id in a store: see
/// `Storage::revise`.
pub fn update<'a>(
    store: &mut Storage<'a>,
    id: &str,
    service: Option<String>,
    email: Option<String>,
    password: Option<String>,
    username: Option<String>,
    url: Option<String>,
) -> (r: Result<(), VaultError>)
    ensures
        final(store).vault() == old(store).vault(),
        match r {
            Ok(_) => exists|record: entry::CipherView|
                {
                    &&& record.id == id@
                    &&& storage::revise_outcome(
                        old(store).vault(),
                        old(store).rows(),
                        id@,
                        entry::text_view(service),
                        entry::text_view(email),
                        entry::text_view(password),
                        entry::text_view(username),
                        entry::text_view(url),
                    ) == Ok::<entry::EntryView, VaultError>(
                        entry::opened(old(store).vault(), record)->0,
                    )
                    &&& entry::opened(old(store).vault(), record) is Some
                    &&& final(store).rows() == #[trigger] old(store).rows().map_values(
                        storage::replacing(record),
                    )
                },
            Err(e) => {
                &&& final(store).rows() == old(store).rows()
                &&& (e == VaultError::Io || storage::revise_outcome(
                    old(store).vault(),
                    old(store).rows(),
                    id@,
                    entry::text_view(service),
                    entry::text_view(email),
                    entry::text_view(password),
                    entry::text_view(username),
                    entry::text_view(url),
                ) == Err::<entry::EntryView, VaultError>(e))
            },
        },
{
    store.revise(id, service, email, password, username, url)
}

/// Finds the entries of a store that a query matches: see `Storage::find`.
pub fn find<'a>(store: &Storage<'a>, query: &str) -> (r: Result<Vec<Entry>, VaultError>)
    ensures
        match r {
            Ok(hits) => {
                &&& store.entries() is Some
                &&& views(hits@) == store.entries()->0.filter(storage::matching(query@))
                &&& forall|i: int|
                    0 <= i < store.entries()->0.len() && storage::occurs_in(
                        query@,
                        entry::rendered(#[trigger] store.entries()->0[i]),
                    ) ==> views(hits@).contains(store.entries()->0[i])
                &&& query@.len() == 0 ==> views(hits@) == store.entries()->0
            },
            Err(e) => e == VaultError::Io || (e == VaultError::Decrypt && store.entries() is None),
        },
{
    store.find(query)
}

/// Imports the records read from a file into a store: see
/// `Storage::import`. The file's name decides whether it can be imported:
/// `json` can, and nothing is written where it cannot.
pub fn import<'a>(store: &mut Storage<'a>, file: &str, list: &Vec<ImportedEntry>) -> (r: Result<
    (),
    VaultError,
>)
    ensures
        final(store).vault() == old(store).vault(),
        match r {
            Ok(_) => {
                &&& storage::path_extension(file@) == Some("json"@)
                &&& storage::grown_by_all(
                    old(store).vault(),
                    old(store).rows(),
                    final(store).rows(),
                    list@,
                    list@.len() as int,
                )
            },
            Err(e) => if storage::path_extension(file@) == Some("json"@) {
                exists|count: int| #[trigger]
                    storage::stopped_at(
                        old(store).vault(),
                        old(store).rows(),
                        final(store).rows(),
                        list@,
                        count,
                        e,
                    )
            } else {
                e == VaultError::UnsupportedFormat && final(store).rows() == old(store).rows()
            },
        },
{
    match storage::supported(file) {
        Ok(_) => {},
        Err(e) => { return Err(e); },
    }
    store.import(list)
}

/// The entries of a store, to be exported: see `Storage::export`.
pub fn export<'a>(store: &Storage<'a>) -> (r: Result<Vec<Entry>, VaultError>)
    ensures
        match r {
            Ok(entries) => store.entries() == Some(views(entries@)),
            Err(e) => e == VaultError::Io || (e == VaultError::Decrypt && store.entries() is None),
        },
{
    store.export()
}

//------------------------------------------
// Generators
//------------------------------------------
/// Generates a password: see `generators::gen_password`.
pub fn password(length: u32) -> (secret: String)
    ensures
        secret@.len() == length,
        generators::all_in_alphabet(secret@),
        length >= 3 ==> generators::meets_rule(secret@),
{
    generators::gen_password(length)
}

/// Generates a token: see `generators::gen_token`.
pub fn token(length: u32) -> (secret: String)
    ensures
        secret@.len() == 2 * length,
        forall|i: int| 0 <= i < secret@.len() ==> generators::is_hex_digit(#[trigger] secret@[i]),
{
    generators::gen_token(length)
}

/// Generates a key: see `generators::gen_key`.
pub fn key(length: u32) -> (secret: String)
    ensures
        secret@.len() == length,
        forall|i: int|
            0 <= i < secret@.len() ==> generators::is_alphanumeric(#[trigger] secret@[i]),
{
    generators::gen_key(length)
}

/// Generates a passphrase from a list of words: see
/// `generators::gen_passphrase`.
pub fn passphrase(length: u32, wordlist: &Vec<String>) -> (secret: String)
    requires
        wordlist@.len() >= generators::WORD_COUNT,
    ensures
        exists|picks: Seq<int>|
            {
                &&& picks.len() == length
                &&& forall|k: int|
                    0 <= k < picks.len() ==> 0 <= #[trigger] picks[k] < generators::WORD_COUNT
                &&& secret@ == #[trigger] generators::phrase(wordlist@, picks)
            },
{
    generators::gen_passphrase(length, wordlist)
}

} // verus!
