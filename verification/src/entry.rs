use vstd::prelude::*;
use vstd::string::StringExecFns;
use vstd::utf8::encode_utf8;

use crate::crypto::SEAL_MAX;
use crate::encryption::Encrypter;
use crate::error::VaultError;
use crate::generators::{gen_key, gen_password, is_alphanumeric, meets_rule};

verus! {

/// Length of the id that a new entry is given.
pub const ID_LEN: u32 = 12;

/// Length of the password that is generated where none is given.
pub const PASSWORD_LEN: u32 = 16;

/// A record of the vault, in clear.
#[derive(Debug)]
pub struct Entry {
    pub id: String,
    pub service: String,
    pub email: String,
    pub password: String,
    pub username: String,
    pub url: String,
}

/// A record of the vault as it is stored: the id in clear, so that the
/// record can be found by it, and each other field as a blob.
pub struct EncryptedEntry {
    pub id: String,
    pub service: Vec<u8>,
    pub email: Vec<u8>,
    pub password: Vec<u8>,
    pub username: Vec<u8>,
    pub url: Vec<u8>,
}

/// A record as it is imported: an entry that has no id yet.
#[derive(Debug)]
pub struct ImportedEntry {
    pub service: String,
    pub email: String,
    pub password: String,
    pub username: String,
    pub url: String,
}

/// The fields of an entry.
pub struct EntryView {
    pub id: Seq<char>,
    pub service: Seq<char>,
    pub email: Seq<char>,
    pub password: Seq<char>,
    pub username: Seq<char>,
    pub url: Seq<char>,
}

/// The fields of a stored record.
pub struct CipherView {
    pub id: Seq<char>,
    pub service: Seq<u8>,
    pub email: Seq<u8>,
    pub password: Seq<u8>,
    pub username: Seq<u8>,
    pub url: Seq<u8>,
}

impl View for Entry {
    type V = EntryView;

    open spec fn view(&self) -> EntryView {
        EntryView {
            id: self.id@,
            service: self.service@,
            email: self.email@,
            password: self.password@,
            username: self.username@,
            url: self.url@,
        }
    }
}

impl View for EncryptedEntry {
    type V = CipherView;

    open spec fn view(&self) -> CipherView {
        CipherView {
            id: self.id@,
            service: self.service@,
            email: self.email@,
            password: self.password@,
            username: self.username@,
            url: self.url@,
        }
    }
}

impl EntryView {
    /// The five fields that import and export carry: all but the id.
    pub open spec fn content(self) -> (Seq<char>, Seq<char>, Seq<char>, Seq<char>, Seq<char>) {
        (self.service, self.email, self.password, self.username, self.url)
    }
}

/// The entry that a stored record opens to under a vault, or `None` where
/// one of its blobs does not decrypt.
pub open spec fn opened(vault: &Encrypter, record: CipherView) -> Option<EntryView> {
    match (
        vault.spec_decrypt(record.service),
        vault.spec_decrypt(record.email),
        vault.spec_decrypt(record.password),
        vault.spec_decrypt(record.username),
        vault.spec_decrypt(record.url),
    ) {
        (Some(service), Some(email), Some(password), Some(username), Some(url)) => Some(
            EntryView { id: record.id, service, email, password, username, url },
        ),
        _ => None,
    }
}

/// A field is short enough for the cipher.
pub open spec fn fits(field: Seq<char>) -> bool {
    encode_utf8(field).len() <= SEAL_MAX
}

/// Why an entry cannot be sealed under a vault, or `None` where it can: the
/// data key does not unwrap, or a field is too long for the cipher.
pub open spec fn seal_failure(vault: &Encrypter, entry: EntryView) -> Option<VaultError> {
    if vault.spec_master_key() is None {
        Some(VaultError::Decrypt)
    } else if !(fits(entry.service) && fits(entry.email) && fits(entry.password) && fits(
        entry.username,
    ) && fits(entry.url)) {
        Some(VaultError::Encrypt)
    } else {
        None
    }
}

/// What can be opened to an entry.
pub trait Decrypt {
    /// The stored record that this stands for.
    spec fn sealed(&self) -> CipherView;

    /// Opens the record: every field decrypts, or the whole fails.
    fn decrypt(&self, encrypter: &Encrypter) -> (r: Result<Entry, VaultError>)
        ensures
            match r {
                Ok(entry) => opened(encrypter, self.sealed()) == Some(entry@),
                Err(e) => e == VaultError::Decrypt && opened(encrypter, self.sealed()) is None,
            },
    ;
}

/// What can be sealed to a stored record.
pub trait Encrypt {
    /// The entry that this stands for.
    spec fn plain(&self) -> EntryView;

    /// Seals the entry: the record keeps the id and opens to the entry
    /// again.
    fn encrypt(&self, encrypter: &Encrypter) -> (r: Result<EncryptedEntry, VaultError>)
        ensures
            match r {
                Ok(record) => {
                    &&& seal_failure(encrypter, self.plain()) is None
                    &&& record@.id == self.plain().id
                    &&& opened(encrypter, record@) == Some(self.plain())
                },
                Err(e) => seal_failure(encrypter, self.plain()) == Some(e),
            },
    ;
}

impl Decrypt for EncryptedEntry {
    open spec fn sealed(&self) -> CipherView {
        self@
    }

    fn decrypt(&self, encrypter: &Encrypter) -> (r: Result<Entry, VaultError>) {
        let service = match encrypter.decrypt(self.service.as_slice()) {
            Ok(text) => text,
            Err(e) => { return Err(e); },
        };
        let email = match encrypter.decrypt(self.email.as_slice()) {
            Ok(text) => text,
            Err(e) => { return Err(e); },
        };
        let password = match encrypter.decrypt(self.password.as_slice()) {
            Ok(text) => text,
            Err(e) => { return Err(e); },
        };
        let username = match encrypter.decrypt(self.username.as_slice()) {
            Ok(text) => text,
            Err(e) => { return Err(e); },
        };
        let url = match encrypter.decrypt(self.url.as_slice()) {
            Ok(text) => text,
            Err(e) => { return Err(e); },
        };
        Ok(Entry::init(self.id.clone(), service, email, password, username, url))
    }
}

impl Encrypt for Entry {
    open spec fn plain(&self) -> EntryView {
        self@
    }

    fn encrypt(&self, encrypter: &Encrypter) -> (r: Result<EncryptedEntry, VaultError>) {
        let service = match encrypter.encrypt(self.service.as_str()) {
            Ok(blob) => blob,
            Err(e) => { return Err(e); },
        };
        let email = match encrypter.encrypt(self.email.as_str()) {
            Ok(blob) => blob,
            Err(e) => { return Err(e); },
        };
        let password = match encrypter.encrypt(self.password.as_str()) {
            Ok(blob) => blob,
            Err(e) => { return Err(e); },
        };
        let username = match encrypter.encrypt(self.username.as_str()) {
            Ok(blob) => blob,
            Err(e) => { return Err(e); },
        };
        let url = match encrypter.encrypt(self.url.as_str()) {
            Ok(blob) => blob,
            Err(e) => { return Err(e); },
        };
        Ok(EncryptedEntry::init(self.id.clone(), service, email, password, username, url))
    }
}

impl Clone for Entry {
    fn clone(&self) -> (copy: Self)
        ensures
            copy@ == self@,
    {
        Entry {
            id: self.id.clone(),
            service: self.service.clone(),
            email: self.email.clone(),
            password: self.password.clone(),
            username: self.username.clone(),
            url: self.url.clone(),
        }
    }
}

impl Default for Entry {
    fn default() -> (entry: Self)
        ensures
            entry@ == (EntryView {
                id: Seq::empty(),
                service: Seq::empty(),
                email: Seq::empty(),
                password: Seq::empty(),
                username: Seq::empty(),
                url: Seq::empty(),
            }),
    {
        Entry {
            id: String::new(),
            service: String::new(),
            email: String::new(),
            password: String::new(),
            username: String::new(),
            url: String::new(),
        }
    }
}

impl EncryptedEntry {
    pub fn init(
        id: String,
        service: Vec<u8>,
        email: Vec<u8>,
        password: Vec<u8>,
        username: Vec<u8>,
        url: Vec<u8>,
    ) -> (record: Self)
        ensures
            record@ == (CipherView {
                id: id@,
                service: service@,
                email: email@,
                password: password@,
                username: username@,
                url: url@,
            }),
    {
        Self { id, service, email, password, username, url }
    }
}

/// The text that an entry is rendered as: its six fields with ` | `
/// between them.
pub open spec fn rendered(entry: EntryView) -> Seq<char> {
    entry.id + " | "@ + entry.service + " | "@ + entry.email + " | "@ + entry.password + " | "@
        + entry.username + " | "@ + entry.url
}

/// The entry that the given values assemble to: a value that is given
/// stands, the password falls back to the one at hand, and user name and
/// url fall back to the empty text.
pub open spec fn assembled(
    id: Seq<char>,
    service: Seq<char>,
    email: Seq<char>,
    password: Option<Seq<char>>,
    fallback: Seq<char>,
    username: Option<Seq<char>>,
    url: Option<Seq<char>>,
) -> EntryView {
    EntryView {
        id,
        service,
        email,
        password: match password {
            Some(text) => text,
            None => fallback,
        },
        username: match username {
            Some(text) => text,
            None => Seq::empty(),
        },
        url: match url {
            Some(text) => text,
            None => Seq::empty(),
        },
    }
}

/// `entry` is what the given values make a new entry under `id`: a value
/// that is given stands, a password that is not given is one of sixteen
/// characters that meets the composition rule, and user name and url
/// that are not given are empty.
pub open spec fn is_new(
    entry: EntryView,
    id: Seq<char>,
    service: Seq<char>,
    email: Seq<char>,
    password: Option<Seq<char>>,
    username: Option<Seq<char>>,
    url: Option<Seq<char>>,
) -> bool {
    &&& entry == assembled(id, service, email, password, entry.password, username, url)
    &&& password is None ==> entry.password.len() == PASSWORD_LEN && meets_rule(entry.password)
}

/// The view of an optional text.
pub open spec fn text_view(text: Option<String>) -> Option<Seq<char>> {
    match text {
        Some(t) => Some(t@),
        None => None,
    }
}

/// An entry with every field that is given put in place of its own.
pub open spec fn overwritten(
    entry: EntryView,
    service: Option<Seq<char>>,
    email: Option<Seq<char>>,
    password: Option<Seq<char>>,
    username: Option<Seq<char>>,
    url: Option<Seq<char>>,
) -> EntryView {
    EntryView {
        id: entry.id,
        service: match service {
            Some(text) => text,
            None => entry.service,
        },
        email: match email {
            Some(text) => text,
            None => entry.email,
        },
        password: match password {
            Some(text) => text,
            None => entry.password,
        },
        username: match username {
            Some(text) => text,
            None => entry.username,
        },
        url: match url {
            Some(text) => text,
            None => entry.url,
        },
    }
}

impl Entry {
    pub fn init(
        id: String,
        service: String,
        email: String,
        password: String,
        username: String,
        url: String,
    ) -> (entry: Self)
        ensures
            entry@ == (EntryView {
                id: id@,
                service: service@,
                email: email@,
                password: password@,
                username: username@,
                url: url@,
            }),
    {
        Self { id, service, email, password, username, url }
    }

    /// Puts an entry together from an id, the values given for it and the
    /// password to fall back on.
    pub fn assemble(
        id: String,
        service: String,
        email: String,
        password: Option<String>,
        fallback: String,
        username: Option<String>,
        url: Option<String>,
    ) -> (entry: Self)
        ensures
            entry@ == assembled(
                id@,
                service@,
                email@,
                text_view(password),
                fallback@,
                text_view(username),
                text_view(url),
            ),
    {
        Self {
            id,
            service,
            email,
            password: match password {
                Some(text) => text,
                None => fallback,
            },
            username: match username {
                Some(text) => text,
                None => String::new(),
            },
            url: match url {
                Some(text) => text,
                None => String::new(),
            },
        }
    }

    /// A new entry, under an id drawn for it: twelve letters and digits.
    ///
    /// Where no password is given, one of sixteen characters is generated,
    /// which meets the composition rule.
    pub fn new(
        service: String,
        email: String,
        password: Option<String>,
        username: Option<String>,
        url: Option<String>,
    ) -> (entry: Self)
        ensures
            entry@.id.len() == ID_LEN,
            forall|i: int| 0 <= i < entry@.id.len() ==> is_alphanumeric(#[trigger] entry@.id[i]),
            password is None ==> entry@.password.len() == PASSWORD_LEN && meets_rule(
                entry@.password,
            ),
            exists|fallback: Seq<char>| #[trigger]
                assembled(
                    entry@.id,
                    service@,
                    email@,
                    text_view(password),
                    fallback,
                    text_view(username),
                    text_view(url),
                ) == entry@,
    {
        let id = gen_key(ID_LEN);
        let fallback = gen_password(PASSWORD_LEN);
        Entry::assemble(id, service, email, password, fallback, username, url)
    }

    /// The entry that an imported record becomes, under an id drawn for it.
    pub fn from_import(value: ImportedEntry) -> (entry: Self)
        ensures
            entry@.id.len() == ID_LEN,
            forall|i: int| 0 <= i < entry@.id.len() ==> is_alphanumeric(#[trigger] entry@.id[i]),
            entry@.content() == (
                value.service@,
                value.email@,
                value.password@,
                value.username@,
                value.url@,
            ),
    {
        Entry::new(
            value.service,
            value.email,
            Some(value.password),
            Some(value.username),
            Some(value.url),
        )
    }

    /// Puts every value that is given in place of the entry's own. The id
    /// stays.
    pub fn overite(
        &mut self,
        service: Option<String>,
        email: Option<String>,
        password: Option<String>,
        username: Option<String>,
        url: Option<String>,
    )
        ensures
            final(self)@ == overwritten(
                old(self)@,
                text_view(service),
                text_view(email),
                text_view(password),
                text_view(username),
                text_view(url),
            ),
    {
        if let Some(val) = service {
            self.service = val;
        }
        if let Some(val) = email {
            self.email = val;
        }
        if let Some(val) = password {
            self.password = val;
        }
        if let Some(val) = username {
            self.username = val;
        }
        if let Some(val) = url {
            self.url = val;
        }
    }

    /// The six fields, the id first.
    pub fn ref_array(&self) -> (fields: [&String; 6])
        ensures
            fields@.len() == 6,
            fields@[0]@ == self@.id,
            fields@[1]@ == self@.service,
            fields@[2]@ == self@.email,
            fields@[3]@ == self@.password,
            fields@[4]@ == self@.username,
            fields@[5]@ == self@.url,
    {
        [&self.id, &self.service, &self.email, &self.password, &self.username, &self.url]
    }

    pub fn id(&self) -> (text: &str)
        ensures
            text@ == self@.id,
    {
        self.id.as_str()
    }

    pub fn service(&self) -> (text: &str)
        ensures
            text@ == self@.service,
    {
        self.service.as_str()
    }

    pub fn email(&self) -> (text: &str)
        ensures
            text@ == self@.email,
    {
        self.email.as_str()
    }

    pub fn password(&self) -> (text: &str)
        ensures
            text@ == self@.password,
    {
        self.password.as_str()
    }

    pub fn username(&self) -> (text: &str)
        ensures
            text@ == self@.username,
    {
        self.username.as_str()
    }

    pub fn url(&self) -> (text: &str)
        ensures
            text@ == self@.url,
    {
        self.url.as_str()
    }

    /// The entry as one line of text: `id | service | email | password |
    /// username | url`.
    pub fn render(&self) -> (text: String)
        ensures
            text@ == rendered(self@),
    {
        let mut text = self.id.clone();
        text.append(" | ");
        text.append(self.service.as_str());
        text.append(" | ");
        text.append(self.email.as_str());
        text.append(" | ");
        text.append(self.password.as_str());
        text.append(" | ");
        text.append(self.username.as_str());
        text.append(" | ");
        text.append(self.url.as_str());
        text
    }
}

} // verus!
