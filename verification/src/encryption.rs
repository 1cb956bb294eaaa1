use vstd::prelude::*;
use vstd::string::{StringExecFns, StringSliceAdditionalSpecFns};
use vstd::utf8::{
    encode_utf8, encode_utf8_decode_utf8, encode_utf8_valid_utf8, is_char_boundary,
    is_char_boundary_iff_is_leading_byte,
};

use crate::codec::{
    b64_encode, base64_len, base64_text, blob_of, blob_parts, frame_blob, is_framed, parse_blob,
    BLOB_SEPARATOR,
};
use crate::crypto::{
    aead_open, aead_opened, aead_seal, aead_sealed, costs_view, kdf, kdf_key, kdf_takes,
    lanes_in_range, phc_accepts, phc_costs, phc_hash, phc_params, phc_parses, phc_verify,
    random_key, random_nonce, random_salt, text_from, text_of, KDF_INPUT_MAX, KEY_LEN, LANES_MAX,
    NONCE_LEN, SALT_LEN, SEAL_MAX, SPACE, TAG_LEN,
};
use crate::error::VaultError;
use crate::keyfile::{keyfile_content, keyfile_parts, Keyfile};
use crate::text::{
    find_first, lemma_ascii_in_encoding, lemma_encode_ascii, lemma_encode_concat,
    lemma_first_index, lemma_split_first_parts, slice_to_owned, split_first,
};

verus! {

/// Seconds to wait after a failed unlock before reporting the failure.
pub const AUTH_DELAY_SECS: u64 = 5;

/// An unlocked vault: the key derived from the passphrase, and the data key
/// sealed under it. The data key itself is unwrapped for each use and kept
/// nowhere.
#[derive(Clone)]
pub struct Encrypter {
    /// The key derived from the passphrase.
    pub derived_key: Vec<u8>,
    /// The blob that holds the data key, sealed under the derived key.
    pub encrpytion_key: Vec<u8>,
}

/// What opens from a blob under a key: the blob must hold a 12-byte nonce,
/// and what it holds must authenticate.
pub open spec fn blob_opened(key: Seq<u8>, blob: Seq<u8>) -> Option<Seq<u8>> {
    match blob_parts(blob) {
        Some((nonce, sealed)) => if nonce.len() == NONCE_LEN {
            aead_opened(key, nonce, sealed)
        } else {
            None
        },
        None => None,
    }
}

/// The data key that a derived key unwraps from a wrapped key. Both keys
/// must have 32 bytes.
pub open spec fn unwrapped_key(derived_key: Seq<u8>, wrapped_key: Seq<u8>) -> Option<Seq<u8>> {
    if derived_key.len() != KEY_LEN {
        None
    } else {
        match blob_opened(derived_key, wrapped_key) {
            Some(key) => if key.len() == KEY_LEN {
                Some(key)
            } else {
                None
            },
            None => None,
        }
    }
}

/// A hash string that can be verified against: it is well formed, and it
/// asks for no more lanes than the hash function takes.
pub open spec fn hash_usable(hash: Seq<char>) -> bool {
    phc_parses(hash) && lanes_in_range(phc_costs(hash))
}

/// The seconds to wait before a failure to unlock is reported: the fixed
/// delay after a wrong passphrase, and none after any other failure.
pub open spec fn delay_after(failure: VaultError) -> u64 {
    if failure == VaultError::Authentication {
        AUTH_DELAY_SECS
    } else {
        0
    }
}

/// The outcome of unlocking a keyfile's content with a passphrase: the
/// derived key and the wrapped data key, or the reason why the vault stays
/// locked.
pub open spec fn unlocked(master: Seq<u8>, content: Seq<u8>) -> Result<
    (Seq<u8>, Seq<u8>),
    VaultError,
> {
    match keyfile_parts(content) {
        None => Err(VaultError::KeyfileCorrupt),
        Some((salt, hash, wrapped_key)) => match kdf_key(salt, master) {
            None => Err(VaultError::Kdf),
            Some(derived_key) => if !hash_usable(text_from(hash)) {
                Err(VaultError::HashParse)
            } else if !phc_accepts(text_from(hash), base64_text(derived_key)) {
                Err(VaultError::Authentication)
            } else {
                Ok((derived_key, wrapped_key))
            },
        },
    }
}

/// The content unlocks with the passphrase, to a vault whose data key
/// unwraps.
pub open spec fn opens_with(master: Seq<u8>, content: Seq<u8>) -> bool {
    match unlocked(master, content) {
        Ok((derived_key, wrapped_key)) => unwrapped_key(derived_key, wrapped_key) is Some,
        Err(_) => false,
    }
}

/// The content decodes, and its salt has the length that a new vault is
/// given.
pub open spec fn salted(content: Seq<u8>) -> bool {
    match keyfile_parts(content) {
        Some((salt, _, _)) => salt.len() == SALT_LEN,
        None => false,
    }
}

/// Unlocking what `init` made: a vault that is unlocked from a content
/// which opens with the passphrase has a data key that unwraps, so it
/// encrypts, and decrypts what it encrypted.
pub proof fn lemma_unlocked_vault_works(vault: &Encrypter, master: Seq<u8>, content: Seq<u8>)
    requires
        opens_with(master, content),
        unlocked(master, content) == Ok::<(Seq<u8>, Seq<u8>), VaultError>(
            (vault.derived_key@, vault.encrpytion_key@),
        ),
    ensures
        vault.spec_master_key() is Some,
{
}

/// The content is laid out as that of a new vault: it is the base64 text
/// of the line of its three parts; its hash is a hash string that can be
/// verified against; and its wrapped key is the blob of a nonce of 12
/// bytes and of the 48 bytes of a key that is sealed.
pub open spec fn wraps_a_key(content: Seq<u8>) -> bool {
    match keyfile_parts(content) {
        Some((salt, hash, wrapped_key)) => {
            &&& content == keyfile_content(salt, hash, wrapped_key)
            &&& hash_usable(text_from(hash))
            &&& match blob_parts(wrapped_key) {
                Some((nonce, sealed)) => {
                    &&& wrapped_key == blob_of(base64_text(nonce), base64_text(sealed))
                    &&& nonce.len() == NONCE_LEN
                    &&& sealed.len() == KEY_LEN + TAG_LEN
                },
                None => false,
            }
        },
        None => false,
    }
}

/// The length of the blob that holds a plaintext of so many bytes: the
/// text of a nonce, a colon, and the text of the plaintext with its tag.
pub open spec fn blob_len(plain: int) -> int {
    base64_len(NONCE_LEN as int) + 1 + base64_len(plain + TAG_LEN)
}

/// The blob has its one colon behind the text of the nonce.
pub open spec fn colon_after_nonce(blob: Seq<u8>) -> bool {
    forall|i: int|
        0 <= i < blob.len() ==> ((#[trigger] blob[i]) == BLOB_SEPARATOR <==> i == base64_len(
            NONCE_LEN as int,
        ))
}

/// Tells whether the parameters of a hash string ask for no more lanes
/// than the hash function takes.
pub fn lanes_allowed(params: &Vec<(String, Option<u32>)>) -> (allowed: bool)
    ensures
        allowed == lanes_in_range(costs_view(params@)),
{
    let lanes = String::from_str("p");
    let mut i: usize = 0;
    while i < params.len()
        invariant
            i <= params@.len(),
            lanes@ == "p"@,
            forall|k: int|
                0 <= k < i && (#[trigger] costs_view(params@)[k]).0 == "p"@ ==> match costs_view(
                    params@,
                )[k].1 {
                    Some(value) => value <= LANES_MAX,
                    None => true,
                },
        decreases params@.len() - i,
    {
        let pair = &params[i];
        assert(costs_view(params@)[i as int] == (pair.0@, pair.1));
        if pair.0 == lanes {
            match pair.1 {
                Some(value) => {
                    if value > LANES_MAX {
                        return false;
                    }
                },
                None => {},
            }
        }
        i += 1;
    }
    true
}

/// Tells whether a hash string is that of a secret, or fails with
/// `HashParse` where the string cannot be verified against.
pub fn verify_secret(hash: &str, secret: &[u8]) -> (r: Result<bool, VaultError>)
    ensures
        match r {
            Ok(accepted) => hash_usable(hash@) && accepted == phc_accepts(hash@, secret@),
            Err(e) => e == VaultError::HashParse && !hash_usable(hash@),
        },
{
    match phc_params(hash) {
        Some(params) => {
            if lanes_allowed(&params) {
                Ok(phc_verify(hash, secret))
            } else {
                Err(VaultError::HashParse)
            }
        },
        None => Err(VaultError::HashParse),
    }
}

/// The seconds to wait before a failure to unlock is reported.
pub fn throttle(failure: VaultError) -> (seconds: u64)
    ensures
        seconds == delay_after(failure),
{
    match failure {
        VaultError::Authentication => AUTH_DELAY_SECS,
        _ => 0,
    }
}

/// Opens a blob under a key.
pub fn open_blob(key: &[u8], blob: &[u8]) -> (plain: Option<Vec<u8>>)
    requires
        key@.len() == KEY_LEN,
    ensures
        match plain {
            Some(p) => blob_opened(key@, blob@) == Some(p@) && is_framed(blob@),
            None => blob_opened(key@, blob@) is None,
        },
{
    match parse_blob(blob) {
        Some((nonce, sealed)) => {
            if nonce.len() != NONCE_LEN {
                return None;
            }
            aead_open(key, nonce.as_slice(), sealed.as_slice())
        },
        None => None,
    }
}

/// Seals a plaintext under a key and a nonce, and frames the outcome as a
/// blob. `None` where the plaintext is too long for the cipher.
pub fn seal_blob(key: &[u8], nonce: &[u8], plain: &[u8]) -> (blob: Option<Vec<u8>>)
    requires
        key@.len() == KEY_LEN,
        nonce@.len() == NONCE_LEN,
    ensures
        match blob {
            Some(b) => {
                &&& aead_sealed(key@, nonce@, plain@) is Some
                &&& plain@.len() <= SEAL_MAX
                &&& b@ == blob_of(
                    base64_text(nonce@),
                    base64_text(aead_sealed(key@, nonce@, plain@)->0),
                )
                &&& blob_parts(b@) == Some((nonce@, aead_sealed(key@, nonce@, plain@)->0))
                &&& blob_opened(key@, b@) == Some(plain@)
                &&& aead_sealed(key@, nonce@, plain@)->0.len() == plain@.len() + TAG_LEN
                &&& b@.len() == blob_len(plain@.len() as int)
                &&& colon_after_nonce(b@)
            },
            None => aead_sealed(key@, nonce@, plain@) is None && plain@.len() > SEAL_MAX,
        },
{
    match aead_seal(key, nonce, plain) {
        Some(sealed) => Some(frame_blob(nonce, sealed.as_slice())),
        None => None,
    }
}

/// Puts a new vault's keyfile together from the values drawn for it, and
/// gives its content.
///
/// Unlocking that content with the same passphrase succeeds, and the data
/// key unwraps.
pub fn seal_vault(
    master: &str,
    salt: Vec<u8>,
    derived_key: &[u8],
    hash: &str,
    data_key: &[u8],
    nonce: &[u8],
) -> (content: Vec<u8>)
    requires
        kdf_key(salt@, master.spec_bytes()) == Some(derived_key@),
        derived_key@.len() == KEY_LEN,
        data_key@.len() == KEY_LEN,
        nonce@.len() == NONCE_LEN,
        hash_usable(hash@),
        phc_accepts(hash@, base64_text(derived_key@)),
        !hash.spec_bytes().contains(SPACE),
    ensures
        aead_sealed(derived_key@, nonce@, data_key@) is Some,
        aead_sealed(derived_key@, nonce@, data_key@)->0.len() == KEY_LEN + TAG_LEN,
        wraps_a_key(content@),
        ({
            let wrapped_key = blob_of(
                base64_text(nonce@),
                base64_text(aead_sealed(derived_key@, nonce@, data_key@)->0),
            );
            &&& content@ == keyfile_content(salt@, hash.spec_bytes(), wrapped_key)
            &&& keyfile_parts(content@) == Some((salt@, hash.spec_bytes(), wrapped_key))
            &&& unlocked(master.spec_bytes(), content@) == Ok::<(Seq<u8>, Seq<u8>), VaultError>(
                (derived_key@, wrapped_key),
            )
            &&& unwrapped_key(derived_key@, wrapped_key) == Some(data_key@)
        }),
{
    let wrapped_key = match seal_blob(derived_key, nonce, data_key) {
        Some(blob) => blob,
        None => {
            // A key of 32 bytes is never too long to seal.
            assert(false);
            Vec::new()
        },
    };
    let keyfile = Keyfile { salt, hash: slice_to_owned(hash.as_bytes()), wrapped_key };
    proof {
        encode_utf8_valid_utf8(hash@);
        encode_utf8_decode_utf8(hash@);
    }
    keyfile.encode()
}

impl Encrypter {
    /// The data key that this vault unwraps, or `None` where its keys are
    /// malformed or the wrapped key does not authenticate.
    pub open spec fn spec_master_key(&self) -> Option<Seq<u8>> {
        unwrapped_key(self.derived_key@, self.encrpytion_key@)
    }

    /// The text that this vault decrypts a blob to, or `None` where the
    /// data key does not unwrap, the blob is malformed or it fails
    /// authentication.
    pub open spec fn spec_decrypt(&self, payload: Seq<u8>) -> Option<Seq<char>> {
        match self.spec_master_key() {
            Some(key) => match blob_opened(key, payload) {
                Some(plain) => Some(text_from(plain)),
                None => None,
            },
            None => None,
        }
    }

    /// Creates a vault for a passphrase and gives the content of its
    /// keyfile, for the caller to store.
    ///
    /// Refuses where a vault exists already. The salt, the data key and the
    /// nonce are drawn at random; whatever they are, the content unlocks
    /// with the same passphrase, to a vault whose data key unwraps.
    pub fn init(master: &str, vault_exists: bool) -> (r: Result<Vec<u8>, VaultError>)
        ensures
            vault_exists ==> r == Err::<Vec<u8>, VaultError>(VaultError::VaultExists),
            !vault_exists ==> match r {
                Ok(content) => {
                    &&& master.spec_bytes().len() <= KDF_INPUT_MAX
                    &&& salted(content@)
                    &&& wraps_a_key(content@)
                    &&& opens_with(master.spec_bytes(), content@)
                },
                Err(e) => e == VaultError::Kdf && master.spec_bytes().len() > KDF_INPUT_MAX,
            },
    {
        if vault_exists {
            return Err(VaultError::VaultExists);
        }
        let salt = random_salt();
        let derived_key = match Encrypter::derive(salt.as_slice(), master) {
            Ok(key) => key,
            Err(e) => { return Err(e); },
        };
        let secret = b64_encode(derived_key.as_slice());
        let hash = match phc_hash(secret.as_slice()) {
            Some(hash) => hash,
            None => { return Err(VaultError::Kdf); },
        };
        let data_key = random_key();
        let nonce = random_nonce();
        Ok(
            seal_vault(
                master,
                salt,
                derived_key.as_slice(),
                hash.as_str(),
                data_key.as_slice(),
                nonce.as_slice(),
            ),
        )
    }

    /// Unlocks a vault with a passphrase, given the content of its keyfile,
    /// or `None` where there is no keyfile.
    ///
    /// No vault is handed out unless the key derives and the stored hash
    /// accepts it.
    pub fn unlock(master: &str, keyfile: Option<&[u8]>) -> (r: Result<Encrypter, VaultError>)
        ensures
            match keyfile {
                None => r matches Err(e) && e == VaultError::VaultAbsent,
                Some(content) => match r {
                    Ok(vault) => unlocked(master.spec_bytes(), content@) == Ok::<
                        (Seq<u8>, Seq<u8>),
                        VaultError,
                    >((vault.derived_key@, vault.encrpytion_key@)),
                    Err(e) => unlocked(master.spec_bytes(), content@) == Err::<
                        (Seq<u8>, Seq<u8>),
                        VaultError,
                    >(e),
                },
            },
    {
        let content = match keyfile {
            Some(content) => content,
            None => { return Err(VaultError::VaultAbsent); },
        };
        let keyfile = match Keyfile::decode(content) {
            Ok(keyfile) => keyfile,
            Err(e) => { return Err(e); },
        };
        let derived_key = match Encrypter::derive(keyfile.salt.as_slice(), master) {
            Ok(key) => key,
            Err(e) => { return Err(e); },
        };
        let hash = text_of(keyfile.hash.as_slice());
        let secret = b64_encode(derived_key.as_slice());
        match verify_secret(hash.as_str(), secret.as_slice()) {
            Err(e) => Err(e),
            Ok(false) => Err(VaultError::Authentication),
            Ok(true) => Ok(Encrypter { derived_key, encrpytion_key: keyfile.wrapped_key }),
        }
    }

    /// Cuts a blob, given as text, at its first colon: the nonce's text
    /// before it and the ciphertext's text after it. A text without a colon
    /// is no blob.
    pub fn decompose<'a>(encrypted: &'a str) -> (r: Result<(&'a str, &'a str), VaultError>)
        ensures
            match r {
                Ok((nonce, key)) => {
                    &&& nonce@ + seq![':'] + key@ == encrypted@
                    &&& !nonce@.contains(':')
                    &&& split_first(encrypted.spec_bytes(), BLOB_SEPARATOR) == Some(
                        (nonce.spec_bytes(), key.spec_bytes()),
                    )
                },
                Err(e) => {
                    &&& e == VaultError::Decrypt
                    &&& !encrypted@.contains(':')
                    &&& split_first(encrypted.spec_bytes(), BLOB_SEPARATOR) is None
                },
            },
    {
        let bytes = encrypted.as_bytes();
        match find_first(bytes, BLOB_SEPARATOR) {
            None => {
                proof {
                    lemma_first_index(bytes@, BLOB_SEPARATOR);
                    if encrypted@.contains(':') {
                        lemma_ascii_in_encoding(encrypted@, ':');
                    }
                }
                Err(VaultError::Decrypt)
            },
            Some(at) => {
                proof {
                    lemma_first_index(bytes@, BLOB_SEPARATOR);
                    encode_utf8_valid_utf8(encrypted@);
                    is_char_boundary_iff_is_leading_byte(bytes@, at as int);
                }
                let (nonce, rest) = encrypted.split_at(at);
                proof {
                    encode_utf8_valid_utf8(rest@);
                    assert(rest.spec_bytes()[0] == BLOB_SEPARATOR);
                    reveal_with_fuel(is_char_boundary, 2);
                }
                let (_, key) = rest.split_at(1);
                proof {
                    assert(nonce.spec_bytes() == bytes@.subrange(0, at as int));
                    assert(key.spec_bytes() == bytes@.subrange(at + 1, bytes@.len() as int));
                    lemma_split_first_parts(
                        bytes@,
                        BLOB_SEPARATOR,
                        nonce.spec_bytes(),
                        key.spec_bytes(),
                    );
                    if nonce@.contains(':') {
                        lemma_ascii_in_encoding(nonce@, ':');
                    }
                    let joined = nonce@ + seq![':'] + key@;
                    lemma_encode_ascii(':');
                    lemma_encode_concat(nonce@, seq![':']);
                    lemma_encode_concat(nonce@ + seq![':'], key@);
                    assert(encode_utf8(joined) == encode_utf8(encrypted@));
                    encode_utf8_decode_utf8(joined);
                    encode_utf8_decode_utf8(encrypted@);
                }
                Ok((nonce, key))
            },
        }
    }

    /// The place of the keyfile below a base directory.
    pub fn load_keyfile_path(home: &str) -> (path: String)
        ensures
            path@ == home@ + "/.candado/.candado.key"@,
    {
        String::from_str(home).concat("/.candado/.candado.key")
    }

    /// Hashes a secret into a self-describing hash string, with a salt of
    /// its own.
    pub fn hash(password: &str) -> (r: Result<String, VaultError>)
        ensures
            match r {
                Ok(h) => {
                    &&& hash_usable(h@)
                    &&& phc_accepts(h@, password.spec_bytes())
                    &&& !encode_utf8(h@).contains(SPACE)
                },
                Err(e) => e == VaultError::Kdf && password.spec_bytes().len() > KDF_INPUT_MAX,
            },
    {
        match phc_hash(password.as_bytes()) {
            Some(hash) => Ok(hash),
            None => Err(VaultError::Kdf),
        }
    }

    /// Tells whether a hash string is that of a secret. A string that is no
    /// hash string is an error, never a plain `false`.
    pub fn verify(hash: &str, key: &str) -> (r: Result<bool, VaultError>)
        ensures
            match r {
                Ok(accepted) => hash_usable(hash@) && accepted == phc_accepts(
                    hash@,
                    key.spec_bytes(),
                ),
                Err(e) => e == VaultError::HashParse && !hash_usable(hash@),
            },
    {
        verify_secret(hash, key.as_bytes())
    }

    /// Derives the 32-byte key of a passphrase and a salt.
    pub fn derive(salt: &[u8], master: &str) -> (r: Result<Vec<u8>, VaultError>)
        ensures
            match r {
                Ok(key) => kdf_key(salt@, master.spec_bytes()) == Some(key@) && key@.len()
                    == KEY_LEN,
                Err(e) => e == VaultError::Kdf && kdf_key(salt@, master.spec_bytes()) is None,
            },
            r is Ok <==> kdf_takes(salt@, master.spec_bytes()),
    {
        match kdf(salt, master.as_bytes()) {
            Some(key) => Ok(key),
            None => Err(VaultError::Kdf),
        }
    }

    /// Unwraps the data key.
    pub fn master_key(&self) -> (r: Result<Vec<u8>, VaultError>)
        ensures
            match r {
                Ok(key) => self.spec_master_key() == Some(key@) && key@.len() == KEY_LEN,
                Err(e) => e == VaultError::Decrypt && self.spec_master_key() is None,
            },
    {
        if self.derived_key.len() != KEY_LEN {
            return Err(VaultError::Decrypt);
        }
        match open_blob(self.derived_key.as_slice(), self.encrpytion_key.as_slice()) {
            Some(key) => {
                if key.len() != KEY_LEN {
                    return Err(VaultError::Decrypt);
                }
                Ok(key)
            },
            None => Err(VaultError::Decrypt),
        }
    }

    /// Decrypts a blob to its text. Fails on anything that does not
    /// authenticate: no partial plaintext is ever returned.
    ///
    /// A blob that decrypts is the one blob of the nonce and the sealed
    /// bytes that it holds, so a blob changed in any byte either is refused
    /// as it stands or hands the cipher another nonce or other sealed bytes.
    pub fn decrypt(&self, payload: &[u8]) -> (r: Result<String, VaultError>)
        ensures
            match r {
                Ok(plain) => self.spec_decrypt(payload@) == Some(plain@) && is_framed(payload@),
                Err(e) => e == VaultError::Decrypt && self.spec_decrypt(payload@) is None,
            },
    {
        let key = match self.master_key() {
            Ok(key) => key,
            Err(e) => { return Err(e); },
        };
        match open_blob(key.as_slice(), payload) {
            Some(plain) => Ok(text_of(plain.as_slice())),
            None => Err(VaultError::Decrypt),
        }
    }

    /// Encrypts a text to a blob, under a nonce drawn for this call.
    ///
    /// Whatever the nonce, the blob decrypts to the text again.
    pub fn encrypt(&self, plain: &str) -> (r: Result<Vec<u8>, VaultError>)
        ensures
            match r {
                Ok(blob) => {
                    &&& self.spec_master_key() is Some
                    &&& plain.spec_bytes().len() <= SEAL_MAX
                    &&& self.spec_decrypt(blob@) == Some(plain@)
                    &&& blob@.len() == blob_len(plain.spec_bytes().len() as int)
                    &&& colon_after_nonce(blob@)
                    &&& exists|nonce: Seq<u8>|
                        {
                            &&& nonce.len() == NONCE_LEN
                            &&& #[trigger] aead_sealed(
                                self.spec_master_key()->0,
                                nonce,
                                plain.spec_bytes(),
                            ) is Some
                            &&& blob@ == blob_of(
                                base64_text(nonce),
                                base64_text(
                                    aead_sealed(
                                        self.spec_master_key()->0,
                                        nonce,
                                        plain.spec_bytes(),
                                    )->0,
                                ),
                            )
                        }
                },
                Err(e) => if self.spec_master_key() is None {
                    e == VaultError::Decrypt
                } else {
                    e == VaultError::Encrypt && plain.spec_bytes().len() > SEAL_MAX
                },
            },
    {
        let key = match self.master_key() {
            Ok(key) => key,
            Err(e) => { return Err(e); },
        };
        let nonce = random_nonce();
        match seal_blob(key.as_slice(), nonce.as_slice(), plain.as_bytes()) {
            Some(blob) => {
                proof {
                    encode_utf8_valid_utf8(plain@);
                    encode_utf8_decode_utf8(plain@);
                }
                Ok(blob)
            },
            None => Err(VaultError::Encrypt),
        }
    }
}

} // verus!
