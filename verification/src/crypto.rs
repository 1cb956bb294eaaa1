use aes_gcm::aead::Aead;
use aes_gcm::{AeadCore, Aes256Gcm, Key, KeyInit, Nonce};
use argon2::password_hash::rand_core::{OsRng, RngCore};
use argon2::password_hash::{PasswordHash, PasswordHasher, PasswordVerifier, SaltString};
use argon2::Argon2;
use vstd::prelude::*;
use vstd::utf8::{decode_utf8, encode_utf8, valid_utf8};

verus! {

/// Length of the salt that a vault is created with.
pub const SALT_LEN: usize = 16;

/// Length of a key, derived or generated.
pub const KEY_LEN: usize = 32;

/// Length of the nonce of one sealing.
pub const NONCE_LEN: usize = 12;

/// Length of the authentication tag that sealing appends.
pub const TAG_LEN: usize = 16;

/// The longest plaintext that the cipher seals.
pub const SEAL_MAX: u64 = 0x10_0000_0000;

/// The shortest salt that the key derivation takes.
pub const KDF_SALT_MIN: usize = 8;

/// The longest salt, and the longest secret, that the key derivation takes.
pub const KDF_INPUT_MAX: u64 = 0xFFFF_FFFF;

/// The key that Argon2id, with its default parameters, derives from a salt
/// and a secret; `None` where it refuses them.
pub uninterp spec fn kdf_key(salt: Seq<u8>, secret: Seq<u8>) -> Option<Seq<u8>>;

/// The inputs that the key derivation takes: a salt of 8 bytes or more, and
/// neither salt nor secret of 4 GiB or more.
pub open spec fn kdf_takes(salt: Seq<u8>, secret: Seq<u8>) -> bool {
    KDF_SALT_MIN <= salt.len() <= KDF_INPUT_MAX && secret.len() <= KDF_INPUT_MAX
}

/// Whether `hash` is a well-formed password hash string.
pub uninterp spec fn phc_parses(hash: Seq<char>) -> bool;

/// The parameters that the well-formed hash string `hash` carries, in
/// their order: the name of each, and its value where that is a decimal
/// number.
pub uninterp spec fn phc_costs(hash: Seq<char>) -> Seq<(Seq<char>, Option<u32>)>;

/// The most lanes that Argon2 takes.
pub const LANES_MAX: u32 = 0xFF_FFFF;

/// No parameter named `p`, the number of lanes, is over what Argon2 takes.
pub open spec fn lanes_in_range(costs: Seq<(Seq<char>, Option<u32>)>) -> bool {
    forall|i: int|
        0 <= i < costs.len() && (#[trigger] costs[i]).0 == "p"@ ==> match costs[i].1 {
            Some(lanes) => lanes <= LANES_MAX,
            None => true,
        }
}

/// The parameters as a list of names and values.
pub open spec fn costs_view(list: Seq<(String, Option<u32>)>) -> Seq<(Seq<char>, Option<u32>)> {
    list.map_values(|pair: (String, Option<u32>)| (pair.0@, pair.1))
}

/// Whether the well-formed hash string `hash` is that of `secret`.
pub uninterp spec fn phc_accepts(hash: Seq<char>, secret: Seq<u8>) -> bool;

/// What AES-256-GCM makes of `plain` under `key` and `nonce`: ciphertext and
/// tag; `None` where `plain` is too long.
pub uninterp spec fn aead_sealed(key: Seq<u8>, nonce: Seq<u8>, plain: Seq<u8>) -> Option<Seq<u8>>;

/// The plaintext that AES-256-GCM reads from `sealed` under `key` and
/// `nonce`; `None` where authentication fails.
pub uninterp spec fn aead_opened(key: Seq<u8>, nonce: Seq<u8>, sealed: Seq<u8>) -> Option<Seq<u8>>;

/// The text that a lossy UTF-8 conversion reads from `bytes`.
pub uninterp spec fn lossy_text(bytes: Seq<u8>) -> Seq<char>;

/// The text that bytes are read as: what they encode where they are valid
/// UTF-8, and what the lossy conversion makes of them where they are not.
pub open spec fn text_from(bytes: Seq<u8>) -> Seq<char> {
    if valid_utf8(bytes) {
        decode_utf8(bytes)
    } else {
        lossy_text(bytes)
    }
}

/// The byte of a space, which no hash string holds.
pub const SPACE: u8 = 32;

/// Calls `argon2::Argon2::default().hash_password_into` with a 32-byte
/// output.
///
/// Trusted: the outcome is a function of salt and secret alone; a key has
/// 32 bytes; and the call refuses a salt under 8 bytes and a salt or a
/// secret of 4 GiB or more, and nothing else.
#[verifier::external_body]
pub(crate) fn kdf(salt: &[u8], secret: &[u8]) -> (key: Option<Vec<u8>>)
    ensures
        match key {
            Some(k) => {
                &&& kdf_key(salt@, secret@) == Some(k@)
                &&& k@.len() == KEY_LEN
                &&& kdf_takes(salt@, secret@)
            },
            None => kdf_key(salt@, secret@) is None && !kdf_takes(salt@, secret@),
        },
{
    let mut key = [0u8; 32];
    match Argon2::default().hash_password_into(secret, salt, &mut key) {
        Ok(()) => Some(key.to_vec()),
        Err(_) => None,
    }
}

/// Calls `argon2::password_hash::SaltString::generate` and
/// `argon2::Argon2::default().hash_password`, and writes the hash out as a
/// string.
///
/// Trusted: a secret under 4 GiB is hashed; the string is well formed, it
/// carries the default costs, with one lane, it is accepted for the secret
/// it was made from, and it holds no space. Its salt is random, so nothing
/// more is said of it.
#[verifier::external_body]
pub(crate) fn phc_hash(secret: &[u8]) -> (hash: Option<String>)
    ensures
        hash matches Some(h) ==> {
            &&& phc_parses(h@)
            &&& lanes_in_range(phc_costs(h@))
            &&& phc_accepts(h@, secret@)
            &&& !encode_utf8(h@).contains(SPACE)
        },
        secret@.len() <= KDF_INPUT_MAX ==> hash is Some,
{
    let salt = SaltString::generate(&mut OsRng);
    match Argon2::default().hash_password(secret, &salt) {
        Ok(hash) => Some(hash.to_string()),
        Err(_) => None,
    }
}

/// Calls `argon2::password_hash::PasswordHash::new` and the `iter` of its
/// parameters, and hands out each parameter's name with what
/// `argon2::password_hash::Value::decimal` makes of its value.
///
/// Trusted: whether the string parses, and its parameters, are a function
/// of the string. `None` stands for a string that does not parse.
#[verifier::external_body]
pub(crate) fn phc_params(hash: &str) -> (params: Option<Vec<(String, Option<u32>)>>)
    ensures
        match params {
            Some(list) => phc_parses(hash@) && costs_view(list@) == phc_costs(hash@),
            None => !phc_parses(hash@),
        },
{
    match PasswordHash::new(hash) {
        Ok(parsed) => Some(
            parsed.params.iter().map(|(n, v)| (n.as_str().to_string(), v.decimal().ok())).collect(),
        ),
        Err(_) => None,
    }
}

/// Calls `argon2::password_hash::PasswordHash::new` and
/// `argon2::Argon2::default().verify_password`.
///
/// Trusted: whether the string is accepted is a function of the string and
/// the secret. The string must parse, and carry no more lanes than Argon2
/// takes: on more, the call computes with them before it tests them.
#[verifier::external_body]
pub(crate) fn phc_verify(hash: &str, secret: &[u8]) -> (accepted: bool)
    requires
        phc_parses(hash@),
        lanes_in_range(phc_costs(hash@)),
    ensures
        accepted == phc_accepts(hash@, secret@),
{
    match PasswordHash::new(hash) {
        Ok(parsed) => Argon2::default().verify_password(secret, &parsed).is_ok(),
        Err(_) => false,
    }
}

/// Calls `aes_gcm::Aes256Gcm::new` and `aes_gcm::aead::Aead::encrypt`.
///
/// Trusted: the outcome is a function of key, nonce and plaintext; what is
/// sealed is 16 bytes longer than the plaintext and opens, under the same key
/// and nonce, to that plaintext; and a plaintext over 64 GiB is refused, and
/// no other.
#[verifier::external_body]
pub(crate) fn aead_seal(key: &[u8], nonce: &[u8], plain: &[u8]) -> (sealed: Option<Vec<u8>>)
    requires
        key@.len() == KEY_LEN,
        nonce@.len() == NONCE_LEN,
    ensures
        match sealed {
            Some(c) => {
                &&& aead_sealed(key@, nonce@, plain@) == Some(c@)
                &&& c@.len() == plain@.len() + TAG_LEN
                &&& plain@.len() <= SEAL_MAX
                &&& aead_opened(key@, nonce@, c@) == Some(plain@)
            },
            None => aead_sealed(key@, nonce@, plain@) is None && plain@.len() > SEAL_MAX,
        },
{
    let cipher = Aes256Gcm::new(Key::<Aes256Gcm>::from_slice(key));
    cipher.encrypt(Nonce::from_slice(nonce), plain).ok()
}

/// Calls `aes_gcm::Aes256Gcm::new` and `aes_gcm::aead::Aead::decrypt`.
///
/// Trusted: the outcome is a function of key, nonce and sealed bytes, and a
/// plaintext is 16 bytes shorter than what was sealed.
#[verifier::external_body]
pub(crate) fn aead_open(key: &[u8], nonce: &[u8], sealed: &[u8]) -> (plain: Option<Vec<u8>>)
    requires
        key@.len() == KEY_LEN,
        nonce@.len() == NONCE_LEN,
    ensures
        match plain {
            Some(p) => aead_opened(key@, nonce@, sealed@) == Some(p@) && p@.len() + TAG_LEN
                == sealed@.len(),
            None => aead_opened(key@, nonce@, sealed@) is None,
        },
{
    let cipher = Aes256Gcm::new(Key::<Aes256Gcm>::from_slice(key));
    cipher.decrypt(Nonce::from_slice(nonce), sealed).ok()
}

/// Calls `rand_core::OsRng.fill_bytes` on 16 bytes.
///
/// Trusted: the length. The bytes are random.
#[verifier::external_body]
pub(crate) fn random_salt() -> (salt: Vec<u8>)
    ensures
        salt@.len() == SALT_LEN,
{
    let mut salt = [0u8; 16];
    OsRng.fill_bytes(&mut salt);
    salt.to_vec()
}

/// Calls `aes_gcm::Aes256Gcm::generate_key`.
///
/// Trusted: the length. The bytes are random.
#[verifier::external_body]
pub(crate) fn random_key() -> (key: Vec<u8>)
    ensures
        key@.len() == KEY_LEN,
{
    Aes256Gcm::generate_key(OsRng).to_vec()
}

/// Calls `aes_gcm::Aes256Gcm::generate_nonce`.
///
/// Trusted: the length. The bytes are random.
#[verifier::external_body]
pub(crate) fn random_nonce() -> (nonce: Vec<u8>)
    ensures
        nonce@.len() == NONCE_LEN,
{
    Aes256Gcm::generate_nonce(&mut OsRng).to_vec()
}

/// Calls `String::from_utf8_lossy`.
///
/// Trusted: the text is a function of the bytes, and valid UTF-8 is read as
/// what it encodes.
#[verifier::external_body]
pub(crate) fn text_of(bytes: &[u8]) -> (text: String)
    ensures
        text@ == lossy_text(bytes@),
        valid_utf8(bytes@) ==> text@ == decode_utf8(bytes@),
{
    String::from_utf8_lossy(bytes).into_owned()
}

} // verus!
