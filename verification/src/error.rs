use vstd::prelude::*;

verus! {

/// Every way in which an operation of the vault can fail.
///
/// The library never prints and never exits: each operation hands one of
/// these back, and the caller decides how to present it.
#[derive(Debug, Clone, Copy, PartialEq, Eq, Structural)]
pub enum VaultError {
    /// The key derivation function refused its input or ran out of resources.
    Kdf,
    /// The stored password hash is not a well-formed hash string.
    HashParse,
    /// The passphrase does not match the one the vault was created with.
    Authentication,
    /// A vault already exists where a new one was to be created.
    VaultExists,
    /// No vault exists where one was to be unlocked.
    VaultAbsent,
    /// The keyfile does not decode to a salt, a hash and a wrapped key.
    KeyfileCorrupt,
    /// The plaintext is longer than the cipher can seal.
    Encrypt,
    /// A blob is malformed or fails authentication.
    Decrypt,
    /// No record has the requested id.
    NotFound,
    /// A record with the same id is already stored.
    DuplicateId,
    /// The file to import is not of a supported format.
    UnsupportedFormat,
    /// The backing store or the file system reported a failure.
    Io,
}

impl VaultError {
    /// A short description, fit for showing to the user.
    pub fn message(&self) -> (text: &'static str)
        ensures
            text@ == self.spec_message(),
    {
        match self {
            VaultError::Kdf => "Error deriving password",
            VaultError::HashParse => "Invalid password hash",
            VaultError::Authentication => "Authentication Failed -> Wrong password.",
            VaultError::VaultExists => "A vault already exists",
            VaultError::VaultAbsent =>
                "Keyfile not found -> Use 'candado vault init' to initialize a new vault.",
            VaultError::KeyfileCorrupt => "Keyfile is corrupt",
            VaultError::Encrypt => "Failed to encrypt data",
            VaultError::Decrypt => "Failed to decrypt data",
            VaultError::NotFound => "Entry not found",
            VaultError::DuplicateId => "An entry with this id already exists",
            VaultError::UnsupportedFormat => "File not supported",
            VaultError::Io => "Storage failure",
        }
    }

    /// The text that `message` returns for each error.
    pub open spec fn spec_message(&self) -> Seq<char> {
        match self {
            VaultError::Kdf => "Error deriving password"@,
            VaultError::HashParse => "Invalid password hash"@,
            VaultError::Authentication => "Authentication Failed -> Wrong password."@,
            VaultError::VaultExists => "A vault already exists"@,
            VaultError::VaultAbsent =>
                "Keyfile not found -> Use 'candado vault init' to initialize a new vault."@,
            VaultError::KeyfileCorrupt => "Keyfile is corrupt"@,
            VaultError::Encrypt => "Failed to encrypt data"@,
            VaultError::Decrypt => "Failed to decrypt data"@,
            VaultError::NotFound => "Entry not found"@,
            VaultError::DuplicateId => "An entry with this id already exists"@,
            VaultError::UnsupportedFormat => "File not supported"@,
            VaultError::Io => "Storage failure"@,
        }
    }
}

} // verus!
