use vstd::prelude::*;

use crate::codec::{
    b64_decode, b64_encode, base64_data, base64_text, is_base64_alphabet, is_base64_symbol,
};
use crate::crypto::SPACE;
use crate::error::VaultError;
use crate::text::{
    append_bytes, lemma_split_first_join, lemma_split_first_parts, slice_to_owned, split_first,
    split_once,
};

verus! {

/// What a keyfile holds: the salt of the key derivation, the hash that
/// gates unlocking, and the data key, sealed.
#[derive(Debug, Clone)]
pub struct Keyfile {
    /// The salt, 16 bytes in a vault of this library.
    pub salt: Vec<u8>,
    /// The password hash string, as its bytes.
    pub hash: Vec<u8>,
    /// The blob that holds the sealed data key.
    pub wrapped_key: Vec<u8>,
}

/// The line that a keyfile encodes: three tokens with a space between them,
/// the salt in base64 first.
pub open spec fn keyfile_line(salt_text: Seq<u8>, hash: Seq<u8>, wrapped_key: Seq<u8>) -> Seq<u8> {
    salt_text + seq![SPACE] + (hash + seq![SPACE] + wrapped_key)
}

/// The content of the keyfile for a salt, a hash and a wrapped key: the
/// base64 text of their line.
pub open spec fn keyfile_content(salt: Seq<u8>, hash: Seq<u8>, wrapped_key: Seq<u8>) -> Seq<u8> {
    base64_text(keyfile_line(base64_text(salt), hash, wrapped_key))
}

/// The three tokens of a keyfile line: the line is cut at its first space,
/// and the rest at its first space again. `None` where it holds fewer than
/// two spaces.
pub open spec fn line_tokens(line: Seq<u8>) -> Option<(Seq<u8>, Seq<u8>, Seq<u8>)> {
    match split_first(line, SPACE) {
        Some((first, rest)) => match split_first(rest, SPACE) {
            Some((second, third)) => Some((first, second, third)),
            None => None,
        },
        None => None,
    }
}

/// The salt, hash and wrapped key that a keyfile's content decodes to, or
/// `None` where the content is corrupt: no base64, a line of fewer than
/// three tokens, or a salt that is no base64.
pub open spec fn keyfile_parts(content: Seq<u8>) -> Option<(Seq<u8>, Seq<u8>, Seq<u8>)> {
    match base64_data(content) {
        Some(line) => match line_tokens(line) {
            Some((salt_text, hash, wrapped_key)) => match base64_data(salt_text) {
                Some(salt) => Some((salt, hash, wrapped_key)),
                None => None,
            },
            None => None,
        },
        None => None,
    }
}

/// A line made of three tokens, the first two without a space, has these
/// three tokens.
pub proof fn lemma_line_tokens_join(first: Seq<u8>, second: Seq<u8>, third: Seq<u8>)
    requires
        !first.contains(SPACE),
        !second.contains(SPACE),
    ensures
        line_tokens(keyfile_line(first, second, third)) == Some((first, second, third)),
{
    lemma_split_first_join(first, SPACE, second + seq![SPACE] + third);
    lemma_split_first_join(second, SPACE, third);
}

/// The tokens of a line, joined by spaces, are the line.
pub proof fn lemma_line_tokens_parts(line: Seq<u8>, first: Seq<u8>, second: Seq<u8>, third: Seq<u8>)
    requires
        line_tokens(line) == Some((first, second, third)),
    ensures
        keyfile_line(first, second, third) == line,
{
    let cut = split_first(line, SPACE)->0;
    let rest = cut.1;
    lemma_split_first_parts(line, SPACE, first, rest);
    lemma_split_first_parts(rest, SPACE, second, third);
}

/// Base64 text holds no space.
pub proof fn lemma_base64_has_no_space(text: Seq<u8>)
    requires
        is_base64_alphabet(text),
    ensures
        !text.contains(SPACE),
{
    if text.contains(SPACE) {
        let j = choose|j: int| 0 <= j < text.len() && text[j] == SPACE;
        assert(is_base64_symbol(text[j]));
    }
}

impl Keyfile {
    /// The keyfile's content.
    ///
    /// Where the hash holds no space, as no hash string does, decoding the
    /// content gives the three parts back.
    pub fn encode(&self) -> (content: Vec<u8>)
        ensures
            content@ == keyfile_content(self.salt@, self.hash@, self.wrapped_key@),
            !self.hash@.contains(SPACE) ==> keyfile_parts(content@) == Some(
                (self.salt@, self.hash@, self.wrapped_key@),
            ),
    {
        let mut line = b64_encode(self.salt.as_slice());
        let ghost salt_text = line@;
        line.push(SPACE);
        append_bytes(&mut line, self.hash.as_slice());
        line.push(SPACE);
        append_bytes(&mut line, self.wrapped_key.as_slice());
        assert(line@ == keyfile_line(salt_text, self.hash@, self.wrapped_key@));
        proof {
            lemma_base64_has_no_space(salt_text);
            if !self.hash@.contains(SPACE) {
                lemma_line_tokens_join(salt_text, self.hash@, self.wrapped_key@);
            }
        }
        b64_encode(line.as_slice())
    }

    /// Reads a keyfile's content.
    ///
    /// A content that decodes is canonical: encoding the parts read from it
    /// gives the same content again.
    pub fn decode(content: &[u8]) -> (r: Result<Keyfile, VaultError>)
        ensures
            match r {
                Ok(k) => {
                    &&& keyfile_parts(content@) == Some((k.salt@, k.hash@, k.wrapped_key@))
                    &&& keyfile_content(k.salt@, k.hash@, k.wrapped_key@) == content@
                },
                Err(e) => e == VaultError::KeyfileCorrupt && keyfile_parts(content@) is None,
            },
    {
        let line = match b64_decode(content) {
            Some(line) => line,
            None => { return Err(VaultError::KeyfileCorrupt); },
        };
        let (salt_text, rest) = match split_once(line.as_slice(), SPACE) {
            Some(parts) => parts,
            None => { return Err(VaultError::KeyfileCorrupt); },
        };
        let (hash, wrapped_key) = match split_once(rest, SPACE) {
            Some(parts) => parts,
            None => { return Err(VaultError::KeyfileCorrupt); },
        };
        let salt = match b64_decode(salt_text) {
            Some(salt) => salt,
            None => { return Err(VaultError::KeyfileCorrupt); },
        };
        proof {
            lemma_line_tokens_parts(line@, salt_text@, hash@, wrapped_key@);
        }
        Ok(Keyfile { salt, hash: slice_to_owned(hash), wrapped_key: slice_to_owned(wrapped_key) })
    }
}

} // verus!
