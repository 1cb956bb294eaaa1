use base64::engine::general_purpose::STANDARD;
use base64::Engine;
use vstd::prelude::*;

use crate::text::{
    append_bytes, lemma_split_first_join, lemma_split_first_parts, split_first, split_once,
};

verus! {

/// The byte that parts a nonce from its ciphertext in a blob.
pub const BLOB_SEPARATOR: u8 = 58;

/// The standard, padded base64 text of `data`, as the bytes of that text.
pub uninterp spec fn base64_text(data: Seq<u8>) -> Seq<u8>;

/// The bytes that the standard base64 decoder reads from `text`, or `None`
/// where it rejects `text`.
pub uninterp spec fn base64_data(text: Seq<u8>) -> Option<Seq<u8>>;

/// The symbols of the standard base64 alphabet, and the padding sign.
pub open spec fn is_base64_symbol(b: u8) -> bool {
    ||| 65 <= b <= 90
    ||| 97 <= b <= 122
    ||| 48 <= b <= 57
    ||| b == 43
    ||| b == 47
    ||| b == 61
}

/// All of `text` is base64 symbols.
pub open spec fn is_base64_alphabet(text: Seq<u8>) -> bool {
    forall|i: int| 0 <= i < text.len() ==> is_base64_symbol(#[trigger] text[i])
}

/// The length of the base64 text of so many bytes: four symbols for every
/// three bytes, the last group padded.
pub open spec fn base64_len(bytes: int) -> int {
    4 * ((bytes + 2) / 3)
}

/// `text` is what encoding `data` gives, and decoding it gives `data` back.
pub open spec fn is_base64_of(text: Seq<u8>, data: Seq<u8>) -> bool {
    &&& text == base64_text(data)
    &&& base64_data(text) == Some(data)
    &&& is_base64_alphabet(text)
    &&& text.len() == base64_len(data.len() as int)
}

/// Calls `base64::engine::general_purpose::STANDARD.encode`.
///
/// Trusted: the text is a function of the data alone, the decoder reads the
/// same data back from it, it is made of the letters, the digits, `+`, `/`
/// and `=` only, and it has four symbols for every three bytes begun.
#[verifier::external_body]
pub(crate) fn b64_encode(data: &[u8]) -> (text: Vec<u8>)
    ensures
        is_base64_of(text@, data@),
{
    STANDARD.encode(data).into_bytes()
}

/// Calls `base64::engine::general_purpose::STANDARD.decode`.
///
/// Trusted: whether the text is accepted, and the bytes read from it, are a
/// function of the text alone; and the decoder accepts canonical text only,
/// so encoding what it read gives the same text again.
#[verifier::external_body]
pub(crate) fn b64_decode(text: &[u8]) -> (data: Option<Vec<u8>>)
    ensures
        match data {
            Some(d) => base64_data(text@) == Some(d@) && base64_text(d@) == text@,
            None => base64_data(text@) is None,
        },
{
    STANDARD.decode(text).ok()
}

/// The blob that holds `nonce_text` and `sealed_text`: the two texts with a
/// colon between them.
pub open spec fn blob_of(nonce_text: Seq<u8>, sealed_text: Seq<u8>) -> Seq<u8> {
    nonce_text + seq![BLOB_SEPARATOR] + sealed_text
}

/// The nonce and the sealed bytes that a blob holds: the blob is cut at its
/// first colon and both parts are decoded from base64. `None` where it holds
/// no colon or a part is no base64 text.
pub open spec fn blob_parts(blob: Seq<u8>) -> Option<(Seq<u8>, Seq<u8>)> {
    match split_first(blob, BLOB_SEPARATOR) {
        Some((nonce_text, sealed_text)) => match (
            base64_data(nonce_text),
            base64_data(sealed_text),
        ) {
            (Some(nonce), Some(sealed)) => Some((nonce, sealed)),
            _ => None,
        },
        None => None,
    }
}

/// A blob made of the base64 texts of a nonce and of sealed bytes holds that
/// nonce and those bytes.
pub proof fn lemma_blob_round_trip(
    nonce: Seq<u8>,
    sealed: Seq<u8>,
    nonce_text: Seq<u8>,
    sealed_text: Seq<u8>,
)
    requires
        is_base64_alphabet(nonce_text),
        base64_data(nonce_text) == Some(nonce),
        base64_data(sealed_text) == Some(sealed),
    ensures
        blob_parts(blob_of(nonce_text, sealed_text)) == Some((nonce, sealed)),
{
    if nonce_text.contains(BLOB_SEPARATOR) {
        let j = choose|j: int| 0 <= j < nonce_text.len() && nonce_text[j] == BLOB_SEPARATOR;
        assert(is_base64_symbol(nonce_text[j]));
    }
    lemma_split_first_join(nonce_text, BLOB_SEPARATOR, sealed_text);
}

/// Writes a nonce and sealed bytes as one blob: `<base64 nonce>:<base64 sealed>`.
///
/// The only colon of the blob stands behind the nonce's text.
pub fn frame_blob(nonce: &[u8], sealed: &[u8]) -> (blob: Vec<u8>)
    ensures
        blob@ == blob_of(base64_text(nonce@), base64_text(sealed@)),
        blob_parts(blob@) == Some((nonce@, sealed@)),
        blob@.len() == base64_len(nonce@.len() as int) + 1 + base64_len(sealed@.len() as int),
        forall|i: int|
            0 <= i < blob@.len() ==> ((#[trigger] blob@[i]) == BLOB_SEPARATOR <==> i == base64_len(
                nonce@.len() as int,
            )),
{
    let mut blob = b64_encode(nonce);
    let sealed_text = b64_encode(sealed);
    proof {
        lemma_blob_round_trip(nonce@, sealed@, blob@, sealed_text@);
    }
    let ghost nonce_text = blob@;
    blob.push(BLOB_SEPARATOR);
    append_bytes(&mut blob, sealed_text.as_slice());
    proof {
        assert forall|i: int| 0 <= i < blob@.len() implies ((#[trigger] blob@[i]) == BLOB_SEPARATOR
            <==> i == nonce_text.len()) by {
            if i < nonce_text.len() {
                assert(blob@[i] == nonce_text[i]);
                assert(is_base64_symbol(nonce_text[i]));
            } else if i > nonce_text.len() {
                assert(blob@[i] == sealed_text@[i - nonce_text.len() - 1]);
                assert(is_base64_symbol(sealed_text@[i - nonce_text.len() - 1]));
            }
        }
    }
    blob
}

/// The blob is written as `frame_blob` writes the parts it holds: no other
/// text holds the same nonce and the same sealed bytes.
pub open spec fn is_framed(blob: Seq<u8>) -> bool {
    match blob_parts(blob) {
        Some((nonce, sealed)) => blob == blob_of(base64_text(nonce), base64_text(sealed)),
        None => false,
    }
}

/// Reads the nonce and the sealed bytes out of a blob.
///
/// A blob that is read is canonical: it is the one blob of its parts, so
/// that a blob changed in any byte holds other parts or is not read.
pub fn parse_blob(blob: &[u8]) -> (parts: Option<(Vec<u8>, Vec<u8>)>)
    ensures
        match parts {
            Some((nonce, sealed)) => blob_parts(blob@) == Some((nonce@, sealed@)) && is_framed(
                blob@,
            ),
            None => blob_parts(blob@) is None,
        },
{
    match split_once(blob, BLOB_SEPARATOR) {
        Some((nonce_text, sealed_text)) => {
            proof {
                lemma_split_first_parts(blob@, BLOB_SEPARATOR, nonce_text@, sealed_text@);
            }
            match b64_decode(sealed_text) {
                Some(sealed) => match b64_decode(nonce_text) {
                    Some(nonce) => Some((nonce, sealed)),
                    None => None,
                },
                None => None,
            }
        },
        None => None,
    }
}

} // verus!
