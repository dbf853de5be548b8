//! Note identifiers: the standard Base64 encoding of a note's relative
//! path, taken as UTF-8 bytes.
use vstd::prelude::*;
use vstd::utf8::{decode_utf8, encode_utf8, valid_utf8};
use base64::Engine;
use crate::errors::NoteError;

verus! {

#[verifier::external_type_specification]
#[verifier::external_body]
pub struct ExDecodeError(base64::DecodeError);

/// The standard Base64 text (with padding) of a byte string.
pub uninterp spec fn base64_of(b: Seq<u8>) -> Seq<char>;

/// The bytes that a standard Base64 text decodes to, if it is well formed.
pub uninterp spec fn base64_decoded(s: Seq<char>) -> Option<Seq<u8>>;

/// Relies on `base64::engine::general_purpose::STANDARD.encode`: the
/// padded standard encoding, which its `decode` turns back into the bytes.
#[verifier::external_body]
fn base64_encode(b: &[u8]) -> (r: String)
    requires
        b@.len() <= usize::MAX / 2,
    ensures
        r@ == base64_of(b@),
        base64_decoded(r@) == Some(b@),
{
    base64::engine::general_purpose::STANDARD.encode(b)
}

/// Relies on `base64::engine::general_purpose::STANDARD.decode`: the bytes
/// of a well-formed padded standard encoding, an error otherwise.
#[verifier::external_body]
fn base64_decode(s: &str) -> (r: Result<Vec<u8>, base64::DecodeError>)
    ensures
        r is Ok <==> base64_decoded(s@) is Some,
        r matches Ok(b) ==> Some(b@) == base64_decoded(s@),
{
    base64::engine::general_purpose::STANDARD.decode(s)
}

/// Relies on `String::from_utf8`: the text of valid UTF-8 bytes, an error
/// otherwise.
#[verifier::external_body]
fn utf8_string(b: Vec<u8>) -> (r: Option<String>)
    ensures
        r is Some <==> valid_utf8(b@),
        r matches Some(s) ==> s@ == decode_utf8(b@),
{
    String::from_utf8(b).ok()
}

/// The identifier of the note at a relative path.
pub open spec fn id_of(path: Seq<char>) -> Seq<char> {
    base64_of(encode_utf8(path))
}

/// The relative path that an identifier names, if it is well formed.
pub open spec fn path_of_id(id: Seq<char>) -> Option<Seq<char>> {
    match base64_decoded(id) {
        Some(b) => if valid_utf8(b) {
            Some(decode_utf8(b))
        } else {
            None
        },
        None => None,
    }
}

/// Returns the identifier of the note at `rel_path`; decoding it gives
/// `rel_path` back.
pub fn encode_id(rel_path: &str) -> (r: String)
    requires
        encode_utf8(rel_path@).len() <= usize::MAX / 2,
    ensures
        r@ == id_of(rel_path@),
        path_of_id(r@) == Some(rel_path@),
{
    let bytes = rel_path.as_bytes();
    let r = base64_encode(bytes);
    proof {
        vstd::utf8::encode_utf8_valid_utf8(rel_path@);
        vstd::utf8::encode_utf8_decode_utf8(rel_path@);
    }
    r
}

/// Returns the relative path that `id` names, or `InvalidInput` where it is
/// not Base64 of UTF-8 text.
pub fn decode_id(id: &str) -> (r: Result<String, NoteError>)
    ensures
        r is Ok <==> path_of_id(id@) is Some,
        r matches Ok(p) ==> path_of_id(id@) == Some(p@),
        r matches Err(e) ==> e == NoteError::InvalidInput,
{
    match base64_decode(id) {
        Ok(bytes) => match utf8_string(bytes) {
            Some(p) => Ok(p),
            None => Err(NoteError::InvalidInput),
        },
        Err(_) => Err(NoteError::InvalidInput),
    }
}

} // verus!
