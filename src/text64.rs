//! Standard base64 (RFC 4648 alphabet, with padding) for moving bytes
//! through a text channel.
use vstd::prelude::*;
use base64::Engine;

verus! {

/// base64's error for text that is not valid base64.
#[verifier::external_type_specification]
#[verifier::external_body]
pub struct ExBase64DecodeError(base64::DecodeError);

/// The standard base64 text of `bytes`.
pub uninterp spec fn base64_text_of(bytes: Seq<u8>) -> Seq<char>;

/// The bytes that a standard base64 text stands for; `None` for text that
/// is not canonical padded base64.
pub uninterp spec fn base64_bytes_of(text: Seq<char>) -> Option<Seq<u8>>;

/// Largest input whose encoding still has a length that fits in `usize`.
pub open spec fn encodable_len(n: nat) -> bool {
    n <= usize::MAX / 4 * 3
}

/// Relies on base64's `STANDARD.encode`, which panics only when the length
/// of the text would overflow `usize`. With padding, every started group of
/// three bytes gives four characters (`encoded_len`), all ASCII.
#[verifier::external_body]
fn encode_standard(bytes: &[u8]) -> (r: String)
    requires
        encodable_len(bytes@.len()),
    ensures
        r@ == base64_text_of(bytes@),
        r@.len() == 4 * ((bytes@.len() + 2) / 3),
{
    base64::engine::general_purpose::STANDARD.encode(bytes)
}

/// Relies on base64's `STANDARD.decode`.
#[verifier::external_body]
fn decode_standard(text: &str) -> (r: Result<Vec<u8>, base64::DecodeError>)
    ensures
        match r {
            Ok(b) => base64_bytes_of(text@) == Some(b@),
            Err(_) => base64_bytes_of(text@) is None,
        },
{
    base64::engine::general_purpose::STANDARD.decode(text)
}

/// Encodes bytes as standard base64 text.
pub fn bytes_to_base64(bytes: &[u8]) -> (r: String)
    requires
        encodable_len(bytes@.len()),
    ensures
        r@ == base64_text_of(bytes@),
        r@.len() == 4 * ((bytes@.len() + 2) / 3),
{
    encode_standard(bytes)
}

/// Decodes standard base64 text; the error describes what is wrong with it.
pub fn decode_base64(text: &str) -> (r: Result<Vec<u8>, String>)
    ensures
        match r {
            Ok(b) => base64_bytes_of(text@) == Some(b@),
            Err(_) => base64_bytes_of(text@) is None,
        },
{
    match decode_standard(text) {
        Ok(b) => Ok(b),
        Err(e) => Err(e.to_string()),
    }
}

} // verus!
