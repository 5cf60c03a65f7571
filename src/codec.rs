//! URL-safe base64 text, as provided by the `base64` crate's `URL_SAFE` engine
//! (URL-safe alphabet, padded output, canonical padding on input).
use ::base64::Engine;
use vstd::prelude::*;

verus! {

/// A symbol of the URL-safe base64 alphabet: `A`-`Z`, `a`-`z`, `0`-`9`, `-`, `_`.
pub open spec fn is_url_safe_symbol(c: char) -> bool {
    ||| ('A' <= c && c <= 'Z')
    ||| ('a' <= c && c <= 'z')
    ||| ('0' <= c && c <= '9')
    ||| c == '-'
    ||| c == '_'
}

/// A character that may stand in encoded text: an alphabet symbol or the padding `=`.
pub open spec fn is_encoded_char(c: char) -> bool {
    is_url_safe_symbol(c) || c == '='
}

/// Text made of alphabet symbols and padding only.
pub open spec fn is_encoded_text(s: Seq<char>) -> bool {
    forall|i: int| 0 <= i < s.len() ==> is_encoded_char(#[trigger] s[i])
}

/// Encoding `n` bytes with padding takes `4 * ceil(n / 3)` characters; this
/// is the bound under which that count fits in a `usize`.
pub open spec fn encodable_len(n: nat) -> bool {
    n / 3 * 4 + 4 <= usize::MAX
}

/// The padded URL-safe base64 text of `b`.
pub uninterp spec fn url_safe_encoding(b: Seq<u8>) -> Seq<char>;

/// The bytes that the URL-safe engine decodes from `s`; `None` when it refuses `s`.
pub uninterp spec fn url_safe_decoding(s: Seq<char>) -> Option<Seq<u8>>;

#[verifier::external_type_specification]
#[verifier::external_body]
pub struct ExDecodeError(::base64::DecodeError);

/// Relies on `base64::engine::general_purpose::URL_SAFE.encode`: the padded
/// URL-safe text of `b`, made of alphabet symbols and `=` only, empty for no
/// bytes. It panics only where the output length overflows a `usize`.
#[verifier::external_body]
pub(crate) fn encode_url_safe(b: &[u8]) -> (r: String)
    requires
        encodable_len(b@.len()),
    ensures
        r@ == url_safe_encoding(b@),
        is_encoded_text(r@),
        b@.len() == 0 ==> r@.len() == 0,
{
    ::base64::engine::general_purpose::URL_SAFE.encode(b)
}

/// Relies on `base64::engine::general_purpose::URL_SAFE.decode`: it refuses
/// any text holding a character that is neither an alphabet symbol nor `=`
/// (`DecodeError::InvalidByte`), and gives back the bytes of any text that the
/// same engine encoded.
#[verifier::external_body]
pub(crate) fn decode_url_safe(s: &str) -> (r: Result<Vec<u8>, ::base64::DecodeError>)
    ensures
        r matches Ok(v) ==> url_safe_decoding(s@) == Some(v@),
        r is Err ==> url_safe_decoding(s@) is None,
        r is Ok ==> is_encoded_text(s@),
        r is Err ==> forall|b: Seq<u8>| #[trigger] url_safe_encoding(b) != s@,
        r matches Ok(v) ==> forall|b: Seq<u8>| #[trigger] url_safe_encoding(b) == s@ ==> v@ == b,
{
    ::base64::engine::general_purpose::URL_SAFE.decode(s)
}

} // verus!
