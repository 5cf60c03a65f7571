//! The string adaptor: a string travels as the URL-safe base64 text of its
//! UTF-8 bytes.
use crate::base64::opt_bytes;
use crate::codec::{
    decode_url_safe, encodable_len, encode_url_safe, is_encoded_char, is_encoded_text,
    url_safe_decoding, url_safe_encoding,
};
use crate::error::ReprError;
use vstd::prelude::*;
use vstd::utf8::{
    decode_utf8, encode_utf8, encode_utf8_decode_utf8, encode_utf8_valid_utf8, valid_utf8,
};

verus! {

/// Relies on `String::from_utf8`: it accepts exactly the valid UTF-8 byte
/// strings, and the string it builds has those bytes.
#[verifier::external_body]
fn string_from_utf8(b: Vec<u8>) -> (r: Option<String>)
    ensures
        r is Some <==> valid_utf8(b@),
        r matches Some(s) ==> encode_utf8(s@) == b@,
{
    String::from_utf8(b).ok()
}

/// What reading `text` back as a string gives, where the base64 engine
/// decoded it to `decoded` (`None`: it refused the text).
pub open spec fn string_outcome(
    r: Result<String, ReprError>,
    text: Seq<char>,
    decoded: Option<Seq<u8>>,
) -> bool {
    match decoded {
        None => r matches Err(ReprError::MalformedText(t)) && t@ == text,
        Some(b) => if valid_utf8(b) {
            r matches Ok(s) && s@ == decode_utf8(b)
        } else {
            r matches Err(ReprError::InvalidUtf8)
        },
    }
}

/// The text that carries the string `s`.
pub open spec fn encoded_string(s: Seq<char>) -> Seq<char> {
    url_safe_encoding(encode_utf8(s))
}

/// Whenever the engine gives back the UTF-8 bytes of `s`, the string read is
/// `s` again.
pub proof fn lemma_string_round_trip(s: Seq<char>, text: Seq<char>, r: Result<String, ReprError>)
    requires
        string_outcome(r, text, Some(encode_utf8(s))),
    ensures
        r matches Ok(t) && t@ == s,
{
    encode_utf8_decode_utf8(s);
    encode_utf8_valid_utf8(s);
}

/// Writes `item` as the URL-safe base64 text of its UTF-8 bytes.
pub fn serialize(item: &str) -> (r: String)
    requires
        encodable_len(encode_utf8(item@).len()),
    ensures
        r@ == encoded_string(item@),
        is_encoded_text(r@),
        item@.len() == 0 ==> r@.len() == 0,
{
    encode_url_safe(item.as_bytes())
}

/// Reads a string back, given what the base64 engine decoded from `text`.
pub fn string_from_decoded(text: &str, decoded: Option<Vec<u8>>) -> (r: Result<String, ReprError>)
    ensures
        string_outcome(r, text@, opt_bytes(decoded)),
{
    match decoded {
        None => Err(ReprError::MalformedText(text.to_owned())),
        Some(bytes) => {
            match string_from_utf8(bytes) {
                Some(s) => {
                    proof {
                        encode_utf8_decode_utf8(s@);
                    }
                    Ok(s)
                },
                None => Err(ReprError::InvalidUtf8),
            }
        },
    }
}

/// Reads a string back from URL-safe base64 text. Text that `serialize`
/// wrote gives back exactly the string it was written from.
pub fn deserialize(text: &str) -> (r: Result<String, ReprError>)
    ensures
        string_outcome(r, text@, url_safe_decoding(text@)),
        (exists|i: int| 0 <= i < text@.len() && !is_encoded_char(#[trigger] text@[i])) ==> (
        r matches Err(ReprError::MalformedText(t)) && t@ == text@),
        forall|s: Seq<char>| #[trigger] encoded_string(s) == text@ ==> (r matches Ok(t) && t@ == s),
{
    let decoded = match decode_url_safe(text) {
        Ok(bytes) => Some(bytes),
        Err(_) => None,
    };
    let r = string_from_decoded(text, decoded);
    proof {
        assert forall|s: Seq<char>| #[trigger] encoded_string(s) == text@ implies (r matches Ok(t)
            && t@ == s) by {
            encode_utf8_decode_utf8(s);
            encode_utf8_valid_utf8(s);
            assert(url_safe_encoding(encode_utf8(s)) == text@);
        }
    }
    r
}

} // verus!
