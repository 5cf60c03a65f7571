//! The binary-sequence adaptor: a sequence of plain elements travels as the
//! URL-safe base64 text of its byte view, whatever the format.
use crate::codec::{
    decode_url_safe, encodable_len, encode_url_safe, is_encoded_char, is_encoded_text,
    url_safe_decoding, url_safe_encoding,
};
use crate::error::ReprError;
use crate::plain::{
    byte_view, bytes_of, elements_of, lemma_elements_of_bytes_of, read_elements, Plain,
};
use vstd::prelude::*;

verus! {

/// The view of an optional byte vector.
pub open spec fn opt_bytes(d: Option<Vec<u8>>) -> Option<Seq<u8>> {
    match d {
        Some(v) => Some(v@),
        None => None,
    }
}

/// What reading `text` back as elements gives, where the base64 engine
/// decoded it to `decoded` (`None`: it refused the text).
pub open spec fn elements_outcome<U: Plain>(
    r: Result<Vec<U>, ReprError>,
    text: Seq<char>,
    decoded: Option<Seq<u8>>,
) -> bool {
    match decoded {
        None => r matches Err(ReprError::MalformedText(t)) && t@ == text,
        Some(b) => if b.len() % U::width() == 0 {
            r matches Ok(v) && v@ == elements_of::<U>(b)
        } else {
            r matches Err(ReprError::LengthMismatch { len, width }) && len == b.len() && width
                == U::width()
        },
    }
}

/// The text that carries the elements `v`.
pub open spec fn encoded_elements<U: Plain>(v: Seq<U>) -> Seq<char> {
    url_safe_encoding(bytes_of(v))
}

/// Elements of `U` can be carried when the text of their bytes fits in memory.
pub open spec fn can_encode<U: Plain>(n: nat) -> bool {
    encodable_len(n * U::width())
}

/// Whenever the engine gives back the bytes of `v`, the elements read are `v`
/// again: a byte count that is a multiple of the width, nothing truncated or padded.
pub proof fn lemma_elements_round_trip<U: Plain>(
    v: Seq<U>,
    text: Seq<char>,
    r: Result<Vec<U>, ReprError>,
)
    requires
        elements_outcome(r, text, Some(bytes_of(v))),
    ensures
        r matches Ok(w) && w@ == v,
{
    lemma_elements_of_bytes_of(v);
}

/// Decoded bytes whose count is not a multiple of the element width are
/// refused with the count and the width, never read as elements.
pub proof fn lemma_length_mismatch_rejected<U: Plain>(
    b: Seq<u8>,
    text: Seq<char>,
    r: Result<Vec<U>, ReprError>,
)
    requires
        elements_outcome(r, text, Some(b)),
        b.len() % U::width() != 0,
    ensures
        r matches Err(ReprError::LengthMismatch { len, width }) && len == b.len() && width
            == U::width(),
{
}

/// Writes `item` as the URL-safe base64 text of its bytes.
pub fn serialize<U: Plain>(item: &[U]) -> (r: String)
    requires
        can_encode::<U>(item@.len()),
    ensures
        r@ == encoded_elements(item@),
        is_encoded_text(r@),
        item@.len() == 0 ==> r@.len() == 0,
{
    proof {
        U::lemma_bytes_bijective(arbitrary(), Seq::empty());
        assert(item@.len() * U::width() <= usize::MAX);
    }
    let bytes = byte_view(item);
    encode_url_safe(bytes.as_slice())
}

/// Reads elements back from `text`, given what the base64 engine decoded
/// from it.
pub fn elements_from_decoded<U: Plain>(text: &str, decoded: Option<Vec<u8>>) -> (r: Result<
    Vec<U>,
    ReprError,
>)
    ensures
        elements_outcome(r, text@, opt_bytes(decoded)),
{
    match decoded {
        None => Err(ReprError::MalformedText(text.to_owned())),
        Some(bytes) => {
            match read_elements::<U>(bytes.as_slice()) {
                Some(v) => Ok(v),
                None => Err(
                    ReprError::LengthMismatch { len: bytes.len(), width: U::width_exec() },
                ),
            }
        },
    }
}

/// Reads a sequence of elements back from URL-safe base64 text. Text that
/// `serialize` wrote gives back exactly the elements it was written from.
pub fn deserialize<U: Plain>(text: &str) -> (r: Result<Vec<U>, ReprError>)
    ensures
        elements_outcome(r, text@, url_safe_decoding(text@)),
        (exists|i: int| 0 <= i < text@.len() && !is_encoded_char(#[trigger] text@[i])) ==> (
        r matches Err(ReprError::MalformedText(t)) && t@ == text@),
        forall|v: Seq<U>|
            #[trigger] encoded_elements(v) == text@ ==> (r matches Ok(w) && w@ == v),
{
    let decoded = match decode_url_safe(text) {
        Ok(bytes) => Some(bytes),
        Err(_) => None,
    };
    let r = elements_from_decoded::<U>(text, decoded);
    proof {
        assert forall|v: Seq<U>| #[trigger] encoded_elements(v) == text@ implies (r matches Ok(
            w,
        ) && w@ == v) by {
            lemma_elements_of_bytes_of(v);
            assert(url_safe_encoding(bytes_of(v)) == text@);
        }
    }
    r
}

} // verus!
