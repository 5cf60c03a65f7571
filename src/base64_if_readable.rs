//! The readability-aware adaptor: base64 text in human-readable formats, the
//! value's own native form in binary formats.
use crate::base64::{can_encode, elements_outcome, encoded_elements};
use crate::codec::{is_encoded_char, is_encoded_text, url_safe_decoding};
use crate::error::ReprError;
use crate::plain::Plain;
use vstd::prelude::*;

verus! {

/// What a field becomes: base64 text, or the elements themselves, left to
/// the format's own encoding.
pub enum Portable<U> {
    Text(String),
    Native(Vec<U>),
}

/// A copy of `item`.
fn copy_elements<U: Plain>(item: &[U]) -> (r: Vec<U>)
    ensures
        r@ == item@,
{
    let mut out: Vec<U> = Vec::new();
    let mut i: usize = 0;
    while i < item.len()
        invariant
            i <= item@.len(),
            out@ == item@.subrange(0, i as int),
        decreases item@.len() - i,
    {
        out.push(item[i]);
        assert(out@ =~= item@.subrange(0, i + 1));
        i = i + 1;
    }
    assert(item@.subrange(0, item@.len() as int) =~= item@);
    out
}

/// Writes `item` as base64 text when the format is human-readable, and as
/// itself otherwise.
pub fn serialize<U: Plain>(item: &[U], human_readable: bool) -> (r: Portable<U>)
    requires
        human_readable ==> can_encode::<U>(item@.len()),
    ensures
        human_readable ==> (r matches Portable::Text(s) && s@ == encoded_elements(item@)
            && is_encoded_text(s@)),
        !human_readable ==> (r matches Portable::Native(v) && v@ == item@),
{
    if human_readable {
        Portable::Text(crate::base64::serialize(item))
    } else {
        Portable::Native(copy_elements(item))
    }
}

/// Reads elements back from what `serialize` wrote: text is decoded as
/// base64, a native value is taken as it is. Either way the elements that
/// were written come back.
pub fn deserialize<U: Plain>(field: Portable<U>) -> (r: Result<Vec<U>, ReprError>)
    ensures
        field matches Portable::Text(s) ==> elements_outcome(r, s@, url_safe_decoding(s@)),
        field matches Portable::Text(s) ==> ((exists|i: int|
            0 <= i < s@.len() && !is_encoded_char(#[trigger] s@[i])) ==> (r matches Err(
            ReprError::MalformedText(t)) && t@ == s@)),
        field matches Portable::Text(s) ==> forall|v: Seq<U>| #[trigger] encoded_elements(v)
            == s@ ==> (r matches Ok(w) && w@ == v),
        field matches Portable::Native(v) ==> (r matches Ok(w) && w@ == v@),
{
    match field {
        Portable::Text(s) => crate::base64::deserialize(s.as_str()),
        Portable::Native(v) => Ok(v),
    }
}

} // verus!
