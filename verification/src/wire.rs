//! Sizes of encoded payloads, measured by the `bincode` crate.

use crate::text_list::{opt_text, texts};
use vstd::prelude::*;
use vstd::utf8::encode_utf8;

verus! {

/// The encoded size of a text: eight bytes of length, then its UTF-8 bytes.
pub open spec fn text_size(s: Seq<char>) -> nat {
    8 + encode_utf8(s).len()
}

/// The encoded size of an optional text: a byte that says whether it is there, then the text.
pub open spec fn opt_text_size(s: Option<Seq<char>>) -> nat {
    match s {
        Some(t) => 1 + text_size(t),
        None => 1,
    }
}

/// The encoded size of texts, one after the other.
pub open spec fn texts_size(l: Seq<Seq<char>>) -> nat
    decreases l.len(),
{
    if l.len() == 0 {
        0
    } else {
        texts_size(l.drop_last()) + text_size(l.last())
    }
}

/// `bincode::serialized_size` of the fields of a snapshot entry, one after the other: a flag is
/// one byte, and a list is eight bytes of length before its items. Measuring fails only where a
/// value's own serialization does, which that of texts, flags and lists does not.
#[verifier::external_body]
pub(crate) fn entry_fields_size(
    identity: (&str, &str),
    notes: (&Option<String>, &Option<String>),
    flags: (bool, bool),
    created_at: &str,
    parent_id: &Option<String>,
    child_ids: &Vec<String>,
) -> (r: u64)
    ensures
        r == text_size(identity.0@) + text_size(identity.1@) + opt_text_size(opt_text(*notes.0))
            + opt_text_size(opt_text(*notes.1)) + 1 + text_size(created_at@) + 1 + opt_text_size(
            opt_text(*parent_id),
        ) + 8 + texts_size(texts(child_ids@)),
{
    let fields = (identity, notes, flags, created_at, parent_id, child_ids);
    bincode::serialized_size(&fields).unwrap()
}

/// `bincode::serialized_size` of an enum variant, numbered in four bytes, with a list without
/// items and an optional text. Measuring does not fail, as above.
#[verifier::external_body]
pub(crate) fn empty_page_size(variant: u32, next_cursor: &Option<String>) -> (r: u64)
    ensures
        r == 4 + 8 + opt_text_size(opt_text(*next_cursor)),
{
    bincode::serialized_size(&(variant, Vec::<String>::new(), next_cursor)).unwrap()
}

/// `bincode::serialized_size` of an enum variant, numbered in four bytes, with two texts, two
/// flags, another text and an optional text. Measuring does not fail, as above.
#[verifier::external_body]
pub(crate) fn summary_size(
    variant: u32,
    identity: (&str, &str),
    flags: (bool, bool),
    created_at: &str,
    next_cursor: &Option<String>,
) -> (r: u64)
    ensures
        r == 4 + text_size(identity.0@) + text_size(identity.1@) + 2 + text_size(created_at@)
            + opt_text_size(opt_text(*next_cursor)),
{
    bincode::serialized_size(&(variant, identity, flags, created_at, next_cursor)).unwrap()
}

} // verus!
