//! Groups: the one framing that is left to `prost`.
//!
//! No record of this format holds a group, so one can only stand in a field
//! that a record does not know. Such a field is passed over, and where a
//! group starts is where `prost` says how far it goes.
use vstd::prelude::*;

verus! {

/// How many bytes of `bytes` are left behind the group with tag `tag` whose
/// start marker has just been read, as `prost::encoding::skip_field` finds
/// it with a fresh decode context; `None` where it fails. Nothing is stated
/// of its value but that it depends on the tag and the bytes alone.
pub uninterp spec fn left_behind_group(tag: u32, bytes: Seq<u8>) -> Option<usize>;

/// Calls `prost::encoding::skip_field` for a start-group marker with tag
/// `tag`, on `bytes` as the buffer and a default `DecodeContext`, and hands
/// back the length of what the call left of the buffer, or `None` for its
/// error. Believed, not proved: that length is no more than the buffer's, as
/// the call only ever advances the buffer.
#[verifier::external_body]
pub(crate) fn skip_group(tag: u32, bytes: &[u8]) -> (left: Option<usize>)
    ensures
        left == left_behind_group(tag, bytes@),
        left matches Some(n) ==> n <= bytes@.len(),
{
    let mut rest: &[u8] = bytes;
    match prost::encoding::skip_field(
        prost::encoding::WireType::StartGroup,
        tag,
        &mut rest,
        prost::encoding::DecodeContext::default(),
    ) {
        Ok(()) => Some(rest.len()),
        Err(_) => None,
    }
}

} // verus!
