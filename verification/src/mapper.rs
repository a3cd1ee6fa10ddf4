//! The mapping from input payloads to output payloads.
use crate::error::MappingError;
use vstd::prelude::*;

verus! {

/// The payload that stands for `payload` on the output topic.
pub open spec fn mapped(payload: Seq<char>) -> Seq<char> {
    "Mapped payload: "@ + payload
}

/// A mapper that accepts every payload and marks it as mapped.
pub struct DummyMapper {}

impl DummyMapper {
    /// Creates the mapper. This cannot fail.
    pub fn new() -> (r: Result<Self, MappingError>)
        ensures
            r is Ok,
    {
        Ok(DummyMapper {  })
    }

    /// Maps a payload. Every payload has a mapping.
    pub fn map(&self, payload: &String) -> (r: Result<Option<String>, MappingError>)
        ensures
            r matches Ok(Some(text)) && text@ == mapped(payload@),
    {
        Ok(Some("Mapped payload: ".to_owned().concat(payload.as_str())))
    }
}

/// Every mapped payload starts with the marker and ends with the payload that
/// it was made from.
pub proof fn mapped_keeps_payload(payload: Seq<char>)
    ensures
        "Mapped payload:"@.is_prefix_of(mapped(payload)),
        payload.is_suffix_of(mapped(payload)),
{
    reveal_strlit("Mapped payload:");
    reveal_strlit("Mapped payload: ");
    assert(mapped(payload).subrange(0, "Mapped payload:"@.len() as int) =~= "Mapped payload:"@);
    assert(mapped(payload).skip("Mapped payload: "@.len() as int) =~= payload);
}

/// A mapped payload is the marker, then the payload once, and nothing else.
pub proof fn mapped_is_marker_then_payload(payload: Seq<char>)
    ensures
        "Mapped payload: "@.len() == 16,
        mapped(payload).len() == 16 + payload.len(),
        mapped(payload).take(16) == "Mapped payload: "@,
        mapped(payload).skip(16) == payload,
{
    reveal_strlit("Mapped payload: ");
    assert(mapped(payload).take(16) =~= "Mapped payload: "@);
    assert(mapped(payload).skip(16) =~= payload);
}

/// Different payloads have different mappings.
pub proof fn mapped_tells_payloads_apart(a: Seq<char>, b: Seq<char>)
    requires
        mapped(a) == mapped(b),
    ensures
        a == b,
{
    mapped_is_marker_then_payload(a);
    mapped_is_marker_then_payload(b);
}

} // verus!
