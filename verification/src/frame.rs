//! What comes in over the wire, and what a client is shown the door for.

use crate::protocol::payloads;
use crate::protocol::payloads::{Kick, KickView};
use vstd::prelude::*;

verus! {

/// What came in over the wire, with payloads of the type `M`.
pub enum Frame<M> {
    /// A text that is a payload.
    Payload(M),
    /// A text that is none.
    Garbled,
    /// The client closes the connection.
    Close,
    /// Something that is no text.
    Binary,
    /// Something that asks for nothing.
    Other,
}

/// The kick for a payload that makes no sense where it comes.
pub open spec fn bad_payload() -> KickView {
    payloads::violation("bad_payload"@, "Invalid payload"@)
}

/// The kick for a text that is no payload.
pub open spec fn bad_json() -> KickView {
    payloads::violation("bad_json"@, "JSON parse error"@)
}

/// The kick for something that is no text.
pub open spec fn binary_unsupported() -> KickView {
    payloads::violation("binary_unsupported"@, "Binary messages not supported"@)
}

pub(crate) fn kick_for_payload() -> (k: Kick)
    ensures
        k@ == bad_payload(),
{
    Kick::violation("bad_payload", "Invalid payload")
}

pub(crate) fn kick_for_json() -> (k: Kick)
    ensures
        k@ == bad_json(),
{
    Kick::violation("bad_json", "JSON parse error")
}

pub(crate) fn kick_for_binary() -> (k: Kick)
    ensures
        k@ == binary_unsupported(),
{
    Kick::violation("binary_unsupported", "Binary messages not supported")
}

} // verus!
