//! The shared-store record and the timestamp encoding.
//!
//! The shared key/value store propagates a refresh between workers under
//! two keys: the commit timestamp and the raw blocked-list payload.  The
//! timestamp travels as JSON bytes; the payload travels as the fetched
//! text.  `StoreState` models the decoded pair a worker observes.
use vstd::prelude::*;

verus! {

/// The JSON byte encoding of a timestamp value.
pub uninterp spec fn ts_json(t: u64) -> Seq<u8>;

/// Relies on `serde_json::to_vec`: serialising a `u64` cannot fail and
/// depends on the value alone.
#[verifier::external_body]
fn encode_ts(t: u64) -> (r: Vec<u8>)
    ensures
        r@ == ts_json(t),
{
    serde_json::to_vec(&t).unwrap()
}

/// Relies on `serde_json::from_slice`: deserialising inverts
/// `serde_json::to_vec` on `u64`, and anything else yields an error.
#[verifier::external_body]
fn decode_ts(b: &[u8]) -> (r: Option<u64>)
    ensures
        forall|t: u64| b@ == ts_json(t) ==> r == Some(t),
{
    serde_json::from_slice::<u64>(b).ok()
}

/// The timestamp key's value as written by a committing worker.
pub fn encode_last_update(t: u64) -> (r: Vec<u8>)
    ensures
        r@ == ts_json(t),
{
    encode_ts(t)
}

/// The timestamp a worker reads from the store: `None` when the key is
/// absent, and the committed value when the bytes are a committed
/// timestamp.  Unreadable bytes are treated as an absent key.
pub fn read_last_update(bytes: Option<&Vec<u8>>) -> (r: Option<u64>)
    ensures
        bytes is None ==> r is None,
        forall|t: u64| (bytes matches Some(b) && b@ == ts_json(t)) ==> r == Some(t),
{
    match bytes {
        None => None,
        Some(b) => decode_ts(b.as_slice()),
    }
}

/// The decoded shared record a worker observes on one tick: the commit
/// timestamp and the blocked-list payload, each absent until the first
/// successful refresh anywhere.
pub struct StoreState {
    pub last_update: Option<u64>,
    pub data: Option<String>,
}

impl StoreState {
    /// A store no refresh has ever written to.
    pub fn new() -> (r: StoreState)
        ensures
            r.last_update is None,
            r.data is None,
    {
        StoreState { last_update: None, data: None }
    }

    pub open spec fn data_view(self) -> Option<Seq<char>> {
        match self.data {
            Some(d) => Some(d@),
            None => None,
        }
    }
}

} // verus!
