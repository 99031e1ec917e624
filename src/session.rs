//! What one open of the device has been given so far.
use vstd::prelude::*;
use crate::payload::PAYLOAD_LEN;

verus! {

/// The read cursor of one open session: how many bytes of the message it has been
/// handed. It is `0` while the session is fresh and the message's length once the
/// message has been delivered.
#[derive(Debug, PartialEq, Eq)]
pub struct SessionState {
    read_cursor: usize,
}

impl SessionState {
    #[verifier::type_invariant]
    spec fn inv(self) -> bool {
        self.read_cursor <= PAYLOAD_LEN
    }

    /// Bytes already delivered to this session.
    pub closed spec fn cursor(self) -> nat {
        self.read_cursor as nat
    }

    /// Nothing has been delivered yet.
    pub open spec fn is_fresh_spec(self) -> bool {
        self.cursor() == 0
    }

    /// The whole message has been delivered.
    pub open spec fn is_drained_spec(self) -> bool {
        self.cursor() >= PAYLOAD_LEN
    }

    /// A session to which nothing has been delivered.
    pub(crate) fn fresh() -> (r: Self)
        ensures
            r.cursor() == 0,
    {
        SessionState { read_cursor: 0 }
    }

    pub fn read_cursor(&self) -> (r: usize)
        ensures
            r == self.cursor(),
            r <= PAYLOAD_LEN,
    {
        proof {
            use_type_invariant(self);
        }
        self.read_cursor
    }

    pub fn is_drained(&self) -> (r: bool)
        ensures
            r == self.is_drained_spec(),
    {
        self.read_cursor >= PAYLOAD_LEN
    }

    /// Records that the whole message has been delivered.
    pub(crate) fn mark_drained(&mut self)
        ensures
            final(self).cursor() == PAYLOAD_LEN,
    {
        self.read_cursor = PAYLOAD_LEN;
    }
}

} // verus!
