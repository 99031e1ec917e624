//! The driver: opening sessions, answering reads, and its registration under a node name.
use vstd::prelude::*;
use crate::buffer::{IoError, UserBuffer};
use crate::payload::{lemma_payload_len, payload_bytes, PAYLOAD, PAYLOAD_LEN};
use crate::registry::{bytes_to_vec, NodeRegistry, RegistrationError};
use crate::session::SessionState;
use crate::shared::{increment_step, SharedState};

verus! {

/// A session could not be allocated.
#[derive(Debug, Clone, Copy, PartialEq, Eq)]
pub struct AllocationError;

/// One open: the counter goes from `pre` to `post`, and `r` is what the open returned.
pub open spec fn open_step(pre: SharedState, post: SharedState, r: Result<SessionState, AllocationError>) -> bool {
    &&& post.count() == pre.count() + 1
    &&& r matches Ok(s) && s.is_fresh_spec()
}

/// One read: `session` and `data` go from `s0` and `d0` to `s1` and `d1`, and `r` is what
/// the read returned.
pub open spec fn read_step(
    s0: SessionState,
    d0: UserBuffer,
    s1: SessionState,
    d1: UserBuffer,
    r: Result<usize, IoError>,
) -> bool {
    if s0.is_drained_spec() || d0.room() < PAYLOAD_LEN {
        r == Ok::<usize, IoError>(0) && s1 == s0 && d1 == d0
    } else if d0.writable() {
        &&& r == Ok::<usize, IoError>(PAYLOAD_LEN)
        &&& s1.cursor() == PAYLOAD_LEN
        &&& d1.contents() == d0.contents() + payload_bytes()
        &&& d1.room() == d0.room() - PAYLOAD_LEN
        &&& d1.writable()
    } else {
        r == Err::<usize, IoError>(IoError) && s1 == s0 && d1 == d0
    }
}

/// The operations that the device framework calls, and the state of one registered node.
pub struct DeviceDriver {
    shared: SharedState,
    node_name: Vec<u8>,
}

impl DeviceDriver {
    /// The number of opens so far.
    pub closed spec fn count(&self) -> nat {
        self.shared.count()
    }

    /// The name the node is registered under.
    pub closed spec fn name(&self) -> Seq<u8> {
        self.node_name@
    }

    /// Registers a node called `node_name` in `registry` and returns its driver, whose
    /// counter has seen no open. It fails, leaving `registry` as it was, when the name
    /// is in use or the registry is full.
    pub fn initialize(registry: &mut NodeRegistry, node_name: &[u8]) -> (r: Result<DeviceDriver, RegistrationError>)
        requires
            old(registry).wf(),
        ensures
            final(registry).wf(),
            final(registry).limit() == old(registry).limit(),
            old(registry).has(node_name@) ==> r == Err::<DeviceDriver, RegistrationError>(
                RegistrationError::NameInUse,
            ),
            !old(registry).has(node_name@) && old(registry).names().len() >= old(registry).limit() ==> r
                == Err::<DeviceDriver, RegistrationError>(RegistrationError::Rejected),
            r is Ok <==> !old(registry).has(node_name@) && old(registry).names().len() < old(registry).limit(),
            r matches Ok(d) ==> d.count() == 0 && d.name() == node_name@ && final(registry).names()
                == old(registry).names().push(node_name@),
            r is Err ==> final(registry).names() == old(registry).names(),
    {
        match registry.register(node_name) {
            Ok(()) => {
                let name = bytes_to_vec(node_name);
                Ok(DeviceDriver { shared: SharedState::new(), node_name: name })
            },
            Err(e) => Err(e),
        }
    }

    /// Takes the node down: its name is released in `registry`, the others stay.
    pub fn teardown(self, registry: &mut NodeRegistry)
        requires
            old(registry).wf(),
        ensures
            final(registry).wf(),
            final(registry).limit() == old(registry).limit(),
            forall|n: Seq<u8>| #[trigger] final(registry).has(n) <==> (old(registry).has(n) && n != self.name()),
    {
        registry.deregister(self.node_name.as_slice());
    }

    /// The number of opens so far.
    pub fn open_count(&self) -> (r: u64)
        ensures
            r == self.count(),
    {
        self.shared.open_count()
    }

    /// The name the node is registered under.
    pub fn node_name(&self) -> (r: &[u8])
        ensures
            r@ == self.name(),
    {
        self.node_name.as_slice()
    }

    /// Opens a session on this node.
    pub fn open_session(&mut self) -> (r: Result<SessionState, AllocationError>)
        requires
            old(self).count() < u64::MAX,
        ensures
            final(self).name() == old(self).name(),
            r matches Ok(s) && s.is_fresh_spec(),
            final(self).count() == old(self).count() + 1,
    {
        Self::open(&mut self.shared)
    }

    /// Opens a session: counts the open on `shared` and hands back a fresh session.
    pub fn open(shared: &mut SharedState) -> (r: Result<SessionState, AllocationError>)
        requires
            old(shared).count() < u64::MAX,
        ensures
            open_step(*old(shared), *final(shared), r),
    {
        let n = shared.increment_and_get();
        assert(increment_step(*old(shared), *shared, n));
        Ok(SessionState::fresh())
    }

    /// Answers a read on `session` into `data`; `offset` is ignored, every session
    /// reads from the start of the message.
    ///
    /// A drained session, or a buffer with less room than the whole message, gets
    /// `Ok(0)` and nothing changes. Otherwise the whole message is written and the
    /// session is drained; if that write fails, the error is returned and nothing
    /// changes, so a later read may try again.
    pub fn read(session: &mut SessionState, data: &mut UserBuffer, offset: u64) -> (r: Result<usize, IoError>)
        ensures
            read_step(*old(session), *old(data), *final(session), *final(data), r),
    {
        proof {
            lemma_payload_len();
        }
        if session.is_drained() {
            return Ok(0);
        }
        if data.len() < PAYLOAD_LEN {
            return Ok(0);
        }
        match data.write_slice(&PAYLOAD) {
            Ok(()) => {
                session.mark_drained();
                Ok(PAYLOAD_LEN)
            },
            Err(e) => Err(e),
        }
    }
}

} // verus!
