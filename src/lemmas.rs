//! What holds over several calls on sessions.
use vstd::prelude::*;
use crate::buffer::{IoError, UserBuffer};
use crate::driver::{open_step, read_step, AllocationError};
use crate::payload::{payload_bytes, PAYLOAD_LEN};
use crate::session::SessionState;
use crate::shared::SharedState;

verus! {

/// A fresh session is read once: its first read into a writable buffer with room for
/// the whole message returns the message's length and writes exactly the message;
/// every later read on it, whatever the buffer, returns `0` and writes nothing.
///
/// `sessions[i]` and `before[i]` are the session and the buffer before the `i`-th read,
/// `sessions[i + 1]` and `after[i]` after it, and `results[i]` is what it returned.
pub proof fn lemma_payload_delivered_once(
    sessions: Seq<SessionState>,
    before: Seq<UserBuffer>,
    after: Seq<UserBuffer>,
    results: Seq<Result<usize, IoError>>,
)
    requires
        results.len() >= 1,
        sessions.len() == results.len() + 1,
        before.len() == results.len(),
        after.len() == results.len(),
        sessions[0].is_fresh_spec(),
        before[0].room() >= PAYLOAD_LEN,
        before[0].writable(),
        forall|i: int|
            #![trigger after[i]]
            0 <= i < results.len() ==> read_step(sessions[i], before[i], sessions[i + 1], after[i], results[i]),
    ensures
        results[0] == Ok::<usize, IoError>(PAYLOAD_LEN),
        after[0].contents() == before[0].contents() + payload_bytes(),
        forall|i: int|
            1 <= i < results.len() ==> #[trigger] results[i] == Ok::<usize, IoError>(0) && after[i] == before[i]
                && sessions[i + 1] == sessions[1],
    decreases results.len(),
{
    assert(read_step(sessions[0], before[0], sessions[1], after[0], results[0]));
    if results.len() > 1 {
        let n = results.len() - 1;
        let sessions0 = sessions.drop_last();
        let before0 = before.drop_last();
        let after0 = after.drop_last();
        let results0 = results.drop_last();
        assert forall|i: int| #![trigger after0[i]] 0 <= i < results0.len() implies read_step(
            sessions0[i],
            before0[i],
            sessions0[i + 1],
            after0[i],
            results0[i],
        ) by {
            assert(after[i] == after[i]);
        }
        lemma_payload_delivered_once(sessions0, before0, after0, results0);
        assert(sessions[1].is_drained_spec());
        assert(sessions[n] == sessions[1]) by {
            if n > 1 {
                assert(results0[n - 1] == Ok::<usize, IoError>(0));
                assert(sessions0[n] == sessions[n]);
            }
        }
        assert(after[n] == after[n]);
        assert forall|i: int| 1 <= i < results.len() implies #[trigger] results[i] == Ok::<usize, IoError>(0)
            && after[i] == before[i] && sessions[i + 1] == sessions[1] by {
            if i < n {
                assert(results0[i] == Ok::<usize, IoError>(0));
                assert(results0[i] == results[i]);
                assert(after0[i] == after[i] && before0[i] == before[i]);
                assert(sessions0[i + 1] == sessions[i + 1]);
            } else {
                assert(read_step(sessions[n], before[n], sessions[n + 1], after[n], results[n]));
            }
        }
    }
}

/// A read into a buffer with less room than the message returns `0`, writes nothing
/// and leaves the session fresh; a following read into a writable buffer with room
/// for the message then delivers the whole message.
pub proof fn lemma_small_buffer_then_retry(
    s0: SessionState,
    d0: UserBuffer,
    s1: SessionState,
    d1: UserBuffer,
    r1: Result<usize, IoError>,
    e0: UserBuffer,
    s2: SessionState,
    e1: UserBuffer,
    r2: Result<usize, IoError>,
)
    requires
        s0.is_fresh_spec(),
        d0.room() < PAYLOAD_LEN,
        read_step(s0, d0, s1, d1, r1),
        e0.room() >= PAYLOAD_LEN,
        e0.writable(),
        read_step(s1, e0, s2, e1, r2),
    ensures
        r1 == Ok::<usize, IoError>(0),
        d1 == d0,
        s1.is_fresh_spec(),
        r2 == Ok::<usize, IoError>(PAYLOAD_LEN),
        e1.contents() == e0.contents() + payload_bytes(),
        s2.is_drained_spec(),
{
}

/// Two sessions opened one after the other on one counter are independent: each
/// one's first read into a writable buffer with room for the message delivers the
/// whole message, in whichever order the two reads come, since a read involves no
/// session but its own.
pub proof fn lemma_sessions_isolated(
    c0: SharedState,
    c1: SharedState,
    c2: SharedState,
    opened_a: Result<SessionState, AllocationError>,
    opened_b: Result<SessionState, AllocationError>,
    da0: UserBuffer,
    a1: SessionState,
    da1: UserBuffer,
    ra: Result<usize, IoError>,
    db0: UserBuffer,
    b1: SessionState,
    db1: UserBuffer,
    rb: Result<usize, IoError>,
)
    requires
        open_step(c0, c1, opened_a),
        open_step(c1, c2, opened_b),
        da0.room() >= PAYLOAD_LEN,
        da0.writable(),
        db0.room() >= PAYLOAD_LEN,
        db0.writable(),
        opened_a matches Ok(a0) && read_step(a0, da0, a1, da1, ra),
        opened_b matches Ok(b0) && read_step(b0, db0, b1, db1, rb),
    ensures
        c1.count() == c0.count() + 1,
        c2.count() == c0.count() + 2,
        ra == Ok::<usize, IoError>(PAYLOAD_LEN),
        da1.contents() == da0.contents() + payload_bytes(),
        rb == Ok::<usize, IoError>(PAYLOAD_LEN),
        db1.contents() == db0.contents() + payload_bytes(),
{
}

} // verus!
