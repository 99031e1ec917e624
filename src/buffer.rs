//! The destination of a read: caller memory with a fixed amount of room.
use vstd::prelude::*;

verus! {

/// Writing into the caller's memory failed.
#[derive(Debug, Clone, Copy, PartialEq, Eq)]
pub struct IoError;

/// Memory handed in by a reader.
///
/// `room` bytes may still be written; when `writable` is false every write fails,
/// as it does for a region the caller cannot write to.
pub struct UserBuffer {
    written: Vec<u8>,
    room: usize,
    writable: bool,
}

impl UserBuffer {
    /// The bytes written so far.
    pub closed spec fn contents(&self) -> Seq<u8> {
        self.written@
    }

    /// How many bytes may still be written.
    pub closed spec fn room(&self) -> nat {
        self.room as nat
    }

    pub closed spec fn writable(&self) -> bool {
        self.writable
    }

    /// A writable region with room for `capacity` bytes.
    pub fn new(capacity: usize) -> (r: Self)
        ensures
            r.contents() == Seq::<u8>::empty(),
            r.room() == capacity,
            r.writable(),
    {
        UserBuffer { written: Vec::new(), room: capacity, writable: true }
    }

    /// A region of `capacity` bytes on which every write fails.
    pub fn unwritable(capacity: usize) -> (r: Self)
        ensures
            r.contents() == Seq::<u8>::empty(),
            r.room() == capacity,
            !r.writable(),
    {
        UserBuffer { written: Vec::new(), room: capacity, writable: false }
    }

    /// How many bytes may still be written.
    pub fn len(&self) -> (r: usize)
        ensures
            r == self.room(),
    {
        self.room
    }

    pub fn is_writable(&self) -> (r: bool)
        ensures
            r == self.writable(),
    {
        self.writable
    }

    /// The bytes written so far.
    pub fn contents_slice(&self) -> (r: &[u8])
        ensures
            r@ == self.contents(),
    {
        self.written.as_slice()
    }

    /// Writes all of `data` or nothing: it fails, leaving the buffer as it was,
    /// when the region is not writable or has less room than `data` needs.
    pub fn write_slice(&mut self, data: &[u8]) -> (r: Result<(), IoError>)
        ensures
            r is Ok <==> (old(self).writable() && data@.len() <= old(self).room()),
            r is Ok ==> final(self).contents() == old(self).contents() + data@
                && final(self).room() == old(self).room() - data@.len()
                && final(self).writable(),
            r is Err ==> *final(self) == *old(self),
    {
        if !self.writable || data.len() > self.room {
            return Err(IoError);
        }
        let ghost start = self.written@;
        let mut i: usize = 0;
        while i < data.len()
            invariant
                i <= data@.len(),
                self.written@ == start + data@.subrange(0, i as int),
                self.room == old(self).room,
                self.writable == old(self).writable,
            decreases data@.len() - i,
        {
            self.written.push(data[i]);
            i = i + 1;
            assert(data@.subrange(0, i as int) =~= data@.subrange(0, i - 1 as int).push(data@[i - 1]));
        }
        assert(data@.subrange(0, i as int) =~= data@);
        self.room = self.room - data.len();
        Ok(())
    }
}

} // verus!
