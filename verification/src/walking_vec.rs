use vstd::prelude::*;
use vstd::slice::{slice_subrange, slice_to_vec};

verus! {

/// A sequential forward-only reader over an immutable byte buffer.
///
/// The cursor tracks a position inside `buffer`; reads hand back copies of
/// the next bytes and advance the position. The position never moves past the
/// end of the buffer.
pub struct WalkingVec {
    pub buffer: Vec<u8>,
    pub position: usize,
}

impl WalkingVec {
    /// The cursor invariant: the position stays inside the buffer.
    pub open spec fn wf(&self) -> bool {
        self.position <= self.buffer@.len()
    }

    /// How many unread bytes are left.
    pub open spec fn remaining(&self) -> int {
        self.buffer@.len() - self.position
    }

    /// Wrap a byte buffer in a cursor positioned at its start.
    pub fn new(buffer: Vec<u8>) -> (r: WalkingVec)
        ensures
            r.wf(),
            r.buffer@ == buffer@,
            r.position == 0,
    {
        WalkingVec { buffer, position: 0 }
    }

    /// Return the next `bytes_num` bytes and advance past them.
    ///
    /// When the cursor already stands at the end of the buffer, the (empty)
    /// remainder comes back instead and the position stays put; this
    /// tolerates the decoder's trailing-read pattern. A read that would
    /// overrun a nonempty remainder is a caller error and is excluded here:
    /// decoders bound every read by a checked length first.
    pub fn walk(&mut self, bytes_num: usize) -> (r: Vec<u8>)
        requires
            old(self).wf(),
            old(self).remaining() == 0 || old(self).position + bytes_num <= old(self).buffer@.len(),
        ensures
            final(self).wf(),
            final(self).buffer@ == old(self).buffer@,
            old(self).remaining() == 0 ==> final(self).position == old(self).position
                && r@ == Seq::<u8>::empty(),
            old(self).remaining() != 0 ==> final(self).position == old(self).position + bytes_num
                && r@ == old(self).buffer@.subrange(
                    old(self).position as int,
                    old(self).position + bytes_num,
                ),
    {
        if self.reached_end() {
            Vec::new()
        } else {
            let len = self.buffer.len();
            assert(self.position + bytes_num <= len);
            let piece = slice_subrange(
                self.buffer.as_slice(),
                self.position,
                self.position + bytes_num,
            );
            let ret = slice_to_vec(piece);
            self.position = self.position + bytes_num;
            ret
        }
    }

    /// Whether every byte of the buffer has been read.
    pub fn reached_end(&self) -> (r: bool)
        ensures
            r == (self.position == self.buffer@.len()),
    {
        self.buffer.len() == self.position
    }
}

} // verus!
