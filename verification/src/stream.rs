use vstd::prelude::*;

verus! {

/// An in-memory byte source with a read position.  The framing layer consumes
/// bytes from the front of `remaining()`; a consumer hands the whole input in
/// at construction and the decoder advances through it.
pub struct ByteStream {
    pub data: Vec<u8>,
    pub pos: usize,
}

impl ByteStream {
    /// The stream is well formed when the position lies inside the data.
    pub open spec fn wf(self) -> bool {
        self.pos <= self.data.len()
    }

    /// The bytes that have not yet been consumed.
    pub open spec fn remaining(self) -> Seq<u8> {
        self.data@.skip(self.pos as int)
    }

    pub fn new(data: Vec<u8>) -> (s: ByteStream)
        ensures
            s.wf(),
            s.remaining() == data@,
    {
        let s = ByteStream { data, pos: 0 };
        proof {
            assert(s.remaining() =~= s.data@);
        }
        s
    }

    /// How many bytes are left to read.
    pub fn remaining_len(&self) -> (n: usize)
        requires
            self.wf(),
        ensures
            n == self.remaining().len(),
    {
        self.data.len() - self.pos
    }

    /// Read the byte at offset `i` from the current position, without
    /// consuming anything.
    pub fn peek(&self, i: usize) -> (b: u8)
        requires
            self.wf(),
            i < self.remaining().len(),
        ensures
            b == self.remaining()[i as int],
    {
        self.data[self.pos + i]
    }

    /// Copy `n` bytes starting at offset `i` from the current position,
    /// without consuming anything.
    pub fn peek_bytes(&self, i: usize, n: usize) -> (v: Vec<u8>)
        requires
            self.wf(),
            i + n <= self.remaining().len(),
        ensures
            v@ == self.remaining().subrange(i as int, i + n),
    {
        let lo = self.pos + i;
        let v = vstd::slice::slice_to_vec(vstd::slice::slice_subrange(self.data.as_slice(), lo, lo + n));
        proof {
            assert(v@ =~= self.remaining().subrange(i as int, i + n));
        }
        v
    }

    /// Consume `n` bytes.
    pub fn advance(&mut self, n: usize)
        requires
            old(self).wf(),
            n <= old(self).remaining().len(),
        ensures
            final(self).wf(),
            final(self).data == old(self).data,
            final(self).remaining() == old(self).remaining().skip(n as int),
    {
        self.pos = self.pos + n;
        proof {
            assert(self.remaining() =~= old(self).remaining().skip(n as int));
        }
    }
}

} // verus!
