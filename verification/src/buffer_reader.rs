//! Reading consecutive chunks out of an in-memory byte buffer.

use vstd::prelude::*;

verus! {

/// The error of a read that asks for more bytes than remain.
#[derive(Clone, Copy, Debug, PartialEq, Eq)]
pub enum ReadError {
    NoMoreData,
}

/// Hands out the bytes of a buffer front to back.
pub struct VecBufferReader {
    buffer: Vec<u8>,
    position: usize,
}

impl VecBufferReader {
    pub closed spec fn buffer(&self) -> Seq<u8> {
        self.buffer@
    }

    pub closed spec fn position(&self) -> nat {
        self.position as nat
    }

    pub closed spec fn wf(&self) -> bool {
        self.position <= self.buffer@.len()
    }

    pub fn new(buffer: Vec<u8>) -> (r: Self)
        ensures
            r.wf(),
            r.buffer() == buffer@,
            r.position() == 0,
    {
        VecBufferReader { buffer, position: 0 }
    }

    /// Copies the next `count` bytes into the front of `out`. Fails, changing nothing,
    /// when fewer than `count` bytes remain.
    pub fn read(&mut self, out: &mut Vec<u8>, count: usize) -> (r: Result<(), ReadError>)
        requires
            old(self).wf(),
            count <= old(out)@.len(),
        ensures
            final(self).wf(),
            final(self).buffer() == old(self).buffer(),
            r.is_err() == (count > old(self).buffer().len() - old(self).position()),
            r.is_err() ==> final(self).position() == old(self).position() && final(out)@ == old(out)@,
            r.is_ok() ==> final(self).position() == old(self).position() + count
                && final(out)@ == old(self).buffer().subrange(old(self).position() as int, old(self).position() + count)
                    + old(out)@.skip(count as int),
    {
        let pos = self.position;
        if count > self.buffer.len() - pos {
            return Err(ReadError::NoMoreData);
        }
        let ghost start = out@;
        let mut i: usize = 0;
        while i < count
            invariant
                i <= count <= start.len(),
                pos + count <= self.buffer@.len(),
                pos + count <= usize::MAX,
                out@.len() == start.len(),
                forall|k: int| 0 <= k < i ==> out@[k] == self.buffer@[pos + k],
                forall|k: int| i <= k < start.len() ==> out@[k] == start[k],
            decreases count - i,
        {
            out.set(i, self.buffer[pos + i]);
            i = i + 1;
        }
        self.position = pos + count;
        assert(out@ =~= self.buffer@.subrange(pos as int, pos + count) + start.skip(count as int));
        Ok(())
    }
}

/// Reading in two steps gives the same bytes as one read of both lengths.
pub proof fn lemma_reads_are_consecutive(buffer: Seq<u8>, pos: int, a: int, b: int)
    requires
        0 <= pos,
        0 <= a,
        0 <= b,
        pos + a + b <= buffer.len(),
    ensures
        buffer.subrange(pos, pos + a) + buffer.subrange(pos + a, pos + a + b) == buffer.subrange(pos, pos + a + b),
{
    assert(buffer.subrange(pos, pos + a) + buffer.subrange(pos + a, pos + a + b) =~= buffer.subrange(pos, pos + a + b));
}

} // verus!
