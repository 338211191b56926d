//! An in-memory sink for log lines: everything written accumulates in one
//! buffer, so a caller can both forward and keep the output.

use vstd::prelude::*;

verus! {

/// A growing in-memory byte buffer behind the logging output.
pub struct MemoryLogger {
    pub buffer: Vec<u8>,
}

impl MemoryLogger {
    /// An empty logger.
    pub fn new() -> (r: MemoryLogger)
        ensures
            r.buffer@ == Seq::<u8>::empty(),
    {
        MemoryLogger { buffer: Vec::new() }
    }

    /// Appends the bytes, reporting how many were taken — always all.
    pub fn write(&mut self, buf: &[u8]) -> (r: usize)
        ensures
            final(self).buffer@ == old(self).buffer@ + buf@,
            r == buf@.len(),
    {
        let n = buf.len();
        let mut i: usize = 0;
        while i < n
            invariant
                i <= n,
                n == buf@.len(),
                self.buffer@ == old(self).buffer@ + buf@.take(i as int),
            decreases n - i,
        {
            self.buffer.push(buf[i]);
            proof {
                assert(self.buffer@ =~= old(self).buffer@ + buf@.take(i as int + 1));
            }
            i = i + 1;
        }
        proof {
            assert(old(self).buffer@ + buf@.take(n as int) =~= old(self).buffer@ + buf@);
        }
        n
    }

    /// Nothing is buffered beyond the vector itself, so flushing keeps it.
    pub fn flush(&mut self)
        ensures
            final(self).buffer@ == old(self).buffer@,
    {
    }
}

} // verus!
