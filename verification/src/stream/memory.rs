//! Stream that reads from and writes to an owned buffer.
use crate::error::{BinaryError, BinaryResult};
use crate::stream::{overwrite, read_at, ReadStream, SeekStream, WriteStream};
use vstd::prelude::*;
use vstd::std_specs::convert::FromSpecImpl;

verus! {

/// Stream that wraps an owned buffer.
pub struct MemoryStream {
    buffer: Vec<u8>,
    position: u64,
}

impl MemoryStream {
    /// Create a memory stream.
    pub fn new() -> (r: Self)
        ensures
            r.data() == Seq::<u8>::empty(),
            r.offset() == 0,
    {
        MemoryStream { buffer: Vec::new(), position: 0 }
    }
}

impl From<Vec<u8>> for MemoryStream {
    /// A stream over `buffer`, with the cursor at its start.
    fn from(buffer: Vec<u8>) -> (r: MemoryStream)
        ensures
            r.data() == buffer@,
            r.offset() == 0,
    {
        MemoryStream { buffer, position: 0 }
    }
}

impl FromSpecImpl<Vec<u8>> for MemoryStream {
    open spec fn obeys_from_spec() -> bool {
        true
    }

    closed spec fn from_spec(buffer: Vec<u8>) -> MemoryStream {
        MemoryStream { buffer, position: 0 }
    }
}

impl From<MemoryStream> for Vec<u8> {
    /// The buffer that the stream wraps.
    fn from(stream: MemoryStream) -> (r: Vec<u8>)
        ensures
            r@ == stream.data(),
    {
        stream.buffer
    }
}

impl FromSpecImpl<MemoryStream> for Vec<u8> {
    open spec fn obeys_from_spec() -> bool {
        true
    }

    closed spec fn from_spec(stream: MemoryStream) -> Vec<u8> {
        stream.buffer
    }
}

impl Default for MemoryStream {
    fn default() -> (r: Self)
        ensures
            r.data() == Seq::<u8>::empty(),
            r.offset() == 0,
    {
        Self::new()
    }
}

impl SeekStream for MemoryStream {
    closed spec fn data(&self) -> Seq<u8> {
        self.buffer@
    }

    closed spec fn offset(&self) -> nat {
        self.position as nat
    }

    open spec fn reliable() -> bool {
        true
    }

    fn seek(&mut self, to: u64) -> (r: BinaryResult<u64>) {
        self.position = to;
        Ok(to)
    }

    fn tell(&mut self) -> (r: BinaryResult<u64>) {
        Ok(self.position)
    }

    fn len(&self) -> (r: BinaryResult<u64>) {
        Ok(self.buffer.len() as u64)
    }
}

impl ReadStream for MemoryStream {
    fn read_exact(&mut self, count: usize) -> (r: BinaryResult<Vec<u8>>) {
        let total: usize = self.buffer.len();
        match read_at(self.buffer.as_slice(), self.position, count) {
            Ok(bytes) => {
                assert(self.position + count <= total);
                self.position = self.position + count as u64;
                Ok(bytes)
            },
            Err(e) => Err(e),
        }
    }
}

impl WriteStream for MemoryStream {
    /// A buffer holds as many bytes as the machine can address.
    open spec fn admits(at: nat, count: nat) -> bool {
        at + count <= usize::MAX
    }

    fn write(&mut self, bytes: &[u8]) -> (r: BinaryResult<usize>) {
        let count: usize = bytes.len();
        if self.position > (usize::MAX - count) as u64 {
            return Err(BinaryError::Io);
        }
        if count == 0 {
            assert(bytes@.subrange(0, 0) =~= Seq::<u8>::empty());
            return Ok(0);
        }
        let at: usize = self.position as usize;
        let ghost before: Seq<u8> = self.buffer@;
        while self.buffer.len() < at
            invariant
                before.len() <= self.buffer.len() || self.buffer.len() == before.len(),
                self.buffer.len() >= before.len(),
                self.buffer.len() <= at || self.buffer.len() == before.len(),
                forall|k: int| 0 <= k < before.len() ==> self.buffer[k] == before[k],
                forall|k: int| before.len() <= k < self.buffer.len() ==> self.buffer[k] == 0u8,
                self.position == old(self).position,
            decreases at - self.buffer.len(),
        {
            self.buffer.push(0u8);
        }
        let ghost padded: Seq<u8> = self.buffer@;
        let mut i: usize = 0;
        while i < count
            invariant
                i <= count,
                count == bytes@.len(),
                at + count <= usize::MAX,
                padded.len() >= at,
                self.buffer.len() == if padded.len() >= at + i {
                    padded.len()
                } else {
                    (at + i) as nat
                },
                forall|k: int|
                    0 <= k < self.buffer.len() ==> self.buffer[k] == if at <= k < at + i {
                        bytes[k - at]
                    } else {
                        padded[k]
                    },
                self.position == old(self).position,
            decreases count - i,
        {
            if at + i < self.buffer.len() {
                self.buffer.set(at + i, bytes[i]);
            } else {
                self.buffer.push(bytes[i]);
            }
            i = i + 1;
        }
        self.position = (at + count) as u64;
        proof {
            assert(bytes@.subrange(0, count as int) =~= bytes@);
            assert(self.buffer@ =~= overwrite(before, at as nat, bytes@));
        }
        Ok(count)
    }

    /// A buffer in memory is its own medium: nothing waits to be handed on.
    open spec fn buffered(&self) -> bool {
        false
    }

    fn flush(&mut self) -> (r: BinaryResult<()>) {
        Ok(())
    }
}

} // verus!
