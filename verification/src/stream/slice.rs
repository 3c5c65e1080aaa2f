//! Stream that reads from a slice of bytes.
use crate::error::{BinaryError, BinaryResult};
use crate::stream::{read_at, ReadStream, SeekStream, WriteStream};
use vstd::prelude::*;

verus! {

/// Stream that wraps a slice of bytes. It can be read and not written.
pub struct SliceStream<'a> {
    buffer: &'a [u8],
    position: u64,
}

impl<'a> SliceStream<'a> {
    /// Create a slice stream.
    pub fn new(buffer: &'a [u8]) -> (r: Self)
        ensures
            r.data() == buffer@,
            r.offset() == 0,
    {
        SliceStream { buffer, position: 0 }
    }
}

impl<'a> SeekStream for SliceStream<'a> {
    closed spec fn data(&self) -> Seq<u8> {
        self.buffer@
    }

    closed spec fn offset(&self) -> nat {
        self.position as nat
    }

    open spec fn reliable() -> bool {
        true
    }

    fn seek(&mut self, to: u64) -> (r: BinaryResult<u64>) {
        self.position = to;
        Ok(to)
    }

    fn tell(&mut self) -> (r: BinaryResult<u64>) {
        Ok(self.position)
    }

    fn len(&self) -> (r: BinaryResult<u64>) {
        Ok(self.buffer.len() as u64)
    }
}

impl<'a> ReadStream for SliceStream<'a> {
    fn read_exact(&mut self, count: usize) -> (r: BinaryResult<Vec<u8>>) {
        let total: usize = self.buffer.len();
        match read_at(self.buffer, self.position, count) {
            Ok(bytes) => {
                assert(self.position + count <= total);
                self.position = self.position + count as u64;
                Ok(bytes)
            },
            Err(e) => Err(e),
        }
    }
}

impl<'a> WriteStream for SliceStream<'a> {
    /// A slice admits no write at all.
    open spec fn admits(at: nat, count: nat) -> bool {
        false
    }

    /// A slice refuses every write as read-only.
    open spec fn refusal() -> BinaryError {
        BinaryError::ReadOnly
    }

    fn write(&mut self, bytes: &[u8]) -> (r: BinaryResult<usize>)
        ensures
            r == Err::<usize, BinaryError>(BinaryError::ReadOnly),
            *final(self) == *old(self),
    {
        Err(BinaryError::ReadOnly)
    }

    /// Nothing is ever written, so nothing waits to be handed on.
    open spec fn buffered(&self) -> bool {
        false
    }

    fn flush(&mut self) -> (r: BinaryResult<()>) {
        Ok(())
    }
}

} // verus!
