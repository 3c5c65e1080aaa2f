//! What a backing store must offer to carry a reader or a writer.
use crate::error::{BinaryError, BinaryResult};
use vstd::prelude::*;

pub mod memory;
pub mod slice;

verus! {

/// The contents of a medium after `bytes` were written at offset `at`.
///
/// Bytes inside the written range are replaced, bytes outside it stay, and a
/// gap between the old end and `at` reads as zeros. Writing nothing changes
/// nothing.
pub open spec fn overwrite(data: Seq<u8>, at: nat, bytes: Seq<u8>) -> Seq<u8> {
    if bytes.len() == 0 {
        data
    } else {
        Seq::new(
            if data.len() >= at + bytes.len() {
                data.len()
            } else {
                at + bytes.len()
            },
            |i: int|
                if at <= i < at + bytes.len() {
                    bytes[i - at]
                } else if i < data.len() {
                    data[i]
                } else {
                    0u8
                },
        )
    }
}

/// Two writes, one behind the other, leave what one write of both leaves.
pub proof fn lemma_overwrite_twice(data: Seq<u8>, at: nat, first: Seq<u8>, second: Seq<u8>)
    ensures
        overwrite(overwrite(data, at, first), at + first.len(), second) == overwrite(
            data,
            at,
            first + second,
        ),
{
    let once = overwrite(data, at, first + second);
    let twice = overwrite(overwrite(data, at, first), at + first.len(), second);
    if first.len() == 0 {
        assert(first + second =~= second);
    } else if second.len() == 0 {
        assert(first + second =~= first);
    } else {
        assert(twice =~= once);
    }
}

/// Whether `count` bytes lie between offset `at` and the end of `data`.
pub open spec fn available(data: Seq<u8>, at: nat, count: nat) -> bool {
    at + count <= data.len()
}

/// Decides whether a read of `count` bytes at offset `at` stays inside a
/// medium of `total` bytes. A stream that knows its length asks this before
/// it reads, so that no read crosses the end of the data.
pub fn ensure_available(at: u64, count: usize, total: u64) -> (r: BinaryResult<()>)
    ensures
        r is Ok <==> at + count <= total,
        r matches Err(e) ==> e == BinaryError::UnexpectedEndOfData,
{
    if at > total {
        Err(BinaryError::UnexpectedEndOfData)
    } else if count as u64 > total - at {
        Err(BinaryError::UnexpectedEndOfData)
    } else {
        Ok(())
    }
}

/// Copies the `count` bytes at offset `at` out of `source`, or reports that
/// they are not all there.
pub fn read_at(source: &[u8], at: u64, count: usize) -> (r: BinaryResult<Vec<u8>>)
    ensures
        r matches Ok(bytes) ==> available(source@, at as nat, count as nat) && bytes@
            == source@.subrange(at as int, at + count),
        r matches Err(e) ==> !available(source@, at as nat, count as nat) && e
            == BinaryError::UnexpectedEndOfData,
{
    let total: usize = source.len();
    ensure_available(at, count, total as u64)?;
    let start: usize = at as usize;
    let mut bytes: Vec<u8> = Vec::new();
    let mut i: usize = 0;
    while i < count
        invariant
            i <= count,
            start + count <= total,
            total == source@.len(),
            bytes@ == source@.subrange(start as int, start + i),
        decreases count - i,
    {
        bytes.push(source[start + i]);
        proof {
            assert(bytes@ =~= source@.subrange(start as int, start + i + 1));
        }
        i = i + 1;
    }
    Ok(bytes)
}

/// A medium with a cursor that can be placed at any absolute offset.
pub trait SeekStream {
    /// The bytes that the medium holds. A stream whose value does not
    /// determine them, such as a handle to a file, leaves this as it is:
    /// nothing is then known of them.
    open spec fn data(&self) -> Seq<u8> {
        arbitrary()
    }

    /// The cursor, counted from the start of the medium. Nothing is known
    /// of it unless the stream says what it is.
    open spec fn offset(&self) -> nat {
        arbitrary()
    }

    /// Whether the medium itself never fails, so that every failure is one
    /// that these contracts name. A stream is unreliable unless it says
    /// otherwise.
    open spec fn reliable() -> bool {
        false
    }

    /// Places the cursor at `to`, counted from the start.
    fn seek(&mut self, to: u64) -> (r: BinaryResult<u64>)
        ensures
            (*final(self)).data() == (*old(self)).data(),
            r matches Ok(at) ==> at == to && (*final(self)).offset() == to,
            r matches Err(e) ==> e == BinaryError::Io,
            Self::reliable() ==> r is Ok,
    ;

    /// The cursor.
    fn tell(&mut self) -> (r: BinaryResult<u64>)
        ensures
            (*final(self)).data() == (*old(self)).data(),
            (*final(self)).offset() == (*old(self)).offset(),
            r matches Ok(at) ==> at == (*old(self)).offset(),
            r matches Err(e) ==> e == BinaryError::Io,
            Self::reliable() ==> r is Ok,
    ;

    /// The total number of bytes held; the cursor stays where it is.
    fn len(&self) -> (r: BinaryResult<u64>)
        ensures
            r matches Ok(n) ==> n == self.data().len(),
            r matches Err(e) ==> e == BinaryError::Io,
            Self::reliable() ==> r is Ok,
    ;
}

/// A medium that can be read.
pub trait ReadStream: SeekStream {
    /// Reads exactly `count` bytes at the cursor and moves the cursor past
    /// them. A read that would cross the end of the data fails with
    /// `UnexpectedEndOfData` and moves nothing; a read that stays inside it
    /// fails only where the medium does, with `Io`.
    fn read_exact(&mut self, count: usize) -> (r: BinaryResult<Vec<u8>>)
        ensures
            (*final(self)).data() == (*old(self)).data(),
            match r {
                Ok(bytes) => {
                    &&& available((*old(self)).data(), (*old(self)).offset(), count as nat)
                    &&& bytes@ == (*old(self)).data().subrange(
                        (*old(self)).offset() as int,
                        (*old(self)).offset() + count,
                    )
                    &&& (*final(self)).offset() == (*old(self)).offset() + count
                },
                Err(e) => if available((*old(self)).data(), (*old(self)).offset(), count as nat) {
                    e == BinaryError::Io && !Self::reliable()
                } else {
                    &&& e == BinaryError::UnexpectedEndOfData
                    &&& (*final(self)).offset() == (*old(self)).offset()
                },
            },
    ;
}

/// A medium that can be written.
pub trait WriteStream: SeekStream {
    /// Whether the medium has room for `count` bytes at offset `at`. This
    /// matters for reliable streams only.
    open spec fn admits(at: nat, count: nat) -> bool {
        true
    }

    /// The error with which the medium refuses a write for which it has no
    /// room. Every other failure of a write is `Io`.
    open spec fn refusal() -> BinaryError {
        BinaryError::Io
    }

    /// Writes a prefix of `bytes` at the cursor, moves the cursor past what
    /// was written and reports how many bytes that was.
    fn write(&mut self, bytes: &[u8]) -> (r: BinaryResult<usize>)
        ensures
            r matches Ok(n) ==> {
                &&& n <= bytes@.len()
                &&& (*final(self)).data() == overwrite(
                    (*old(self)).data(),
                    (*old(self)).offset(),
                    bytes@.subrange(0, n as int),
                )
                &&& (*final(self)).offset() == (*old(self)).offset() + n
            },
            r matches Err(e) ==> e == BinaryError::Io || e == Self::refusal(),
            Self::reliable() ==> {
                &&& r is Ok <==> Self::admits((*old(self)).offset(), bytes@.len())
                &&& r matches Ok(n) ==> n == bytes@.len()
                &&& r matches Err(e) ==> {
                    &&& e == Self::refusal()
                    &&& (*final(self)).data() == (*old(self)).data()
                    &&& (*final(self)).offset() == (*old(self)).offset()
                }
            },
    ;

    /// Whether bytes that were written still wait in a buffer of the
    /// stream, not yet handed on to the medium. An unbuffered stream never
    /// holds any back; of a stream that does not say, nothing is known.
    open spec fn buffered(&self) -> bool {
        arbitrary()
    }

    /// Hands buffered bytes on to the medium: after a flush that succeeded
    /// the stream holds none back. What the stream holds, and its cursor,
    /// stay as they are.
    fn flush(&mut self) -> (r: BinaryResult<()>)
        ensures
            (*final(self)).data() == (*old(self)).data(),
            (*final(self)).offset() == (*old(self)).offset(),
            r is Ok ==> !(*final(self)).buffered(),
            r matches Err(e) ==> e == BinaryError::Io,
            Self::reliable() ==> r is Ok,
    ;
}

/// Get the length of a stream. The cursor stays where it is.
pub fn stream_length<S: SeekStream>(stream: &mut S) -> (r: BinaryResult<u64>)
    ensures
        (*final(stream)).data() == (*old(stream)).data(),
        (*final(stream)).offset() == (*old(stream)).offset(),
        r matches Ok(n) ==> n == (*old(stream)).data().len(),
        r matches Err(e) ==> e == BinaryError::Io,
        S::reliable() ==> r is Ok,
{
    stream.len()
}

/// A borrowed stream is a stream: it holds what the stream behind it holds.
impl<S: SeekStream> SeekStream for &mut S {
    open spec fn data(&self) -> Seq<u8> {
        (**self).data()
    }

    open spec fn offset(&self) -> nat {
        (**self).offset()
    }

    open spec fn reliable() -> bool {
        S::reliable()
    }

    fn seek(&mut self, to: u64) -> (r: BinaryResult<u64>) {
        (**self).seek(to)
    }

    fn tell(&mut self) -> (r: BinaryResult<u64>) {
        (**self).tell()
    }

    fn len(&self) -> (r: BinaryResult<u64>) {
        (**self).len()
    }
}

impl<S: ReadStream> ReadStream for &mut S {
    fn read_exact(&mut self, count: usize) -> (r: BinaryResult<Vec<u8>>) {
        (**self).read_exact(count)
    }
}

impl<S: WriteStream> WriteStream for &mut S {
    open spec fn admits(at: nat, count: nat) -> bool {
        S::admits(at, count)
    }

    open spec fn refusal() -> BinaryError {
        S::refusal()
    }

    open spec fn buffered(&self) -> bool {
        (**self).buffered()
    }

    fn write(&mut self, bytes: &[u8]) -> (r: BinaryResult<usize>) {
        (**self).write(bytes)
    }

    fn flush(&mut self) -> (r: BinaryResult<()>) {
        (**self).flush()
    }
}

} // verus!
