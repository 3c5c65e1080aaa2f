//! Read typed values from a stream.
use crate::endian::{
    decode_unsigned, lemma_pow256_widths, lemma_single_byte, pow256, raw_to_signed, to_signed,
    wire_value, word_bytes, word_width,
};
use crate::error::{BinaryError, BinaryResult};
use crate::options::{guard_size, guarded, Options};
use crate::stream::{available, stream_length, ReadStream};
use crate::text::{
    announced_length, decode_bool, decode_char, decode_text, is_scalar_value, STRING_PREFIX_WIDTH,
};
use vstd::prelude::*;
use vstd::utf8::{decode_utf8, valid_utf8};

verus! {

/// Read from a stream.
pub struct BinaryReader<R: ReadStream> {
    stream: R,
    options: Options,
}

impl<R: ReadStream> BinaryReader<R> {
    /// The stream that the reader reads.
    pub closed spec fn stream(&self) -> R {
        self.stream
    }

    /// The options that the reader was made with.
    pub closed spec fn options(&self) -> Options {
        self.options
    }

    /// The bytes that the stream holds.
    pub open spec fn data(&self) -> Seq<u8> {
        self.stream().data()
    }

    /// The cursor of the stream.
    pub open spec fn offset(&self) -> nat {
        self.stream().offset()
    }

    /// Whether `count` bytes lie at `skip` bytes past the cursor.
    pub open spec fn has(&self, skip: nat, count: nat) -> bool {
        available(self.data(), self.offset() + skip, count)
    }

    /// The `count` bytes that lie `skip` bytes past the cursor.
    pub open spec fn upcoming(&self, skip: nat, count: nat) -> Seq<u8> {
        self.data().subrange(
            (self.offset() + skip) as int,
            (self.offset() + skip + count) as int,
        )
    }

    /// The unsigned number in the `width` bytes at the cursor.
    pub open spec fn next_unsigned(&self, width: nat) -> nat {
        wire_value(self.options().endian, self.upcoming(0, width))
    }

    /// The signed number in the `width` bytes at the cursor.
    pub open spec fn next_signed(&self, width: nat) -> int {
        to_signed(self.next_unsigned(width), width)
    }

    /// Whether `self` is `before` with the cursor `count` bytes further on.
    pub open spec fn consumed(&self, before: &Self, count: nat) -> bool {
        &&& self.options() == before.options()
        &&& self.data() == before.data()
        &&& self.offset() == before.offset() + count
    }

    /// Whether `self` is what is left of `before` when, after `skip` bytes
    /// were consumed, a read of `count` bytes failed with `error`. Past the
    /// end of the data the error is `UnexpectedEndOfData` and the cursor
    /// stays; inside the data only an unreliable stream fails, with `Io`.
    pub open spec fn read_failed(
        &self,
        before: &Self,
        skip: nat,
        count: nat,
        error: BinaryError,
    ) -> bool {
        &&& self.options() == before.options()
        &&& self.data() == before.data()
        &&& if before.has(skip, count) {
            error == BinaryError::Io && !R::reliable()
        } else {
            error == BinaryError::UnexpectedEndOfData && self.offset() == before.offset() + skip
        }
    }

    /// Create a binary reader with the given options.
    pub fn new(stream: R, options: Options) -> (r: Self)
        ensures
            r.stream() == stream,
            r.options() == options,
    {
        BinaryReader { stream, options }
    }

    /// Give up the reader for the stream that it reads.
    pub fn into_inner(self) -> (r: R)
        ensures
            r == self.stream(),
    {
        self.stream
    }

    /// Seek to a position, counted from the start of the stream.
    pub fn seek(&mut self, to: u64) -> (r: BinaryResult<u64>)
        ensures
            final(self).options() == old(self).options(),
            final(self).data() == old(self).data(),
            r matches Ok(at) ==> at == to && final(self).offset() == to,
            r matches Err(e) ==> e == BinaryError::Io,
            R::reliable() ==> r is Ok,
    {
        self.stream.seek(to)
    }

    /// Get the current seek position.
    pub fn tell(&mut self) -> (r: BinaryResult<u64>)
        ensures
            final(self).consumed(old(self), 0),
            r matches Ok(at) ==> at == old(self).offset(),
            r matches Err(e) ==> e == BinaryError::Io,
            R::reliable() ==> r is Ok,
    {
        self.stream.tell()
    }

    /// Get the current seek position; another name for `tell`.
    pub fn stream_position(&mut self) -> (r: BinaryResult<u64>)
        ensures
            final(self).options() == old(self).options(),
            final(self).data() == old(self).data(),
            final(self).offset() == old(self).offset(),
            r matches Ok(at) ==> at == old(self).offset(),
            r matches Err(e) ==> e == BinaryError::Io,
            R::reliable() ==> r is Ok,
    {
        self.tell()
    }

    /// Get the length of this stream. The cursor stays where it is.
    pub fn len(&mut self) -> (r: BinaryResult<u64>)
        ensures
            final(self).consumed(old(self), 0),
            r matches Ok(n) ==> n == old(self).data().len(),
            r matches Err(e) ==> e == BinaryError::Io,
            R::reliable() ==> r is Ok,
    {
        stream_length(&mut self.stream)
    }

    /// Reads the next `count` bytes.
    fn take(&mut self, count: usize) -> (r: BinaryResult<Vec<u8>>)
        ensures
            match r {
                Ok(bytes) => {
                    &&& old(self).has(0, count as nat)
                    &&& bytes@ == old(self).upcoming(0, count as nat)
                    &&& final(self).consumed(old(self), count as nat)
                },
                Err(e) => final(self).read_failed(old(self), 0, count as nat, e),
            },
    {
        self.stream.read_exact(count)
    }

    /// Reads an unsigned number of `width` bytes.
    fn read_unsigned(&mut self, width: usize) -> (r: BinaryResult<u128>)
        requires
            width <= 16,
        ensures
            match r {
                Ok(v) => {
                    &&& old(self).has(0, width as nat)
                    &&& v == old(self).next_unsigned(width as nat)
                    &&& v < pow256(width as nat)
                    &&& final(self).consumed(old(self), width as nat)
                },
                Err(e) => final(self).read_failed(old(self), 0, width as nat, e),
            },
    {
        let bytes = self.take(width)?;
        Ok(decode_unsigned(self.options.endian, bytes.as_slice()))
    }

    /// Reads a signed number of `width` bytes.
    fn read_signed(&mut self, width: usize) -> (r: BinaryResult<i128>)
        requires
            1 <= width <= 16,
        ensures
            match r {
                Ok(v) => {
                    &&& old(self).has(0, width as nat)
                    &&& v == old(self).next_signed(width as nat)
                    &&& -(pow256(width as nat) as int) <= 2 * v < pow256(width as nat)
                    &&& final(self).consumed(old(self), width as nat)
                },
                Err(e) => final(self).read_failed(old(self), 0, width as nat, e),
            },
    {
        let raw = self.read_unsigned(width)?;
        Ok(raw_to_signed(raw, width))
    }

    /// Read a `u8` from the stream.
    pub fn read_u8(&mut self) -> (r: BinaryResult<u8>)
        ensures
            match r {
                Ok(v) => {
                    &&& old(self).has(0, 1)
                    &&& v == old(self).next_unsigned(1)
                    &&& v == old(self).data()[old(self).offset() as int]
                    &&& final(self).consumed(old(self), 1)
                },
                Err(e) => final(self).read_failed(old(self), 0, 1, e),
            },
    {
        proof {
            lemma_pow256_widths();
            if old(self).has(0, 1) {
                lemma_single_byte(old(self).options().endian, old(self).upcoming(0, 1));
            }
        }
        let v = self.read_unsigned(1)?;
        Ok(v as u8)
    }

    /// Read a `u32` from the stream.
    pub fn read_u32(&mut self) -> (r: BinaryResult<u32>)
        ensures
            match r {
                Ok(v) => {
                    &&& old(self).has(0, 4)
                    &&& v == old(self).next_unsigned(4)
                    &&& final(self).consumed(old(self), 4)
                },
                Err(e) => final(self).read_failed(old(self), 0, 4, e),
            },
    {
        proof {
            lemma_pow256_widths();
        }
        let v = self.read_unsigned(4)?;
        Ok(v as u32)
    }

    /// Read an `i32` from the stream.
    pub fn read_i32(&mut self) -> (r: BinaryResult<i32>)
        ensures
            match r {
                Ok(v) => {
                    &&& old(self).has(0, 4)
                    &&& v == old(self).next_signed(4)
                    &&& final(self).consumed(old(self), 4)
                },
                Err(e) => final(self).read_failed(old(self), 0, 4, e),
            },
    {
        proof {
            lemma_pow256_widths();
        }
        let v = self.read_signed(4)?;
        Ok(v as i32)
    }

    /// Read a `usize` from the stream, in as many bytes as the machine's
    /// word has.
    pub fn read_usize(&mut self) -> (r: BinaryResult<usize>)
        ensures
            match r {
                Ok(v) => {
                    &&& old(self).has(0, word_width())
                    &&& v == old(self).next_unsigned(word_width())
                    &&& final(self).consumed(old(self), word_width())
                },
                Err(e) => final(self).read_failed(old(self), 0, word_width(), e),
            },
    {
        let v = self.read_unsigned(word_bytes())?;
        Ok(v as usize)
    }

    /// Read an `isize` from the stream, in as many bytes as the machine's
    /// word has.
    pub fn read_isize(&mut self) -> (r: BinaryResult<isize>)
        ensures
            match r {
                Ok(v) => {
                    &&& old(self).has(0, word_width())
                    &&& v == old(self).next_signed(word_width())
                    &&& final(self).consumed(old(self), word_width())
                },
                Err(e) => final(self).read_failed(old(self), 0, word_width(), e),
            },
    {
        let v = self.read_signed(word_bytes())?;
        Ok(v as isize)
    }

    /// Read an `i8` from the stream.
    pub fn read_i8(&mut self) -> (r: BinaryResult<i8>)
        ensures
            match r {
                Ok(v) => {
                    &&& old(self).has(0, 1)
                    &&& v == old(self).next_signed(1)
                    &&& final(self).consumed(old(self), 1)
                },
                Err(e) => final(self).read_failed(old(self), 0, 1, e),
            },
    {
        proof {
            lemma_pow256_widths();
        }
        let v = self.read_signed(1)?;
        Ok(v as i8)
    }

    /// Read a `u16` from the stream.
    pub fn read_u16(&mut self) -> (r: BinaryResult<u16>)
        ensures
            match r {
                Ok(v) => {
                    &&& old(self).has(0, 2)
                    &&& v == old(self).next_unsigned(2)
                    &&& final(self).consumed(old(self), 2)
                },
                Err(e) => final(self).read_failed(old(self), 0, 2, e),
            },
    {
        proof {
            lemma_pow256_widths();
        }
        let v = self.read_unsigned(2)?;
        Ok(v as u16)
    }

    /// Read an `i16` from the stream.
    pub fn read_i16(&mut self) -> (r: BinaryResult<i16>)
        ensures
            match r {
                Ok(v) => {
                    &&& old(self).has(0, 2)
                    &&& v == old(self).next_signed(2)
                    &&& final(self).consumed(old(self), 2)
                },
                Err(e) => final(self).read_failed(old(self), 0, 2, e),
            },
    {
        proof {
            lemma_pow256_widths();
        }
        let v = self.read_signed(2)?;
        Ok(v as i16)
    }

    /// Read a `u64` from the stream.
    pub fn read_u64(&mut self) -> (r: BinaryResult<u64>)
        ensures
            match r {
                Ok(v) => {
                    &&& old(self).has(0, 8)
                    &&& v == old(self).next_unsigned(8)
                    &&& final(self).consumed(old(self), 8)
                },
                Err(e) => final(self).read_failed(old(self), 0, 8, e),
            },
    {
        proof {
            lemma_pow256_widths();
        }
        let v = self.read_unsigned(8)?;
        Ok(v as u64)
    }

    /// Read an `i64` from the stream.
    pub fn read_i64(&mut self) -> (r: BinaryResult<i64>)
        ensures
            match r {
                Ok(v) => {
                    &&& old(self).has(0, 8)
                    &&& v == old(self).next_signed(8)
                    &&& final(self).consumed(old(self), 8)
                },
                Err(e) => final(self).read_failed(old(self), 0, 8, e),
            },
    {
        proof {
            lemma_pow256_widths();
        }
        let v = self.read_signed(8)?;
        Ok(v as i64)
    }

    /// Read a `u128` from the stream.
    pub fn read_u128(&mut self) -> (r: BinaryResult<u128>)
        ensures
            match r {
                Ok(v) => {
                    &&& old(self).has(0, 16)
                    &&& v == old(self).next_unsigned(16)
                    &&& final(self).consumed(old(self), 16)
                },
                Err(e) => final(self).read_failed(old(self), 0, 16, e),
            },
    {
        proof {
            lemma_pow256_widths();
        }
        let v = self.read_unsigned(16)?;
        Ok(v as u128)
    }

    /// Read an `i128` from the stream.
    pub fn read_i128(&mut self) -> (r: BinaryResult<i128>)
        ensures
            match r {
                Ok(v) => {
                    &&& old(self).has(0, 16)
                    &&& v == old(self).next_signed(16)
                    &&& final(self).consumed(old(self), 16)
                },
                Err(e) => final(self).read_failed(old(self), 0, 16, e),
            },
    {
        proof {
            lemma_pow256_widths();
        }
        let v = self.read_signed(16)?;
        Ok(v as i128)
    }

    /// Read an `f32` from the stream, as its IEEE-754 bit pattern. No pattern is
    /// refused: a NaN comes back bit for bit.
    pub fn read_f32(&mut self) -> (r: BinaryResult<u32>)
        ensures
            match r {
                Ok(v) => {
                    &&& old(self).has(0, 4)
                    &&& v == old(self).next_unsigned(4)
                    &&& final(self).consumed(old(self), 4)
                },
                Err(e) => final(self).read_failed(old(self), 0, 4, e),
            },
    {
        proof {
            lemma_pow256_widths();
        }
        let v = self.read_unsigned(4)?;
        Ok(v as u32)
    }

    /// Read an `f64` from the stream, as its IEEE-754 bit pattern. No pattern is
    /// refused: a NaN comes back bit for bit.
    pub fn read_f64(&mut self) -> (r: BinaryResult<u64>)
        ensures
            match r {
                Ok(v) => {
                    &&& old(self).has(0, 8)
                    &&& v == old(self).next_unsigned(8)
                    &&& final(self).consumed(old(self), 8)
                },
                Err(e) => final(self).read_failed(old(self), 0, 8, e),
            },
    {
        proof {
            lemma_pow256_widths();
        }
        let v = self.read_unsigned(8)?;
        Ok(v as u64)
    }

    /// Read a `bool` from the stream: one byte, `true` unless it is zero.
    pub fn read_bool(&mut self) -> (r: BinaryResult<bool>)
        ensures
            match r {
                Ok(v) => {
                    &&& old(self).has(0, 1)
                    &&& v == (old(self).data()[old(self).offset() as int] > 0)
                    &&& final(self).consumed(old(self), 1)
                },
                Err(e) => final(self).read_failed(old(self), 0, 1, e),
            },
    {
        let byte = self.read_u8()?;
        Ok(decode_bool(byte))
    }

    /// The code point in the four bytes at the cursor.
    pub open spec fn next_code(&self) -> u32 {
        self.next_unsigned(4) as u32
    }

    /// Read a character from the stream: its code point in four bytes. A
    /// value that is no Unicode scalar value is refused, after its four bytes
    /// were consumed.
    pub fn read_char(&mut self) -> (r: BinaryResult<char>)
        ensures
            match r {
                Ok(c) => {
                    &&& old(self).has(0, 4)
                    &&& is_scalar_value(old(self).next_code())
                    &&& c as u32 == old(self).next_code()
                    &&& final(self).consumed(old(self), 4)
                },
                Err(e) => {
                    ||| final(self).read_failed(old(self), 0, 4, e)
                    ||| {
                        &&& old(self).has(0, 4)
                        &&& !is_scalar_value(old(self).next_code())
                        &&& e == BinaryError::InvalidCharacter
                        &&& final(self).consumed(old(self), 4)
                    }
                },
            },
    {
        let code = self.read_u32()?;
        decode_char(code)
    }

    /// Whether the size guard lets a length of `len` pass.
    pub open spec fn allows(&self, len: usize) -> bool {
        guarded(len, self.options().max_buffer_size) is Ok
    }

    /// Read bytes from the stream into a buffer. A `length` above the
    /// configured maximum is refused before anything is read.
    pub fn read_bytes(&mut self, length: usize) -> (r: BinaryResult<Vec<u8>>)
        ensures
            match r {
                Ok(bytes) => {
                    &&& old(self).allows(length)
                    &&& old(self).has(0, length as nat)
                    &&& bytes@ == old(self).upcoming(0, length as nat)
                    &&& final(self).consumed(old(self), length as nat)
                },
                Err(e) => if old(self).allows(length) {
                    final(self).read_failed(old(self), 0, length as nat, e)
                } else {
                    &&& guarded(length, old(self).options().max_buffer_size) == Err::<
                        (),
                        BinaryError,
                    >(e)
                    &&& final(self).stream() == old(self).stream()
                    &&& final(self).options() == old(self).options()
                },
            },
    {
        match guard_size(length, self.options.max_buffer_size) {
            Ok(_) => self.take(length),
            Err(e) => Err(e),
        }
    }

    /// The length that the string at the cursor announces.
    pub open spec fn string_length(&self) -> usize {
        self.next_unsigned(STRING_PREFIX_WIDTH as nat) as usize
    }

    /// The bytes of the string at the cursor, behind its length field.
    pub open spec fn string_body(&self) -> Seq<u8> {
        self.upcoming(STRING_PREFIX_WIDTH as nat, self.string_length() as nat)
    }

    /// Whether `self` is what is left of `before` when reading a string
    /// failed with `error`: the length field could not be read; or it was
    /// read and is above the configured maximum; or the bytes that it
    /// announces could not be read; or they were read and are not UTF-8.
    pub open spec fn string_failed(&self, before: &Self, error: BinaryError) -> bool {
        let width = STRING_PREFIX_WIDTH as nat;
        let length = before.string_length();
        ||| self.read_failed(before, 0, width, error)
        ||| {
            &&& before.has(0, width)
            &&& !before.allows(length)
            &&& guarded(length, before.options().max_buffer_size) == Err::<(), BinaryError>(
                error,
            )
            &&& self.consumed(before, width)
        }
        ||| {
            &&& before.has(0, width)
            &&& before.allows(length)
            &&& self.read_failed(before, width, length as nat, error)
        }
        ||| {
            &&& before.has(0, width)
            &&& before.allows(length)
            &&& before.has(width, length as nat)
            &&& !valid_utf8(before.string_body())
            &&& error == (BinaryError::InvalidUtf8 { length })
            &&& self.consumed(before, (width + length) as nat)
        }
    }

    /// Read a length-prefixed `String` from the stream.
    pub fn read_string(&mut self) -> (r: BinaryResult<String>)
        ensures
            match r {
                Ok(text) => {
                    &&& old(self).has(0, STRING_PREFIX_WIDTH as nat)
                    &&& old(self).allows(old(self).string_length())
                    &&& old(self).has(STRING_PREFIX_WIDTH as nat, old(self).string_length() as nat)
                    &&& valid_utf8(old(self).string_body())
                    &&& text@ == decode_utf8(old(self).string_body())
                    &&& final(self).consumed(
                        old(self),
                        (STRING_PREFIX_WIDTH + old(self).string_length()) as nat,
                    )
                },
                Err(e) => final(self).string_failed(old(self), e),
            },
    {
        let field = self.take(STRING_PREFIX_WIDTH)?;
        let length =
            announced_length(self.options.endian, field.as_slice(), self.options.max_buffer_size)?;
        let bytes = self.take(length)?;
        decode_text(bytes)
    }
}

} // verus!
