//! Write typed values to a stream.
use crate::endian::{
    encode_unsigned, fits_signed, lemma_pow256_widths, signed_to_raw, to_unsigned, wire_bytes,
    word_bytes, word_width,
};
use crate::error::{BinaryError, BinaryResult};
use crate::options::{guard_size, guarded, Options};
use crate::stream::{lemma_overwrite_twice, overwrite, stream_length, WriteStream};
use crate::text::{
    bool_byte, encode_bool, encode_char, prefix_value, string_header, string_image,
    STRING_PREFIX_WIDTH,
};
use vstd::prelude::*;
use vstd::utf8::encode_utf8;

verus! {

/// Write to a stream.
pub struct BinaryWriter<W: WriteStream> {
    stream: W,
    options: Options,
}

impl<W: WriteStream> BinaryWriter<W> {
    /// The stream that the writer writes.
    pub closed spec fn stream(&self) -> W {
        self.stream
    }

    /// The options that the writer was made with.
    pub closed spec fn options(&self) -> Options {
        self.options
    }

    /// The bytes that the stream holds.
    pub open spec fn data(&self) -> Seq<u8> {
        self.stream().data()
    }

    /// The cursor of the stream.
    pub open spec fn offset(&self) -> nat {
        self.stream().offset()
    }

    /// Whether written bytes still wait in a buffer of the stream.
    pub open spec fn buffered(&self) -> bool {
        self.stream().buffered()
    }

    /// Whether `self` is `before` with `bytes` written at the cursor, and
    /// the cursor behind them.
    pub open spec fn wrote(&self, before: &Self, bytes: Seq<u8>) -> bool {
        &&& self.options() == before.options()
        &&& self.data() == overwrite(before.data(), before.offset(), bytes)
        &&& self.offset() == before.offset() + bytes.len()
    }

    /// Whether `self` is `before` with the unsigned `value` written at the
    /// cursor in `width` bytes, and the cursor `width` bytes further on.
    pub open spec fn wrote_unsigned(&self, before: &Self, value: nat, width: nat) -> bool {
        &&& self.wrote(before, wire_bytes(before.options().endian, value, width))
        &&& self.offset() == before.offset() + width
    }

    /// Whether `self` is what is left of `before` when, after `done` was
    /// written, a write of `count` bytes failed with `error`. A reliable
    /// stream fails only for want of room, with the error that it names for
    /// that, and then holds `done` and no more.
    pub open spec fn write_failed(
        &self,
        before: &Self,
        done: Seq<u8>,
        count: nat,
        error: BinaryError,
    ) -> bool {
        &&& self.options() == before.options()
        &&& error == BinaryError::Io || error == W::refusal()
        &&& W::reliable() ==> {
            &&& error == W::refusal()
            &&& !W::admits(before.offset() + done.len(), count)
            &&& self.wrote(before, done)
        }
    }

    /// Whether the size guard lets a length of `len` pass.
    pub open spec fn allows(&self, len: usize) -> bool {
        guarded(len, self.options().max_buffer_size) is Ok
    }

    /// Whether `self` is `before`, untouched, after the size guard refused a
    /// length of `len` with `error`.
    pub open spec fn refused(&self, before: &Self, len: usize, error: BinaryError) -> bool {
        &&& guarded(len, before.options().max_buffer_size) == Err::<(), BinaryError>(error)
        &&& self.stream() == before.stream()
        &&& self.options() == before.options()
    }

    /// Create a binary writer with the given options.
    pub fn new(stream: W, options: Options) -> (r: Self)
        ensures
            r.stream() == stream,
            r.options() == options,
    {
        BinaryWriter { stream, options }
    }

    /// Give up the writer for the stream that it writes.
    pub fn into_inner(self) -> (r: W)
        ensures
            r == self.stream(),
    {
        self.stream
    }

    /// Seek to a position, counted from the start of the stream.
    pub fn seek(&mut self, to: u64) -> (r: BinaryResult<u64>)
        ensures
            final(self).options() == old(self).options(),
            final(self).data() == old(self).data(),
            r matches Ok(at) ==> at == to && final(self).offset() == to,
            r matches Err(e) ==> e == BinaryError::Io,
            W::reliable() ==> r is Ok,
    {
        self.stream.seek(to)
    }

    /// Get the current seek position.
    pub fn tell(&mut self) -> (r: BinaryResult<u64>)
        ensures
            final(self).options() == old(self).options(),
            final(self).data() == old(self).data(),
            final(self).offset() == old(self).offset(),
            r matches Ok(at) ==> at == old(self).offset(),
            r matches Err(e) ==> e == BinaryError::Io,
            W::reliable() ==> r is Ok,
    {
        self.stream.tell()
    }

    /// Get the current seek position; another name for `tell`.
    pub fn stream_position(&mut self) -> (r: BinaryResult<u64>)
        ensures
            final(self).options() == old(self).options(),
            final(self).data() == old(self).data(),
            final(self).offset() == old(self).offset(),
            r matches Ok(at) ==> at == old(self).offset(),
            r matches Err(e) ==> e == BinaryError::Io,
            W::reliable() ==> r is Ok,
    {
        self.tell()
    }

    /// Get the length of this stream. The cursor stays where it is.
    pub fn len(&mut self) -> (r: BinaryResult<u64>)
        ensures
            final(self).options() == old(self).options(),
            final(self).data() == old(self).data(),
            final(self).offset() == old(self).offset(),
            r matches Ok(n) ==> n == old(self).data().len(),
            r matches Err(e) ==> e == BinaryError::Io,
            W::reliable() ==> r is Ok,
    {
        stream_length(&mut self.stream)
    }

    /// Flush the write buffer: after a flush that succeeded the stream
    /// holds no written bytes back.
    pub fn flush(&mut self) -> (r: BinaryResult<()>)
        ensures
            final(self).options() == old(self).options(),
            final(self).data() == old(self).data(),
            final(self).offset() == old(self).offset(),
            r is Ok ==> !final(self).buffered(),
            r matches Err(e) ==> e == BinaryError::Io,
            W::reliable() ==> r is Ok,
    {
        self.stream.flush()
    }

    /// Writes all of `bytes`; a write that the stream cuts short is an `Io`
    /// failure.
    fn put(&mut self, bytes: &[u8]) -> (r: BinaryResult<usize>)
        ensures
            match r {
                Ok(n) => n == bytes@.len() && final(self).wrote(old(self), bytes@),
                Err(e) => final(self).write_failed(old(self), Seq::empty(), bytes@.len(), e),
            },
    {
        let n = self.stream.write(bytes)?;
        if n != bytes.len() {
            Err(BinaryError::Io)
        } else {
            proof {
                assert(bytes@.subrange(0, n as int) =~= bytes@);
            }
            Ok(n)
        }
    }

    /// Writes the `width` low-order bytes of `value`.
    fn write_unsigned(&mut self, value: u128, width: usize) -> (r: BinaryResult<usize>)
        requires
            width <= 16,
        ensures
            match r {
                Ok(n) => n == width && final(self).wrote_unsigned(
                    old(self),
                    value as nat,
                    width as nat,
                ),
                Err(e) => final(self).write_failed(old(self), Seq::empty(), width as nat, e),
            },
    {
        let bytes = encode_unsigned(self.options.endian, value, width);
        self.put(bytes.as_slice())
    }

    /// Writes `value` in two's complement of `width` bytes.
    fn write_signed(&mut self, value: i128, width: usize) -> (r: BinaryResult<usize>)
        requires
            1 <= width <= 16,
            fits_signed(value as int, width as nat),
        ensures
            match r {
                Ok(n) => n == width && final(self).wrote_unsigned(
                    old(self),
                    to_unsigned(value as int, width as nat),
                    width as nat,
                ),
                Err(e) => final(self).write_failed(old(self), Seq::empty(), width as nat, e),
            },
    {
        let raw = signed_to_raw(value, width);
        self.write_unsigned(raw, width)
    }

    /// Write a `u8` to the stream.
    pub fn write_u8(&mut self, value: u8) -> (r: BinaryResult<usize>)
        ensures
            match r {
                Ok(n) => n == 1 && final(self).wrote_unsigned(old(self), value as nat, 1),
                Err(e) => final(self).write_failed(old(self), Seq::empty(), 1, e),
            },
    {
        self.write_unsigned(value as u128, 1)
    }

    /// Write an `i8` to the stream.
    pub fn write_i8(&mut self, value: i8) -> (r: BinaryResult<usize>)
        ensures
            match r {
                Ok(n) => n == 1 && final(self).wrote_unsigned(
                    old(self),
                    to_unsigned(value as int, 1),
                    1,
                ),
                Err(e) => final(self).write_failed(old(self), Seq::empty(), 1, e),
            },
    {
        proof {
            lemma_pow256_widths();
        }
        self.write_signed(value as i128, 1)
    }

    /// Write a `u16` to the stream.
    pub fn write_u16(&mut self, value: u16) -> (r: BinaryResult<usize>)
        ensures
            match r {
                Ok(n) => n == 2 && final(self).wrote_unsigned(old(self), value as nat, 2),
                Err(e) => final(self).write_failed(old(self), Seq::empty(), 2, e),
            },
    {
        self.write_unsigned(value as u128, 2)
    }

    /// Write an `i16` to the stream.
    pub fn write_i16(&mut self, value: i16) -> (r: BinaryResult<usize>)
        ensures
            match r {
                Ok(n) => n == 2 && final(self).wrote_unsigned(
                    old(self),
                    to_unsigned(value as int, 2),
                    2,
                ),
                Err(e) => final(self).write_failed(old(self), Seq::empty(), 2, e),
            },
    {
        proof {
            lemma_pow256_widths();
        }
        self.write_signed(value as i128, 2)
    }

    /// Write a `u32` to the stream.
    pub fn write_u32(&mut self, value: u32) -> (r: BinaryResult<usize>)
        ensures
            match r {
                Ok(n) => n == 4 && final(self).wrote_unsigned(old(self), value as nat, 4),
                Err(e) => final(self).write_failed(old(self), Seq::empty(), 4, e),
            },
    {
        self.write_unsigned(value as u128, 4)
    }

    /// Write an `i32` to the stream.
    pub fn write_i32(&mut self, value: i32) -> (r: BinaryResult<usize>)
        ensures
            match r {
                Ok(n) => n == 4 && final(self).wrote_unsigned(
                    old(self),
                    to_unsigned(value as int, 4),
                    4,
                ),
                Err(e) => final(self).write_failed(old(self), Seq::empty(), 4, e),
            },
    {
        proof {
            lemma_pow256_widths();
        }
        self.write_signed(value as i128, 4)
    }

    /// Write a `u64` to the stream.
    pub fn write_u64(&mut self, value: u64) -> (r: BinaryResult<usize>)
        ensures
            match r {
                Ok(n) => n == 8 && final(self).wrote_unsigned(old(self), value as nat, 8),
                Err(e) => final(self).write_failed(old(self), Seq::empty(), 8, e),
            },
    {
        self.write_unsigned(value as u128, 8)
    }

    /// Write an `i64` to the stream.
    pub fn write_i64(&mut self, value: i64) -> (r: BinaryResult<usize>)
        ensures
            match r {
                Ok(n) => n == 8 && final(self).wrote_unsigned(
                    old(self),
                    to_unsigned(value as int, 8),
                    8,
                ),
                Err(e) => final(self).write_failed(old(self), Seq::empty(), 8, e),
            },
    {
        proof {
            lemma_pow256_widths();
        }
        self.write_signed(value as i128, 8)
    }

    /// Write a `u128` to the stream.
    pub fn write_u128(&mut self, value: u128) -> (r: BinaryResult<usize>)
        ensures
            match r {
                Ok(n) => n == 16 && final(self).wrote_unsigned(old(self), value as nat, 16),
                Err(e) => final(self).write_failed(old(self), Seq::empty(), 16, e),
            },
    {
        self.write_unsigned(value as u128, 16)
    }

    /// Write an `i128` to the stream.
    pub fn write_i128(&mut self, value: i128) -> (r: BinaryResult<usize>)
        ensures
            match r {
                Ok(n) => n == 16 && final(self).wrote_unsigned(
                    old(self),
                    to_unsigned(value as int, 16),
                    16,
                ),
                Err(e) => final(self).write_failed(old(self), Seq::empty(), 16, e),
            },
    {
        proof {
            lemma_pow256_widths();
        }
        self.write_signed(value as i128, 16)
    }

    /// Write an `f32` to the stream, given as its IEEE-754 bit pattern.
    pub fn write_f32(&mut self, bits: u32) -> (r: BinaryResult<usize>)
        ensures
            match r {
                Ok(n) => n == 4 && final(self).wrote_unsigned(old(self), bits as nat, 4),
                Err(e) => final(self).write_failed(old(self), Seq::empty(), 4, e),
            },
    {
        self.write_unsigned(bits as u128, 4)
    }

    /// Write an `f64` to the stream, given as its IEEE-754 bit pattern.
    pub fn write_f64(&mut self, bits: u64) -> (r: BinaryResult<usize>)
        ensures
            match r {
                Ok(n) => n == 8 && final(self).wrote_unsigned(old(self), bits as nat, 8),
                Err(e) => final(self).write_failed(old(self), Seq::empty(), 8, e),
            },
    {
        self.write_unsigned(bits as u128, 8)
    }

    /// Write a `usize` to the stream, in as many bytes as the machine's word
    /// has.
    pub fn write_usize(&mut self, value: usize) -> (r: BinaryResult<usize>)
        ensures
            match r {
                Ok(n) => n == word_width() && final(self).wrote_unsigned(
                    old(self),
                    value as nat,
                    word_width(),
                ),
                Err(e) => final(self).write_failed(old(self), Seq::empty(), word_width(), e),
            },
    {
        self.write_unsigned(value as u128, word_bytes())
    }

    /// Write an `isize` to the stream, in as many bytes as the machine's
    /// word has.
    pub fn write_isize(&mut self, value: isize) -> (r: BinaryResult<usize>)
        ensures
            match r {
                Ok(n) => n == word_width() && final(self).wrote_unsigned(
                    old(self),
                    to_unsigned(value as int, word_width()),
                    word_width(),
                ),
                Err(e) => final(self).write_failed(old(self), Seq::empty(), word_width(), e),
            },
    {
        self.write_signed(value as i128, word_bytes())
    }

    /// Write a `bool` to the stream: one byte, one for `true` and zero for
    /// `false`.
    pub fn write_bool(&mut self, value: bool) -> (r: BinaryResult<usize>)
        ensures
            match r {
                Ok(n) => n == 1 && final(self).wrote(old(self), seq![bool_byte(value)]),
                Err(e) => final(self).write_failed(old(self), Seq::empty(), 1, e),
            },
    {
        let byte: Vec<u8> = vec![encode_bool(value)];
        proof {
            assert(byte@ =~= seq![bool_byte(value)]);
        }
        self.put(byte.as_slice())
    }

    /// Write a character to the stream: its code point in four bytes.
    pub fn write_char(&mut self, value: char) -> (r: BinaryResult<usize>)
        ensures
            match r {
                Ok(n) => n == 4 && final(self).wrote_unsigned(old(self), value as u32 as nat, 4),
                Err(e) => final(self).write_failed(old(self), Seq::empty(), 4, e),
            },
    {
        self.write_unsigned(encode_char(value) as u128, 4)
    }

    /// Write a byte buffer to the stream, as it is and without a length. A
    /// buffer above the configured maximum is refused before anything is
    /// written.
    pub fn write_bytes(&mut self, data: &[u8]) -> (r: BinaryResult<usize>)
        ensures
            match r {
                Ok(n) => {
                    &&& old(self).allows(data@.len() as usize)
                    &&& n == data@.len()
                    &&& final(self).wrote(old(self), data@)
                },
                Err(e) => if old(self).allows(data@.len() as usize) {
                    final(self).write_failed(old(self), Seq::empty(), data@.len(), e)
                } else {
                    final(self).refused(old(self), data@.len() as usize, e)
                },
            },
    {
        match guard_size(data.len(), self.options.max_buffer_size) {
            Ok(_) => self.put(data),
            Err(e) => Err(e),
        }
    }

    /// The length field that precedes the string `text`.
    pub open spec fn string_prefix(&self, text: Seq<char>) -> Seq<u8> {
        wire_bytes(
            self.options().endian,
            prefix_value(encode_utf8(text).len()),
            STRING_PREFIX_WIDTH as nat,
        )
    }

    /// Write a length-prefixed `String` to the stream, and report the number
    /// of bytes behind the length. A string above the configured maximum is
    /// refused before anything is written.
    pub fn write_string(&mut self, value: &str) -> (r: BinaryResult<usize>)
        ensures
            match r {
                Ok(n) => {
                    &&& old(self).allows(encode_utf8(value@).len() as usize)
                    &&& n == encode_utf8(value@).len()
                    &&& final(self).wrote(
                        old(self),
                        string_image(old(self).options().endian, value@),
                    )
                },
                Err(e) => if old(self).allows(encode_utf8(value@).len() as usize) {
                    ||| final(self).write_failed(
                        old(self),
                        Seq::empty(),
                        STRING_PREFIX_WIDTH as nat,
                        e,
                    )
                    ||| final(self).write_failed(
                        old(self),
                        old(self).string_prefix(value@),
                        encode_utf8(value@).len(),
                        e,
                    )
                } else {
                    final(self).refused(old(self), encode_utf8(value@).len() as usize, e)
                },
            },
    {
        let bytes = value.as_bytes();
        let field = string_header(self.options.endian, bytes.len(), self.options.max_buffer_size)?;
        let ghost prefix = self.string_prefix(value@);
        self.put(field.as_slice())?;
        proof {
            lemma_overwrite_twice(old(self).data(), old(self).offset(), prefix, bytes@);
        }
        self.put(bytes)
    }
}

} // verus!
