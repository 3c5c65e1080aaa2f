//! Types that write themselves to a writer and read themselves from a reader.
use crate::endian::{to_signed, to_unsigned, wire_bytes, wire_value, word_width, Endian};
use crate::error::{BinaryError, BinaryResult};
use crate::options::Options;
use crate::reader::BinaryReader;
use crate::stream::memory::MemoryStream;
use crate::stream::slice::SliceStream;
use crate::stream::{lemma_overwrite_twice, overwrite, ReadStream, SeekStream, WriteStream};
use crate::text::{bool_byte, is_scalar_value, string_image, STRING_PREFIX_WIDTH};
use crate::writer::BinaryWriter;
use vstd::prelude::*;
use vstd::utf8::{decode_utf8, encode_utf8, valid_utf8};

verus! {

/// Trait for encoding to binary.
pub trait Encode {
    /// The bytes that stand for the value in the given byte order. Nothing
    /// is known of them unless the type says what they are.
    open spec fn image(&self, endian: Endian) -> Seq<u8> {
        arbitrary()
    }

    /// Encode self into the binary writer: on success the writer holds the
    /// value's image where its cursor was, and its cursor stands behind it.
    fn encode<W: WriteStream>(&self, writer: &mut BinaryWriter<W>) -> (r: BinaryResult<()>)
        ensures
            final(writer).options() == old(writer).options(),
            r is Ok ==> final(writer).wrote(old(writer), self.image(old(writer).options().endian)),
    ;
}

/// Trait for decoding from binary.
pub trait Decode {
    /// Whether the value is what `bytes` stand for in the given byte order.
    /// Nothing is known of this unless the type says when it holds.
    open spec fn parsed_from(&self, bytes: Seq<u8>, endian: Endian) -> bool {
        arbitrary()
    }

    /// Decode from the binary reader into self: on success the value is
    /// what the bytes between the old and the new cursor stand for.
    fn decode<R: ReadStream>(&mut self, reader: &mut BinaryReader<R>) -> (r: BinaryResult<()>)
        ensures
            final(reader).options() == old(reader).options(),
            final(reader).data() == old(reader).data(),
            r is Ok ==> {
                &&& old(reader).offset() <= final(reader).offset() <= old(reader).data().len()
                &&& final(self).parsed_from(
                    old(reader).data().subrange(
                        old(reader).offset() as int,
                        final(reader).offset() as int,
                    ),
                    old(reader).options().endian,
                )
            },
    ;
}

impl Encode for u8 {
    open spec fn image(&self, endian: Endian) -> Seq<u8> {
        wire_bytes(endian, *self as nat, 1)
    }

    fn encode<W: WriteStream>(&self, writer: &mut BinaryWriter<W>) -> (r: BinaryResult<()>)
        ensures
            r matches Err(e) ==> final(writer).write_failed(old(writer), Seq::empty(), 1, e),
    {
        writer.write_u8(*self)?;
        Ok(())
    }
}

impl Decode for u8 {
    open spec fn parsed_from(&self, bytes: Seq<u8>, endian: Endian) -> bool {
        bytes.len() == 1 && wire_value(endian, bytes) == *self
    }

    fn decode<R: ReadStream>(&mut self, reader: &mut BinaryReader<R>) -> (r: BinaryResult<()>)
        ensures
            r is Ok ==> final(reader).consumed(old(reader), 1),
            r matches Err(e) ==> final(reader).read_failed(old(reader), 0, 1, e) && *final(self)
                == *old(self),
    {
        *self = reader.read_u8()?;
        Ok(())
    }
}

impl Encode for u16 {
    open spec fn image(&self, endian: Endian) -> Seq<u8> {
        wire_bytes(endian, *self as nat, 2)
    }

    fn encode<W: WriteStream>(&self, writer: &mut BinaryWriter<W>) -> (r: BinaryResult<()>)
        ensures
            r matches Err(e) ==> final(writer).write_failed(old(writer), Seq::empty(), 2, e),
    {
        writer.write_u16(*self)?;
        Ok(())
    }
}

impl Decode for u16 {
    open spec fn parsed_from(&self, bytes: Seq<u8>, endian: Endian) -> bool {
        bytes.len() == 2 && wire_value(endian, bytes) == *self
    }

    fn decode<R: ReadStream>(&mut self, reader: &mut BinaryReader<R>) -> (r: BinaryResult<()>)
        ensures
            r is Ok ==> final(reader).consumed(old(reader), 2),
            r matches Err(e) ==> final(reader).read_failed(old(reader), 0, 2, e) && *final(self)
                == *old(self),
    {
        *self = reader.read_u16()?;
        Ok(())
    }
}

impl Encode for u32 {
    open spec fn image(&self, endian: Endian) -> Seq<u8> {
        wire_bytes(endian, *self as nat, 4)
    }

    fn encode<W: WriteStream>(&self, writer: &mut BinaryWriter<W>) -> (r: BinaryResult<()>)
        ensures
            r matches Err(e) ==> final(writer).write_failed(old(writer), Seq::empty(), 4, e),
    {
        writer.write_u32(*self)?;
        Ok(())
    }
}

impl Decode for u32 {
    open spec fn parsed_from(&self, bytes: Seq<u8>, endian: Endian) -> bool {
        bytes.len() == 4 && wire_value(endian, bytes) == *self
    }

    fn decode<R: ReadStream>(&mut self, reader: &mut BinaryReader<R>) -> (r: BinaryResult<()>)
        ensures
            r is Ok ==> final(reader).consumed(old(reader), 4),
            r matches Err(e) ==> final(reader).read_failed(old(reader), 0, 4, e) && *final(self)
                == *old(self),
    {
        *self = reader.read_u32()?;
        Ok(())
    }
}

impl Encode for u64 {
    open spec fn image(&self, endian: Endian) -> Seq<u8> {
        wire_bytes(endian, *self as nat, 8)
    }

    fn encode<W: WriteStream>(&self, writer: &mut BinaryWriter<W>) -> (r: BinaryResult<()>)
        ensures
            r matches Err(e) ==> final(writer).write_failed(old(writer), Seq::empty(), 8, e),
    {
        writer.write_u64(*self)?;
        Ok(())
    }
}

impl Decode for u64 {
    open spec fn parsed_from(&self, bytes: Seq<u8>, endian: Endian) -> bool {
        bytes.len() == 8 && wire_value(endian, bytes) == *self
    }

    fn decode<R: ReadStream>(&mut self, reader: &mut BinaryReader<R>) -> (r: BinaryResult<()>)
        ensures
            r is Ok ==> final(reader).consumed(old(reader), 8),
            r matches Err(e) ==> final(reader).read_failed(old(reader), 0, 8, e) && *final(self)
                == *old(self),
    {
        *self = reader.read_u64()?;
        Ok(())
    }
}

impl Encode for u128 {
    open spec fn image(&self, endian: Endian) -> Seq<u8> {
        wire_bytes(endian, *self as nat, 16)
    }

    fn encode<W: WriteStream>(&self, writer: &mut BinaryWriter<W>) -> (r: BinaryResult<()>)
        ensures
            r matches Err(e) ==> final(writer).write_failed(old(writer), Seq::empty(), 16, e),
    {
        writer.write_u128(*self)?;
        Ok(())
    }
}

impl Decode for u128 {
    open spec fn parsed_from(&self, bytes: Seq<u8>, endian: Endian) -> bool {
        bytes.len() == 16 && wire_value(endian, bytes) == *self
    }

    fn decode<R: ReadStream>(&mut self, reader: &mut BinaryReader<R>) -> (r: BinaryResult<()>)
        ensures
            r is Ok ==> final(reader).consumed(old(reader), 16),
            r matches Err(e) ==> final(reader).read_failed(old(reader), 0, 16, e) && *final(self)
                == *old(self),
    {
        *self = reader.read_u128()?;
        Ok(())
    }
}

impl Encode for usize {
    open spec fn image(&self, endian: Endian) -> Seq<u8> {
        wire_bytes(endian, *self as nat, word_width())
    }

    fn encode<W: WriteStream>(&self, writer: &mut BinaryWriter<W>) -> (r: BinaryResult<()>)
        ensures
            r matches Err(e) ==> final(writer).write_failed(
                old(writer),
                Seq::empty(),
                word_width(),
                e,
            ),
    {
        writer.write_usize(*self)?;
        Ok(())
    }
}

impl Decode for usize {
    open spec fn parsed_from(&self, bytes: Seq<u8>, endian: Endian) -> bool {
        bytes.len() == word_width() && wire_value(endian, bytes) == *self
    }

    fn decode<R: ReadStream>(&mut self, reader: &mut BinaryReader<R>) -> (r: BinaryResult<()>)
        ensures
            r is Ok ==> final(reader).consumed(old(reader), word_width()),
            r matches Err(e) ==> final(reader).read_failed(old(reader), 0, word_width(), e)
                && *final(self) == *old(self),
    {
        *self = reader.read_usize()?;
        Ok(())
    }
}

impl Encode for i8 {
    open spec fn image(&self, endian: Endian) -> Seq<u8> {
        wire_bytes(endian, to_unsigned(*self as int, 1), 1)
    }

    fn encode<W: WriteStream>(&self, writer: &mut BinaryWriter<W>) -> (r: BinaryResult<()>)
        ensures
            r matches Err(e) ==> final(writer).write_failed(old(writer), Seq::empty(), 1, e),
    {
        writer.write_i8(*self)?;
        Ok(())
    }
}

impl Decode for i8 {
    open spec fn parsed_from(&self, bytes: Seq<u8>, endian: Endian) -> bool {
        bytes.len() == 1 && to_signed(wire_value(endian, bytes), 1) == *self
    }

    fn decode<R: ReadStream>(&mut self, reader: &mut BinaryReader<R>) -> (r: BinaryResult<()>)
        ensures
            r is Ok ==> final(reader).consumed(old(reader), 1),
            r matches Err(e) ==> final(reader).read_failed(old(reader), 0, 1, e) && *final(self)
                == *old(self),
    {
        *self = reader.read_i8()?;
        Ok(())
    }
}

impl Encode for i16 {
    open spec fn image(&self, endian: Endian) -> Seq<u8> {
        wire_bytes(endian, to_unsigned(*self as int, 2), 2)
    }

    fn encode<W: WriteStream>(&self, writer: &mut BinaryWriter<W>) -> (r: BinaryResult<()>)
        ensures
            r matches Err(e) ==> final(writer).write_failed(old(writer), Seq::empty(), 2, e),
    {
        writer.write_i16(*self)?;
        Ok(())
    }
}

impl Decode for i16 {
    open spec fn parsed_from(&self, bytes: Seq<u8>, endian: Endian) -> bool {
        bytes.len() == 2 && to_signed(wire_value(endian, bytes), 2) == *self
    }

    fn decode<R: ReadStream>(&mut self, reader: &mut BinaryReader<R>) -> (r: BinaryResult<()>)
        ensures
            r is Ok ==> final(reader).consumed(old(reader), 2),
            r matches Err(e) ==> final(reader).read_failed(old(reader), 0, 2, e) && *final(self)
                == *old(self),
    {
        *self = reader.read_i16()?;
        Ok(())
    }
}

impl Encode for i32 {
    open spec fn image(&self, endian: Endian) -> Seq<u8> {
        wire_bytes(endian, to_unsigned(*self as int, 4), 4)
    }

    fn encode<W: WriteStream>(&self, writer: &mut BinaryWriter<W>) -> (r: BinaryResult<()>)
        ensures
            r matches Err(e) ==> final(writer).write_failed(old(writer), Seq::empty(), 4, e),
    {
        writer.write_i32(*self)?;
        Ok(())
    }
}

impl Decode for i32 {
    open spec fn parsed_from(&self, bytes: Seq<u8>, endian: Endian) -> bool {
        bytes.len() == 4 && to_signed(wire_value(endian, bytes), 4) == *self
    }

    fn decode<R: ReadStream>(&mut self, reader: &mut BinaryReader<R>) -> (r: BinaryResult<()>)
        ensures
            r is Ok ==> final(reader).consumed(old(reader), 4),
            r matches Err(e) ==> final(reader).read_failed(old(reader), 0, 4, e) && *final(self)
                == *old(self),
    {
        *self = reader.read_i32()?;
        Ok(())
    }
}

impl Encode for i64 {
    open spec fn image(&self, endian: Endian) -> Seq<u8> {
        wire_bytes(endian, to_unsigned(*self as int, 8), 8)
    }

    fn encode<W: WriteStream>(&self, writer: &mut BinaryWriter<W>) -> (r: BinaryResult<()>)
        ensures
            r matches Err(e) ==> final(writer).write_failed(old(writer), Seq::empty(), 8, e),
    {
        writer.write_i64(*self)?;
        Ok(())
    }
}

impl Decode for i64 {
    open spec fn parsed_from(&self, bytes: Seq<u8>, endian: Endian) -> bool {
        bytes.len() == 8 && to_signed(wire_value(endian, bytes), 8) == *self
    }

    fn decode<R: ReadStream>(&mut self, reader: &mut BinaryReader<R>) -> (r: BinaryResult<()>)
        ensures
            r is Ok ==> final(reader).consumed(old(reader), 8),
            r matches Err(e) ==> final(reader).read_failed(old(reader), 0, 8, e) && *final(self)
                == *old(self),
    {
        *self = reader.read_i64()?;
        Ok(())
    }
}

impl Encode for i128 {
    open spec fn image(&self, endian: Endian) -> Seq<u8> {
        wire_bytes(endian, to_unsigned(*self as int, 16), 16)
    }

    fn encode<W: WriteStream>(&self, writer: &mut BinaryWriter<W>) -> (r: BinaryResult<()>)
        ensures
            r matches Err(e) ==> final(writer).write_failed(old(writer), Seq::empty(), 16, e),
    {
        writer.write_i128(*self)?;
        Ok(())
    }
}

impl Decode for i128 {
    open spec fn parsed_from(&self, bytes: Seq<u8>, endian: Endian) -> bool {
        bytes.len() == 16 && to_signed(wire_value(endian, bytes), 16) == *self
    }

    fn decode<R: ReadStream>(&mut self, reader: &mut BinaryReader<R>) -> (r: BinaryResult<()>)
        ensures
            r is Ok ==> final(reader).consumed(old(reader), 16),
            r matches Err(e) ==> final(reader).read_failed(old(reader), 0, 16, e) && *final(self)
                == *old(self),
    {
        *self = reader.read_i128()?;
        Ok(())
    }
}

impl Encode for isize {
    open spec fn image(&self, endian: Endian) -> Seq<u8> {
        wire_bytes(endian, to_unsigned(*self as int, word_width()), word_width())
    }

    fn encode<W: WriteStream>(&self, writer: &mut BinaryWriter<W>) -> (r: BinaryResult<()>)
        ensures
            r matches Err(e) ==> final(writer).write_failed(
                old(writer),
                Seq::empty(),
                word_width(),
                e,
            ),
    {
        writer.write_isize(*self)?;
        Ok(())
    }
}

impl Decode for isize {
    open spec fn parsed_from(&self, bytes: Seq<u8>, endian: Endian) -> bool {
        bytes.len() == word_width() && to_signed(wire_value(endian, bytes), word_width()) == *self
    }

    fn decode<R: ReadStream>(&mut self, reader: &mut BinaryReader<R>) -> (r: BinaryResult<()>)
        ensures
            r is Ok ==> final(reader).consumed(old(reader), word_width()),
            r matches Err(e) ==> final(reader).read_failed(old(reader), 0, word_width(), e)
                && *final(self) == *old(self),
    {
        *self = reader.read_isize()?;
        Ok(())
    }
}

impl Encode for bool {
    open spec fn image(&self, endian: Endian) -> Seq<u8> {
        seq![bool_byte(*self)]
    }

    fn encode<W: WriteStream>(&self, writer: &mut BinaryWriter<W>) -> (r: BinaryResult<()>)
        ensures
            r matches Err(e) ==> final(writer).write_failed(old(writer), Seq::empty(), 1, e),
    {
        writer.write_bool(*self)?;
        Ok(())
    }
}

impl Decode for bool {
    open spec fn parsed_from(&self, bytes: Seq<u8>, endian: Endian) -> bool {
        bytes.len() == 1 && *self == (bytes[0] > 0)
    }

    fn decode<R: ReadStream>(&mut self, reader: &mut BinaryReader<R>) -> (r: BinaryResult<()>)
        ensures
            r is Ok ==> final(reader).consumed(old(reader), 1),
            r matches Err(e) ==> final(reader).read_failed(old(reader), 0, 1, e) && *final(self)
                == *old(self),
    {
        *self = reader.read_bool()?;
        Ok(())
    }
}

impl Encode for char {
    open spec fn image(&self, endian: Endian) -> Seq<u8> {
        wire_bytes(endian, *self as u32 as nat, 4)
    }

    fn encode<W: WriteStream>(&self, writer: &mut BinaryWriter<W>) -> (r: BinaryResult<()>)
        ensures
            r matches Err(e) ==> final(writer).write_failed(old(writer), Seq::empty(), 4, e),
    {
        writer.write_char(*self)?;
        Ok(())
    }
}

impl Decode for char {
    open spec fn parsed_from(&self, bytes: Seq<u8>, endian: Endian) -> bool {
        bytes.len() == 4 && wire_value(endian, bytes) as u32 == *self as u32
    }

    fn decode<R: ReadStream>(&mut self, reader: &mut BinaryReader<R>) -> (r: BinaryResult<()>)
        ensures
            r is Ok ==> final(reader).consumed(old(reader), 4),
            r matches Err(e) ==> {
                &&& *final(self) == *old(self)
                &&& {
                    ||| final(reader).read_failed(old(reader), 0, 4, e)
                    ||| {
                        &&& old(reader).has(0, 4)
                        &&& !is_scalar_value(old(reader).next_code())
                        &&& e == BinaryError::InvalidCharacter
                        &&& final(reader).consumed(old(reader), 4)
                    }
                }
            },
    {
        *self = reader.read_char()?;
        Ok(())
    }
}

impl Encode for String {
    open spec fn image(&self, endian: Endian) -> Seq<u8> {
        string_image(endian, self@)
    }

    fn encode<W: WriteStream>(&self, writer: &mut BinaryWriter<W>) -> (r: BinaryResult<()>)
        ensures
            r is Ok ==> old(writer).allows(encode_utf8(self@).len() as usize),
            r matches Err(e) ==> if old(writer).allows(encode_utf8(self@).len() as usize) {
                ||| final(writer).write_failed(
                    old(writer),
                    Seq::empty(),
                    STRING_PREFIX_WIDTH as nat,
                    e,
                )
                ||| final(writer).write_failed(
                    old(writer),
                    old(writer).string_prefix(self@),
                    encode_utf8(self@).len(),
                    e,
                )
            } else {
                final(writer).refused(old(writer), encode_utf8(self@).len() as usize, e)
            },
    {
        writer.write_string(self.as_str())?;
        Ok(())
    }
}

impl Decode for String {
    open spec fn parsed_from(&self, bytes: Seq<u8>, endian: Endian) -> bool {
        let width = STRING_PREFIX_WIDTH as int;
        &&& bytes.len() >= width
        &&& wire_value(endian, bytes.subrange(0, width)) as usize == bytes.len() - width
        &&& valid_utf8(bytes.subrange(width, bytes.len() as int))
        &&& self@ == decode_utf8(bytes.subrange(width, bytes.len() as int))
    }

    fn decode<R: ReadStream>(&mut self, reader: &mut BinaryReader<R>) -> (r: BinaryResult<()>)
        ensures
            r matches Err(e) ==> final(reader).string_failed(old(reader), e) && *final(self)
                == *old(self),
    {
        let ghost before = *reader;
        *self = reader.read_string()?;
        proof {
            let width = STRING_PREFIX_WIDTH as int;
            let start = before.offset() as int;
            let stop = reader.offset() as int;
            let all = before.data().subrange(start, stop);
            assert(all.subrange(0, width) =~= before.upcoming(0, width as nat));
            assert(all.subrange(width, all.len() as int) =~= before.string_body());
        }
        Ok(())
    }
}

impl<T: Encode> Encode for Option<T> {
    open spec fn image(&self, endian: Endian) -> Seq<u8> {
        match self {
            Some(value) => seq![1u8] + value.image(endian),
            None => seq![0u8],
        }
    }

    fn encode<W: WriteStream>(&self, writer: &mut BinaryWriter<W>) -> (r: BinaryResult<()>)
        ensures
            self is None ==> (r matches Err(e) ==> final(writer).write_failed(
                old(writer),
                Seq::empty(),
                1,
                e,
            )),
    {
        let ghost before = *writer;
        writer.write_bool(self.is_some())?;
        if let Some(value) = self {
            value.encode(writer)?;
            proof {
                lemma_overwrite_twice(
                    before.data(),
                    before.offset(),
                    seq![1u8],
                    value.image(before.options().endian),
                );
            }
        }
        Ok(())
    }
}

impl<T: Decode + Default> Decode for Option<T> {
    open spec fn parsed_from(&self, bytes: Seq<u8>, endian: Endian) -> bool {
        &&& bytes.len() >= 1
        &&& match self {
            Some(value) => bytes[0] > 0 && value.parsed_from(
                bytes.subrange(1, bytes.len() as int),
                endian,
            ),
            None => bytes[0] == 0 && bytes.len() == 1,
        }
    }

    /// Reads the flag, and the value behind it where the flag is set. A flag
    /// of zero leaves the target absent and is owed success wherever the
    /// flag can be read; behind a set flag the value's own `decode` decides,
    /// and the target is present exactly when that succeeded. A failure
    /// leaves the target as it was.
    fn decode<R: ReadStream>(&mut self, reader: &mut BinaryReader<R>) -> (r: BinaryResult<()>)
        ensures
            match r {
                Ok(_) => {
                    &&& old(reader).has(0, 1)
                    &&& *final(self) is Some <==> flag_set(old(reader))
                    &&& *final(self) is None ==> final(reader).consumed(old(reader), 1)
                },
                Err(e) => {
                    &&& *final(self) == *old(self)
                    &&& flag_set(old(reader)) || final(reader).read_failed(old(reader), 0, 1, e)
                },
            },
    {
        let ghost before = *reader;
        let has_value = reader.read_bool()?;
        if has_value {
            let mut value: T = T::default();
            let outcome = value.decode(reader);
            proof {
                if outcome is Ok {
                    let start = before.offset() as int;
                    let stop = reader.offset() as int;
                    let all = before.data().subrange(start, stop);
                    assert(all.subrange(1, all.len() as int) =~= before.data().subrange(
                        start + 1,
                        stop,
                    ));
                }
            }
            keep_present(self, value, outcome)
        } else {
            *self = None;
            Ok(())
        }
    }
}

/// Whether the byte at the cursor of `reader` is there and is a set flag:
/// any byte but zero.
pub open spec fn flag_set<R: ReadStream>(reader: &BinaryReader<R>) -> bool {
    reader.has(0, 1) && reader.data()[reader.offset() as int] > 0
}

/// Settles an optional target once the value behind its flag was decoded
/// with `outcome`: a value that was decoded becomes the target, and a
/// failure is handed on and leaves the target as it was.
pub fn keep_present<T>(
    target: &mut Option<T>,
    value: T,
    outcome: BinaryResult<()>,
) -> (r: BinaryResult<()>)
    ensures
        match outcome {
            Ok(_) => r is Ok && *final(target) == Some(value),
            Err(e) => r == Err::<(), BinaryError>(e) && *final(target) == *old(target),
        },
{
    match outcome {
        Ok(_) => {
            *target = Some(value);
            Ok(())
        },
        Err(e) => Err(e),
    }
}

/// Settles a decoded value with the `outcome` of its decoding: the value
/// where it was decoded, the failure where it was not.
pub fn keep_decoded<T>(value: T, outcome: BinaryResult<()>) -> (r: BinaryResult<T>)
    ensures
        match outcome {
            Ok(_) => r == Ok::<T, BinaryError>(value),
            Err(e) => r == Err::<T, BinaryError>(e),
        },
{
    match outcome {
        Ok(_) => Ok(value),
        Err(e) => Err(e),
    }
}

/// Settles a buffer that a value was encoded into with the `outcome` of the
/// encoding: the bytes that the stream holds where it succeeded, the
/// failure where it did not.
pub fn keep_encoded(stream: MemoryStream, outcome: BinaryResult<()>) -> (r: BinaryResult<Vec<u8>>)
    ensures
        match outcome {
            Ok(_) => r matches Ok(buffer) && buffer@ == stream.data(),
            Err(e) => r == Err::<Vec<u8>, BinaryError>(e),
        },
{
    match outcome {
        Ok(_) => Ok(Vec::from(stream)),
        Err(e) => Err(e),
    }
}

/// Encode to a stream, at its cursor, and flush it. The stream comes back
/// with the outcome.
pub fn encode_stream<T: Encode, S: WriteStream>(encodable: &T, stream: S, options: Options) -> (r: (
    S,
    BinaryResult<()>,
))
    ensures
        r.1 is Ok ==> {
            &&& r.0.data() == overwrite(
                stream.data(),
                stream.offset(),
                encodable.image(options.endian),
            )
            &&& r.0.offset() == stream.offset() + encodable.image(options.endian).len()
            &&& !r.0.buffered()
        },
{
    let mut writer = BinaryWriter::new(stream, options);
    let outcome = match encodable.encode(&mut writer) {
        Ok(_) => writer.flush(),
        Err(e) => Err(e),
    };
    (writer.into_inner(), outcome)
}

/// Decode from a stream, at its cursor, into the default value of `T`. The
/// stream comes back with the outcome.
pub fn decode_stream<T: Decode + Default, S: ReadStream>(stream: S, options: Options) -> (r: (
    S,
    BinaryResult<T>,
))
    ensures
        r.0.data() == stream.data(),
        r.1 matches Ok(value) ==> {
            &&& stream.offset() <= r.0.offset() <= stream.data().len()
            &&& value.parsed_from(
                stream.data().subrange(stream.offset() as int, r.0.offset() as int),
                options.endian,
            )
        },
{
    let mut reader = BinaryReader::new(stream, options);
    let mut decoded: T = T::default();
    let outcome = decoded.decode(&mut reader);
    (reader.into_inner(), keep_decoded(decoded, outcome))
}

/// Encode to a binary buffer: on success the buffer is the value's image.
pub fn encode<T: Encode>(encodable: &T, options: Options) -> (r: BinaryResult<Vec<u8>>)
    ensures
        r matches Ok(buffer) ==> buffer@ == encodable.image(options.endian),
{
    let (stream, outcome) = encode_stream(encodable, MemoryStream::new(), options);
    proof {
        assert(overwrite(Seq::<u8>::empty(), 0, encodable.image(options.endian))
            =~= encodable.image(options.endian));
    }
    keep_encoded(stream, outcome)
}

/// Decode from a binary buffer: on success the value is what a prefix of the
/// buffer stands for.
pub fn decode<T: Decode + Default>(buffer: &[u8], options: Options) -> (r: BinaryResult<T>)
    ensures
        r matches Ok(value) ==> exists|count: int|
            0 <= count <= buffer@.len() && value.parsed_from(
                #[trigger] buffer@.subrange(0, count),
                options.endian,
            ),
{
    let (stream, outcome) = decode_stream::<T, SliceStream>(SliceStream::new(buffer), options);
    outcome
}

} // verus!
