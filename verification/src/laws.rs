//! What holds between writing and reading, for every stream and every value.
use crate::endian::{
    fits_signed, lemma_pow256_widths, lemma_signed_round_trip, lemma_wire_round_trip, pow256,
    to_unsigned, wire_bytes, word_width,
};
use crate::codec::{Decode, Encode};
use crate::endian::Endian;
use crate::error::BinaryError;
use crate::options::guarded;
use crate::reader::BinaryReader;
use crate::stream::{available, lemma_overwrite_twice, overwrite, ReadStream, WriteStream};
use crate::text::{bool_byte, is_scalar_value, prefix_value, string_image, STRING_PREFIX_WIDTH};
use crate::writer::BinaryWriter;
use vstd::prelude::*;
use vstd::utf8::{
    char_u32_cast, decode_utf8, encode_utf8, encode_utf8_decode_utf8, encode_utf8_valid_utf8,
    valid_utf8,
};

verus! {

/// Whether `reader` looks at what a writer left: it holds the bytes of
/// `after`, stands where `before` stood, and has the options of both.
pub open spec fn rereads<W: WriteStream, R: ReadStream>(
    reader: &BinaryReader<R>,
    before: &BinaryWriter<W>,
    after: &BinaryWriter<W>,
) -> bool {
    &&& reader.data() == after.data()
    &&& reader.offset() == before.offset()
    &&& reader.options() == before.options()
}

/// The bytes that were written at an offset are the bytes that lie there.
pub proof fn lemma_read_back(data: Seq<u8>, at: nat, bytes: Seq<u8>)
    requires
        bytes.len() > 0 || at <= data.len(),
    ensures
        available(overwrite(data, at, bytes), at, bytes.len()),
        overwrite(data, at, bytes).subrange(at as int, (at + bytes.len()) as int) == bytes,
{
    assert(overwrite(data, at, bytes).subrange(at as int, (at + bytes.len()) as int) =~= bytes);
}

/// A write that ends inside the data leaves the total length as it was, and
/// leaves every byte outside the written range as it was.
pub proof fn lemma_overlapping_write(data: Seq<u8>, at: nat, bytes: Seq<u8>)
    requires
        at + bytes.len() <= data.len(),
    ensures
        overwrite(data, at, bytes).len() == data.len(),
        overwrite(data, at, bytes).subrange(at as int, (at + bytes.len()) as int) == bytes,
        forall|i: int|
            0 <= i < data.len() && !(at <= i < at + bytes.len()) ==> overwrite(data, at, bytes)[i]
                == data[i],
{
    lemma_read_back(data, at, bytes);
}

/// Writing over what was written replaces it: of two writes of equal length
/// at one offset only the second shows.
pub proof fn lemma_second_write_wins(data: Seq<u8>, at: nat, first: Seq<u8>, second: Seq<u8>)
    requires
        first.len() == second.len(),
    ensures
        overwrite(overwrite(data, at, first), at, second) == overwrite(data, at, second),
{
    assert(overwrite(overwrite(data, at, first), at, second) =~= overwrite(data, at, second));
}

/// The backpatch pattern: a placeholder, then a payload, then the length
/// field written over the placeholder, leave what the length field followed
/// by the payload leaves. The payload's length is the distance between the
/// cursor behind the payload and the cursor behind the placeholder.
pub proof fn lemma_backpatch(
    data: Seq<u8>,
    at: nat,
    placeholder: Seq<u8>,
    payload: Seq<u8>,
    field: Seq<u8>,
)
    requires
        placeholder.len() == field.len(),
        field.len() > 0,
    ensures
        overwrite(
            overwrite(overwrite(data, at, placeholder), at + placeholder.len(), payload),
            at,
            field,
        ) == overwrite(data, at, field + payload),
        overwrite(data, at, field + payload).subrange(at as int, (at + field.len()) as int)
            == field,
        overwrite(data, at, field + payload).subrange(
            (at + field.len()) as int,
            (at + field.len() + payload.len()) as int,
        ) == payload,
        (at + placeholder.len() + payload.len()) - (at + placeholder.len()) == payload.len(),
{
    let patched = overwrite(
        overwrite(overwrite(data, at, placeholder), at + placeholder.len(), payload),
        at,
        field,
    );
    let direct = overwrite(data, at, field + payload);
    lemma_overwrite_twice(data, at, placeholder, payload);
    assert(patched =~= direct);
    assert(direct.subrange(at as int, (at + field.len()) as int) =~= field);
    assert(direct.subrange(
        (at + field.len()) as int,
        (at + field.len() + payload.len()) as int,
    ) =~= payload);
}

/// Whether `after` is `before` with the cursor placed at `to`.
pub open spec fn sought<W: WriteStream>(
    after: &BinaryWriter<W>,
    before: &BinaryWriter<W>,
    to: nat,
) -> bool {
    &&& after.options() == before.options()
    &&& after.data() == before.data()
    &&& after.offset() == to
}

/// The backpatch pattern on a writer. A placeholder of four bytes is
/// written, then a payload; the payload's length is taken as the distance
/// between the cursor behind the payload and the cursor behind the
/// placeholder; the writer seeks back, writes that length over the
/// placeholder and seeks forward again. Then the writer stands behind the
/// payload and holds what the length followed by the payload would have
/// left, and a reader that starts where the writer started reads the
/// payload's length and then the payload.
pub proof fn lemma_backpatch_round_trip<W: WriteStream, R: ReadStream>(
    reader: &BinaryReader<R>,
    start: &BinaryWriter<W>,
    held: &BinaryWriter<W>,
    filled: &BinaryWriter<W>,
    back: &BinaryWriter<W>,
    patched: &BinaryWriter<W>,
    done: &BinaryWriter<W>,
    placeholder: Seq<u8>,
    payload: Seq<u8>,
)
    requires
        placeholder.len() == 4,
        payload.len() < 0x1_0000_0000,
        held.wrote(start, placeholder),
        filled.wrote(held, payload),
        sought(back, filled, start.offset()),
        patched.wrote(
            back,
            wire_bytes(
                start.options().endian,
                (filled.offset() - held.offset()) as nat,
                4,
            ),
        ),
        sought(done, patched, filled.offset()),
        rereads(reader, start, done),
    ensures
        filled.offset() - held.offset() == payload.len(),
        done.wrote(start, wire_bytes(start.options().endian, payload.len(), 4) + payload),
        reader.has(0, 4),
        reader.next_unsigned(4) == payload.len(),
        reader.has(4, payload.len()),
        reader.upcoming(4, payload.len()) == payload,
{
    let endian = start.options().endian;
    let field = wire_bytes(endian, payload.len(), 4);
    lemma_pow256_widths();
    lemma_wire_round_trip(endian, payload.len(), 4);
    lemma_backpatch(start.data(), start.offset(), placeholder, payload, field);
    let whole = overwrite(start.data(), start.offset(), field + payload);
    assert(done.data() == whole);
    assert(reader.upcoming(0, 4) =~= field);
    assert(reader.upcoming(4, payload.len()) =~= payload);
}

/// Overlapping writes on a writer: where bytes were written, the writer
/// sought back to where it started and as many other bytes were written,
/// the stream is as long as after the first write, and a reader that
/// starts where the writer started reads the second bytes.
pub proof fn lemma_overlapping_round_trip<W: WriteStream, R: ReadStream>(
    reader: &BinaryReader<R>,
    start: &BinaryWriter<W>,
    first_done: &BinaryWriter<W>,
    back: &BinaryWriter<W>,
    second_done: &BinaryWriter<W>,
    first: Seq<u8>,
    second: Seq<u8>,
)
    requires
        first.len() == second.len(),
        first.len() > 0,
        first_done.wrote(start, first),
        sought(back, first_done, start.offset()),
        second_done.wrote(back, second),
        rereads(reader, start, second_done),
    ensures
        second_done.data().len() == first_done.data().len(),
        second_done.offset() == first_done.offset(),
        second_done.wrote(start, second),
        reader.has(0, second.len()),
        reader.upcoming(0, second.len()) == second,
{
    lemma_second_write_wins(start.data(), start.offset(), first, second);
    lemma_read_back(start.data(), start.offset(), second);
    assert(reader.upcoming(0, second.len()) =~= second);
}

/// An unsigned value that was written in `width` bytes is read back as it
/// was, in the same byte order.
pub proof fn lemma_unsigned_round_trip<W: WriteStream, R: ReadStream>(
    reader: &BinaryReader<R>,
    before: &BinaryWriter<W>,
    after: &BinaryWriter<W>,
    value: nat,
    width: nat,
)
    requires
        width >= 1,
        value < pow256(width),
        after.wrote(before, wire_bytes(before.options().endian, value, width)),
        rereads(reader, before, after),
    ensures
        reader.has(0, width),
        reader.next_unsigned(width) == value,
{
    let image = wire_bytes(before.options().endian, value, width);
    lemma_wire_round_trip(before.options().endian, value, width);
    lemma_read_back(before.data(), before.offset(), image);
    assert(reader.upcoming(0, width) =~= image);
}

/// A signed value that was written in `width` bytes is read back as it was,
/// in the same byte order.
pub proof fn lemma_signed_value_round_trip<W: WriteStream, R: ReadStream>(
    reader: &BinaryReader<R>,
    before: &BinaryWriter<W>,
    after: &BinaryWriter<W>,
    value: int,
    width: nat,
)
    requires
        width >= 1,
        fits_signed(value, width),
        after.wrote(
            before,
            wire_bytes(before.options().endian, to_unsigned(value, width), width),
        ),
        rereads(reader, before, after),
    ensures
        reader.has(0, width),
        reader.next_signed(width) == value,
{
    lemma_signed_round_trip(value, width);
    lemma_unsigned_round_trip(reader, before, after, to_unsigned(value, width), width);
}

/// The machine integers fill their widths exactly: every value of each
/// type fits the type's width, so each is read back as it was written.
pub proof fn lemma_machine_integers_fit()
    ensures
        u8::MAX + 1 == pow256(1),
        u16::MAX + 1 == pow256(2),
        u32::MAX + 1 == pow256(4),
        u64::MAX + 1 == pow256(8),
        u128::MAX + 1 == pow256(16),
        usize::MAX + 1 == pow256(word_width()),
        fits_signed(i8::MIN as int, 1) && fits_signed(i8::MAX as int, 1),
        fits_signed(i16::MIN as int, 2) && fits_signed(i16::MAX as int, 2),
        fits_signed(i32::MIN as int, 4) && fits_signed(i32::MAX as int, 4),
        fits_signed(i64::MIN as int, 8) && fits_signed(i64::MAX as int, 8),
        fits_signed(i128::MIN as int, 16) && fits_signed(i128::MAX as int, 16),
        fits_signed(isize::MIN as int, word_width()) && fits_signed(
            isize::MAX as int,
            word_width(),
        ),
{
    lemma_pow256_widths();
    assert(word_width() == 4 || word_width() == 8);
}

/// A boolean that was written is read back as it was.
pub proof fn lemma_bool_round_trip<W: WriteStream, R: ReadStream>(
    reader: &BinaryReader<R>,
    before: &BinaryWriter<W>,
    after: &BinaryWriter<W>,
    value: bool,
)
    requires
        after.wrote(before, seq![bool_byte(value)]),
        rereads(reader, before, after),
    ensures
        reader.has(0, 1),
        (reader.data()[reader.offset() as int] > 0) == value,
{
    lemma_read_back(before.data(), before.offset(), seq![bool_byte(value)]);
    assert(reader.upcoming(0, 1)[0] == bool_byte(value));
}

/// A character that was written is read back as it was: its code point is
/// a scalar value, so the read does not refuse it.
pub proof fn lemma_char_round_trip<W: WriteStream, R: ReadStream>(
    reader: &BinaryReader<R>,
    before: &BinaryWriter<W>,
    after: &BinaryWriter<W>,
    value: char,
)
    requires
        after.wrote(before, wire_bytes(before.options().endian, value as u32 as nat, 4)),
        rereads(reader, before, after),
    ensures
        reader.has(0, 4),
        reader.next_code() == value as u32,
        is_scalar_value(reader.next_code()),
{
    lemma_pow256_widths();
    lemma_unsigned_round_trip(reader, before, after, value as u32 as nat, 4);
}

/// A byte buffer that was written is read back as it was. An empty buffer
/// is read back only where the cursor stood inside the data.
pub proof fn lemma_bytes_round_trip<W: WriteStream, R: ReadStream>(
    reader: &BinaryReader<R>,
    before: &BinaryWriter<W>,
    after: &BinaryWriter<W>,
    bytes: Seq<u8>,
)
    requires
        bytes.len() > 0 || before.offset() <= before.data().len(),
        after.wrote(before, bytes),
        rereads(reader, before, after),
    ensures
        reader.has(0, bytes.len()),
        reader.upcoming(0, bytes.len()) == bytes,
{
    lemma_read_back(before.data(), before.offset(), bytes);
    assert(reader.upcoming(0, bytes.len()) =~= bytes);
}

/// A string that was written is read back as it was, where its length in
/// bytes fits the length field: the length field reads as that length, the
/// size guard that let the write pass lets the read pass, and the bytes
/// behind the field are UTF-8 that spells the string.
pub proof fn lemma_string_round_trip<W: WriteStream, R: ReadStream>(
    reader: &BinaryReader<R>,
    before: &BinaryWriter<W>,
    after: &BinaryWriter<W>,
    text: Seq<char>,
)
    requires
        encode_utf8(text).len() < 0x1_0000_0000,
        encode_utf8(text).len() <= usize::MAX,
        before.allows(encode_utf8(text).len() as usize),
        after.wrote(before, string_image(before.options().endian, text)),
        rereads(reader, before, after),
    ensures
        reader.has(0, STRING_PREFIX_WIDTH as nat),
        reader.string_length() == encode_utf8(text).len(),
        reader.allows(reader.string_length()),
        reader.has(STRING_PREFIX_WIDTH as nat, reader.string_length() as nat),
        valid_utf8(reader.string_body()),
        decode_utf8(reader.string_body()) == text,
{
    let endian = before.options().endian;
    let body = encode_utf8(text);
    let prefix = wire_bytes(endian, prefix_value(body.len()), 4);
    let image = string_image(endian, text);
    lemma_pow256_widths();
    lemma_wire_round_trip(endian, prefix_value(body.len()), 4);
    lemma_read_back(before.data(), before.offset(), image);
    assert(image.subrange(0, 4) =~= prefix);
    assert(image.subrange(4, image.len() as int) =~= body);
    assert(reader.upcoming(0, 4) =~= image.subrange(0, 4));
    assert(reader.string_length() == body.len());
    assert(reader.string_body() =~= image.subrange(4, image.len() as int));
    encode_utf8_valid_utf8(text);
    encode_utf8_decode_utf8(text);
}

/// Behind the last byte nothing can be read: a reader whose cursor stands at
/// the end of the data, or past it, has no value of any width before it, so
/// that every read of a fixed-width value there fails with
/// `UnexpectedEndOfData` and moves nothing.
pub proof fn lemma_nothing_behind_the_end<R: ReadStream>(
    before: &BinaryReader<R>,
    after: &BinaryReader<R>,
    width: nat,
    error: BinaryError,
)
    requires
        width >= 1,
        before.offset() >= before.data().len(),
        after.read_failed(before, 0, width, error),
    ensures
        !before.has(0, width),
        error == BinaryError::UnexpectedEndOfData,
        after.consumed(before, 0),
{
}

/// A length above the ceiling is refused whatever the stream holds, and a
/// length within it, or any length where no ceiling is set, passes.
pub proof fn lemma_guard(len: usize, max: Option<usize>)
    ensures
        guarded(len, max) is Err <==> (max matches Some(limit) && len > limit),
        guarded(len, max) matches Err(e) ==> e == (BinaryError::BufferTooLarge {
            requested: len,
            limit: max.unwrap(),
        }),
{
}

/// Every integer is what its own image stands for, and nothing else is:
/// decoding what was encoded gives the value back, for every value of every
/// width, in either byte order.
pub proof fn lemma_integer_images_parse(
    endian: Endian,
    a: (u8, u16, u32, u64, u128, usize),
    b: (i8, i16, i32, i64, i128, isize),
)
    ensures
        a.0.parsed_from(a.0.image(endian), endian),
        a.1.parsed_from(a.1.image(endian), endian),
        a.2.parsed_from(a.2.image(endian), endian),
        a.3.parsed_from(a.3.image(endian), endian),
        a.4.parsed_from(a.4.image(endian), endian),
        a.5.parsed_from(a.5.image(endian), endian),
        b.0.parsed_from(b.0.image(endian), endian),
        b.1.parsed_from(b.1.image(endian), endian),
        b.2.parsed_from(b.2.image(endian), endian),
        b.3.parsed_from(b.3.image(endian), endian),
        b.4.parsed_from(b.4.image(endian), endian),
        b.5.parsed_from(b.5.image(endian), endian),
        forall|other: u8| other.parsed_from(a.0.image(endian), endian) ==> other == a.0,
        forall|other: u16| other.parsed_from(a.1.image(endian), endian) ==> other == a.1,
        forall|other: u32| other.parsed_from(a.2.image(endian), endian) ==> other == a.2,
        forall|other: u64| other.parsed_from(a.3.image(endian), endian) ==> other == a.3,
        forall|other: u128| other.parsed_from(a.4.image(endian), endian) ==> other == a.4,
        forall|other: usize| other.parsed_from(a.5.image(endian), endian) ==> other == a.5,
        forall|other: i8| other.parsed_from(b.0.image(endian), endian) ==> other == b.0,
        forall|other: i16| other.parsed_from(b.1.image(endian), endian) ==> other == b.1,
        forall|other: i32| other.parsed_from(b.2.image(endian), endian) ==> other == b.2,
        forall|other: i64| other.parsed_from(b.3.image(endian), endian) ==> other == b.3,
        forall|other: i128| other.parsed_from(b.4.image(endian), endian) ==> other == b.4,
        forall|other: isize| other.parsed_from(b.5.image(endian), endian) ==> other == b.5,
{
    lemma_pow256_widths();
    assert(word_width() == 4 || word_width() == 8);
    lemma_wire_round_trip(endian, a.0 as nat, 1);
    lemma_wire_round_trip(endian, a.1 as nat, 2);
    lemma_wire_round_trip(endian, a.2 as nat, 4);
    lemma_wire_round_trip(endian, a.3 as nat, 8);
    lemma_wire_round_trip(endian, a.4 as nat, 16);
    lemma_wire_round_trip(endian, a.5 as nat, word_width());
    lemma_signed_round_trip(b.0 as int, 1);
    lemma_signed_round_trip(b.1 as int, 2);
    lemma_signed_round_trip(b.2 as int, 4);
    lemma_signed_round_trip(b.3 as int, 8);
    lemma_signed_round_trip(b.4 as int, 16);
    lemma_signed_round_trip(b.5 as int, word_width());
    lemma_wire_round_trip(endian, to_unsigned(b.0 as int, 1), 1);
    lemma_wire_round_trip(endian, to_unsigned(b.1 as int, 2), 2);
    lemma_wire_round_trip(endian, to_unsigned(b.2 as int, 4), 4);
    lemma_wire_round_trip(endian, to_unsigned(b.3 as int, 8), 8);
    lemma_wire_round_trip(endian, to_unsigned(b.4 as int, 16), 16);
    lemma_wire_round_trip(endian, to_unsigned(b.5 as int, word_width()), word_width());
}

/// A boolean, a character and a string are what their own images stand for,
/// and nothing else is; of a string this holds where its length in bytes
/// fits the length field.
pub proof fn lemma_text_images_parse(endian: Endian, flag: bool, letter: char, text: String)
    requires
        encode_utf8(text@).len() < 0x1_0000_0000,
    ensures
        flag.parsed_from(flag.image(endian), endian),
        letter.parsed_from(letter.image(endian), endian),
        text.parsed_from(text.image(endian), endian),
        forall|other: bool| other.parsed_from(flag.image(endian), endian) ==> other == flag,
        forall|other: char| other.parsed_from(letter.image(endian), endian) ==> other == letter,
        forall|other: String|
            other.parsed_from(text.image(endian), endian) ==> #[trigger] other@ == text@,
{
    lemma_pow256_widths();
    lemma_wire_round_trip(endian, letter as u32 as nat, 4);
    assert forall|other: char| other.parsed_from(letter.image(endian), endian) implies other
        == letter by {
        let code = letter as u32;
        char_u32_cast(letter, code);
        char_u32_cast(other, code);
    }
    let body = encode_utf8(text@);
    let prefix = wire_bytes(endian, prefix_value(body.len()), 4);
    let image = text.image(endian);
    lemma_wire_round_trip(endian, prefix_value(body.len()), 4);
    assert(image.subrange(0, 4) =~= prefix);
    assert(image.subrange(4, image.len() as int) =~= body);
    encode_utf8_valid_utf8(text@);
    encode_utf8_decode_utf8(text@);
}

/// An optional value is what its own image stands for, where the value
/// inside it is.
pub proof fn lemma_option_image_parses<T: Encode + Decode + Default>(
    value: Option<T>,
    endian: Endian,
)
    requires
        value matches Some(inner) ==> inner.parsed_from(inner.image(endian), endian),
    ensures
        value.parsed_from(value.image(endian), endian),
{
    match value {
        Some(inner) => {
            let image = value.image(endian);
            assert(image.subrange(1, image.len() as int) =~= inner.image(endian));
        },
        None => {},
    }
}

} // verus!
