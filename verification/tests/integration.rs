use binary_stream::{
    BinaryReader, BinaryWriter, Endian, MemoryStream, Options, SeekStream, SliceStream,
};

#[test]
fn lib_borrow_test() {
    let mut stream = MemoryStream::new();

    let mut writer = BinaryWriter::new(&mut stream, Options::from(Endian::Big));
    writer.write_u8(8).unwrap();
    writer.write_u8(*&8).unwrap();
    writer.write_i8(-8).unwrap();
    writer.write_i8(*&-8).unwrap();

    writer.write_u16(16).unwrap();
    writer.write_u16(*&16).unwrap();
    writer.write_i16(-16).unwrap();
    writer.write_i16(*&-16).unwrap();

    writer.write_u32(32).unwrap();
    writer.write_u32(*&32).unwrap();
    writer.write_i32(-32).unwrap();
    writer.write_i32(*&-32).unwrap();

    writer.write_u64(64).unwrap();
    writer.write_u64(*&64).unwrap();
    writer.write_i64(-64).unwrap();
    writer.write_i64(*&-64).unwrap();

    writer.write_u128(128).unwrap();
    writer.write_u128(*&128).unwrap();
    writer.write_i128(-128).unwrap();
    writer.write_i128(*&-128).unwrap();

    writer.write_usize(64).unwrap();
    writer.write_usize(*&64).unwrap();
    writer.write_isize(-64).unwrap();
    writer.write_isize(*&-64).unwrap();

    writer.write_char('c').unwrap();
    writer.write_char(*&'c').unwrap();

    writer.write_bool(true).unwrap();
    writer.write_bool(*&true).unwrap();

    writer.write_string("foo").unwrap();
    writer.write_string(&String::from("foo")).unwrap();

    let buf: Vec<u8> = vec![1, 2, 3, 4];
    let exp: Vec<u8> = buf.clone(); // for assertion

    writer.write_bytes(&buf).unwrap();
    writer.write_bytes(buf.as_slice()).unwrap();

    let buffer: Vec<u8> = stream.into();
    let mut stream = MemoryStream::from(buffer);
    let mut reader = BinaryReader::new(&mut stream, Options::from(Endian::Big));

    let value = (reader.read_u8().unwrap(), reader.read_u8().unwrap());
    assert_eq!((8, 8), value);
    let value = (reader.read_i8().unwrap(), reader.read_i8().unwrap());
    assert_eq!((-8, -8), value);

    let value = (reader.read_u16().unwrap(), reader.read_u16().unwrap());
    assert_eq!((16, 16), value);
    let value = (reader.read_i16().unwrap(), reader.read_i16().unwrap());
    assert_eq!((-16, -16), value);

    let value = (reader.read_u32().unwrap(), reader.read_u32().unwrap());
    assert_eq!((32, 32), value);
    let value = (reader.read_i32().unwrap(), reader.read_i32().unwrap());
    assert_eq!((-32, -32), value);

    let value = (reader.read_u64().unwrap(), reader.read_u64().unwrap());
    assert_eq!((64, 64), value);
    let value = (reader.read_i64().unwrap(), reader.read_i64().unwrap());
    assert_eq!((-64, -64), value);

    let value = (reader.read_u128().unwrap(), reader.read_u128().unwrap());
    assert_eq!((128, 128), value);
    let value = (reader.read_i128().unwrap(), reader.read_i128().unwrap());
    assert_eq!((-128, -128), value);

    let value = (reader.read_usize().unwrap(), reader.read_usize().unwrap());
    assert_eq!((64, 64), value);
    let value = (reader.read_isize().unwrap(), reader.read_isize().unwrap());
    assert_eq!((-64, -64), value);

    let value = (reader.read_char().unwrap(), reader.read_char().unwrap());
    assert_eq!(('c', 'c'), value);

    let value = (reader.read_bool().unwrap(), reader.read_bool().unwrap());
    assert_eq!((true, true), value);

    let value = (reader.read_string().unwrap(), reader.read_string().unwrap());
    assert_eq!((String::from("foo"), String::from("foo")), value);

    let value = (reader.read_bytes(4).unwrap(), reader.read_bytes(4).unwrap());
    assert_eq!((exp.clone(), exp), value);
}

#[test]
fn lib_slice_test() {
    let mut stream = MemoryStream::new();

    let mut writer = BinaryWriter::new(&mut stream, Options::from(Endian::Big));
    writer.write_u32(42).unwrap();
    writer.write_string("foo").unwrap();
    writer.write_char('b').unwrap();

    let buffer: Vec<u8> = stream.into();

    assert_eq!(15, buffer.len());

    let mut stream = SliceStream::new(&buffer);
    let mut reader = BinaryReader::new(&mut stream, Options::from(Endian::Big));

    reader.seek(0).unwrap();
    let value = reader.read_u32().unwrap();
    assert_eq!(42, value);

    assert_eq!(4, reader.tell().unwrap());

    let value = reader.read_string().unwrap();
    assert_eq!("foo", &value);

    let value = reader.read_char().unwrap();
    assert_eq!('b', value);

    assert_eq!(15, buffer.len());
}

#[test]
fn lib_seek_test() {
    let temp: f32 = 50.0;
    let seek_loc = 5u64;

    let mut file = MemoryStream::new();
    let mut writer = BinaryWriter::new(&mut file, Default::default());

    writer.write_bytes(&[16; 32].to_vec()).unwrap();
    writer.seek(seek_loc).unwrap();
    assert_eq!(writer.tell().unwrap(), seek_loc);
    writer.write_f32(temp.to_bits()).unwrap();

    let mut reader = BinaryReader::new(&mut file, Default::default());
    reader.seek(seek_loc).unwrap();
    assert_eq!(reader.tell().unwrap(), seek_loc);
    let read_temp = f32::from_bits(reader.read_f32().unwrap());

    assert_eq!(temp, read_temp);
}

#[test]
fn lib_read_write_test_f64() {
    let temp: f64 = f64::MAX;

    let mut file = MemoryStream::new();
    let mut writer = BinaryWriter::new(&mut file, Default::default());

    writer.write_f64(temp.to_bits()).unwrap();

    writer.seek(0).unwrap();
    let mut reader = BinaryReader::new(&mut file, Default::default());

    let read_temp = f64::from_bits(reader.read_f64().unwrap());
    assert_eq!(temp, read_temp);
}

#[test]
fn lib_read_write_test_f32() {
    let temp: f32 = f32::MAX;

    let mut file = MemoryStream::new();
    let mut writer = BinaryWriter::new(&mut file, Default::default());

    writer.write_f32(temp.to_bits()).unwrap();

    writer.seek(0).unwrap();
    let mut reader = BinaryReader::new(&mut file, Default::default());

    let read_temp = f32::from_bits(reader.read_f32().unwrap());
    assert_eq!(temp, read_temp);
}

#[test]
fn lib_read_write_test_isize() {
    let temp: isize = isize::MAX;

    let mut file = MemoryStream::new();
    let mut writer = BinaryWriter::new(&mut file, Default::default());

    writer.write_isize(temp).unwrap();

    writer.seek(0).unwrap();
    let mut reader = BinaryReader::new(&mut file, Default::default());

    let read_temp = reader.read_isize().unwrap();
    assert_eq!(temp, read_temp);
}

#[test]
fn lib_read_write_test_usize() {
    let temp: usize = usize::MAX;

    let mut file = MemoryStream::new();
    let mut writer = BinaryWriter::new(&mut file, Default::default());

    writer.write_usize(temp).unwrap();

    writer.seek(0).unwrap();
    let mut reader = BinaryReader::new(&mut file, Default::default());

    let read_temp = reader.read_usize().unwrap();
    assert_eq!(temp, read_temp);
}

#[test]
fn lib_read_write_test_i64() {
    let temp: i64 = i64::MAX;

    let mut file = MemoryStream::new();
    let mut writer = BinaryWriter::new(&mut file, Default::default());

    writer.write_i64(temp).unwrap();

    writer.seek(0).unwrap();
    let mut reader = BinaryReader::new(&mut file, Default::default());

    let read_temp = reader.read_i64().unwrap();
    assert_eq!(temp, read_temp);
}

#[test]
fn lib_read_write_test_i128() {
    let temp: i128 = i128::MAX;

    let mut file = MemoryStream::new();
    let mut writer = BinaryWriter::new(&mut file, Default::default());

    writer.write_i128(temp).unwrap();

    writer.seek(0).unwrap();
    let mut reader = BinaryReader::new(&mut file, Default::default());

    let read_temp = reader.read_i128().unwrap();
    assert_eq!(temp, read_temp);
}

#[test]
fn lib_read_write_test_i32() {
    let temp: i32 = i32::MAX;

    let mut file = MemoryStream::new();
    let mut writer = BinaryWriter::new(&mut file, Default::default());

    writer.write_i32(temp).unwrap();

    writer.seek(0).unwrap();
    let mut reader = BinaryReader::new(&mut file, Default::default());

    let read_temp = reader.read_i32().unwrap();
    assert_eq!(temp, read_temp);
}

#[test]
fn lib_read_write_test_i16() {
    let temp: i16 = i16::MAX;

    let mut file = MemoryStream::new();
    let mut writer = BinaryWriter::new(&mut file, Default::default());

    writer.write_i16(temp).unwrap();

    writer.seek(0).unwrap();
    let mut reader = BinaryReader::new(&mut file, Default::default());

    let read_temp = reader.read_i16().unwrap();
    assert_eq!(temp, read_temp);
}

#[test]
fn lib_read_write_test_i8() {
    let temp: i8 = i8::MAX;

    let mut file = MemoryStream::new();
    let mut writer = BinaryWriter::new(&mut file, Default::default());

    writer.write_i8(temp).unwrap();

    writer.seek(0).unwrap();
    let mut reader = BinaryReader::new(&mut file, Default::default());

    let read_temp = reader.read_i8().unwrap();
    assert_eq!(temp, read_temp);
}

#[test]
fn lib_read_write_test_u64() {
    let temp: u64 = u64::MAX;

    let mut file = MemoryStream::new();
    let mut writer = BinaryWriter::new(&mut file, Default::default());

    writer.write_u64(temp).unwrap();

    writer.seek(0).unwrap();
    let mut reader = BinaryReader::new(&mut file, Default::default());

    let read_temp = reader.read_u64().unwrap();
    assert_eq!(temp, read_temp);
}

#[test]
fn lib_read_write_test_u128() {
    let temp: u128 = u128::MAX;

    let mut file = MemoryStream::new();
    let mut writer = BinaryWriter::new(&mut file, Default::default());

    writer.write_u128(temp).unwrap();

    writer.seek(0).unwrap();
    let mut reader = BinaryReader::new(&mut file, Default::default());

    let read_temp = reader.read_u128().unwrap();
    assert_eq!(temp, read_temp);
}

#[test]
fn lib_read_write_test_u32() {
    let temp: u32 = u32::MAX;

    let mut file = MemoryStream::new();
    let mut writer = BinaryWriter::new(&mut file, Default::default());

    writer.write_u32(temp).unwrap();

    writer.seek(0).unwrap();
    let mut reader = BinaryReader::new(&mut file, Default::default());

    let read_temp = reader.read_u32().unwrap();
    assert_eq!(temp, read_temp);
}

#[test]
fn lib_read_write_test_u16() {
    let temp: u16 = u16::MAX;

    let mut file = MemoryStream::new();
    let mut writer = BinaryWriter::new(&mut file, Default::default());

    writer.write_u16(temp).unwrap();

    writer.seek(0).unwrap();
    let mut reader = BinaryReader::new(&mut file, Default::default());

    let read_temp = reader.read_u16().unwrap();
    assert_eq!(temp, read_temp);
}

#[test]
fn lib_read_write_test_u8() {
    let temp: u8 = u8::MAX;

    let mut file = MemoryStream::new();
    let mut writer = BinaryWriter::new(&mut file, Default::default());

    writer.write_u8(temp).unwrap();

    writer.seek(0).unwrap();
    let mut reader = BinaryReader::new(&mut file, Default::default());

    let read_temp = reader.read_u8().unwrap();
    assert_eq!(temp, read_temp);
}

#[test]
fn lib_read_write_bytes() {
    let count = 20;

    let temp = vec![16; count];

    let mut file = MemoryStream::new();
    let mut writer = BinaryWriter::new(&mut file, Default::default());

    writer.write_bytes(&temp.clone()).unwrap();

    writer.seek(0).unwrap();
    let mut reader = BinaryReader::new(&mut file, Default::default());

    let read_temp = reader.read_bytes(count).unwrap();
    assert_eq!(temp, read_temp);
}

#[test]
fn lib_read_out_of_range() {
    let mut file = MemoryStream::new();
    let mut writer = BinaryWriter::new(&mut file, Default::default());
    writer.write_f32(5.0f32.to_bits()).unwrap();

    writer.seek(0).unwrap();
    let mut reader = BinaryReader::new(&mut file, Default::default());
    reader.read_f32().unwrap();

    assert!(reader.read_f32().is_err());
}

#[test]
fn lib_read_write_string() {
    let temp = "Hello World";

    let mut file = MemoryStream::new();
    let mut writer = BinaryWriter::new(&mut file, Default::default());
    writer.write_string(&temp.to_string()).unwrap();

    writer.seek(0).unwrap();
    let mut reader = BinaryReader::new(&mut file, Default::default());
    let string = reader.read_string().unwrap();
    assert_eq!(temp, string);
}

#[test]
fn lib_read_write_test_bool() {
    let positive = true;
    let negative = false;

    let mut file = MemoryStream::new();
    let mut writer = BinaryWriter::new(&mut file, Default::default());

    writer.write_bool(positive).unwrap();
    writer.write_bool(negative).unwrap();

    writer.seek(0).unwrap();
    let mut reader = BinaryReader::new(&mut file, Default::default());

    let read_positive = reader.read_bool().unwrap();
    let read_negative = reader.read_bool().unwrap();
    assert_eq!(positive, read_positive);
    assert_eq!(negative, read_negative);
}

#[test]
fn lib_read_write_from_memorystream() {
    let value_a: f32 = 3.0;
    let value_b: f32 = 5.0;
    let mut stream = MemoryStream::new();

    let mut writer = BinaryWriter::new(&mut stream, Default::default());
    writer.write_f32(value_a.to_bits()).unwrap();
    writer.write_f32(value_b.to_bits()).unwrap();

    let mut reader = BinaryReader::new(&mut stream, Default::default());
    reader.seek(0).unwrap();
    let value = f32::from_bits(reader.read_f32().unwrap());
    assert_eq!(value_a, value);
    let value = f32::from_bits(reader.read_f32().unwrap());
    assert_eq!(value_b, value);
}

#[test]
fn lib_write_to_memorystream_overlapping() {
    let mut stream = MemoryStream::new();

    let mut writer = BinaryWriter::new(&mut stream, Default::default());
    writer.write_f32(1.0f32.to_bits()).unwrap();
    writer.write_f32(2.0f32.to_bits()).unwrap();
    writer.write_f32(3.0f32.to_bits()).unwrap();

    writer.seek(0).unwrap();
    writer.write_f32(4.0f32.to_bits()).unwrap();
    writer.write_f32(5.0f32.to_bits()).unwrap();
    writer.write_f32(6.0f32.to_bits()).unwrap();

    let mut reader = BinaryReader::new(&mut stream, Default::default());
    reader.seek(0).unwrap();
    let value = f32::from_bits(reader.read_f32().unwrap());
    assert_eq!(4.0, value);
    let value = f32::from_bits(reader.read_f32().unwrap());
    assert_eq!(5.0, value);
    let value = f32::from_bits(reader.read_f32().unwrap());
    assert_eq!(6.0, value);
}

#[test]
fn lib_write_to_filestream_overlapping() {
    let mut file = MemoryStream::new();
    let mut writer = BinaryWriter::new(&mut file, Default::default());
    writer.write_f32(1.0f32.to_bits()).unwrap();
    writer.write_f32(2.0f32.to_bits()).unwrap();
    writer.write_f32(3.0f32.to_bits()).unwrap();

    writer.seek(0).unwrap();
    writer.write_f32(4.0f32.to_bits()).unwrap();
    writer.write_f32(5.0f32.to_bits()).unwrap();
    writer.write_f32(6.0f32.to_bits()).unwrap();

    writer.seek(0).unwrap();
    let mut reader = BinaryReader::new(&mut file, Default::default());
    let value = f32::from_bits(reader.read_f32().unwrap());
    assert_eq!(4.0, value);
    let value = f32::from_bits(reader.read_f32().unwrap());
    assert_eq!(5.0, value);
    let value = f32::from_bits(reader.read_f32().unwrap());
    assert_eq!(6.0, value);

    assert_eq!(12, file.len().unwrap());
}
