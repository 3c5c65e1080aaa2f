//! Read and write binary data on seekable byte streams.
//!
//! Values are laid out byte-exactly: fixed-width integers in the configured
//! byte order, booleans as one byte, characters as their code point in four
//! bytes, and strings as a 32-bit byte count followed by UTF-8.
pub mod codec;
pub mod endian;
pub mod error;
pub mod laws;
pub mod options;
pub mod reader;
pub mod stream;
pub mod text;
pub mod writer;

pub use codec::{decode, decode_stream, encode, encode_stream, Decode, Encode};
pub use endian::Endian;
pub use error::{BinaryError, BinaryResult};
pub use reader::BinaryReader;
pub use options::{guard_size, Options};
pub use writer::BinaryWriter;
pub use stream::memory::MemoryStream;
pub use stream::slice::SliceStream;
pub use stream::{stream_length, ReadStream, SeekStream, WriteStream};
