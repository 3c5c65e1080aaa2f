//! Options for reading and writing.
use crate::endian::Endian;
use crate::error::{BinaryError, BinaryResult};
use vstd::prelude::*;
use vstd::std_specs::convert::FromSpecImpl;

verus! {

/// Options for reading and writing.
#[derive(Clone, Copy, Debug)]
pub struct Options {
    /// The endian type.
    pub endian: Endian,
    /// Maximum buffer size for strings and byte slices; `None` sets no bound.
    pub max_buffer_size: Option<usize>,
}

impl Default for Options {
    /// Little endian, and no bound on buffer sizes.
    fn default() -> (r: Self)
        ensures
            r == (Options { endian: Endian::Little, max_buffer_size: None }),
    {
        Options { endian: Endian::Little, max_buffer_size: None }
    }
}

impl From<Endian> for Options {
    fn from(endian: Endian) -> (r: Options) {
        Options { endian, max_buffer_size: None }
    }
}

impl FromSpecImpl<Endian> for Options {
    open spec fn obeys_from_spec() -> bool {
        true
    }

    open spec fn from_spec(endian: Endian) -> Options {
        Options { endian, max_buffer_size: None }
    }
}

/// What the size guard answers for a length of `len` under the ceiling `max`.
pub open spec fn guarded(len: usize, max: Option<usize>) -> BinaryResult<()> {
    match max {
        Some(limit) if len > limit => Err(
            BinaryError::BufferTooLarge { requested: len, limit },
        ),
        _ => Ok(()),
    }
}

/// Rejects a length above the ceiling, before anything is allocated, read or
/// written for it.
pub fn guard_size(len: usize, max: Option<usize>) -> (r: BinaryResult<()>)
    ensures
        r == guarded(len, max),
{
    match max {
        Some(limit) => {
            if len > limit {
                Err(BinaryError::BufferTooLarge { requested: len, limit })
            } else {
                Ok(())
            }
        },
        None => Ok(()),
    }
}

} // verus!
