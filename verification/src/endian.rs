//! Byte order and the layout of fixed-width integers.
use vstd::prelude::*;

verus! {

/// Byte order of multi-byte values.
#[derive(Clone, Copy, Debug, PartialEq, Eq, Structural)]
pub enum Endian {
    /// Most significant byte first.
    Big,
    /// Least significant byte first.
    Little,
}

impl Default for Endian {
    /// Little endian unless stated otherwise.
    fn default() -> (r: Self)
        ensures
            r == Endian::Little,
    {
        Endian::Little
    }
}

/// 256 to the power `n`: the number of values that `n` bytes can hold.
pub open spec fn pow256(n: nat) -> nat
    decreases n,
{
    if n == 0 {
        1
    } else {
        256 * pow256((n - 1) as nat)
    }
}

/// The `width` low-order base-256 digits of `value`, least significant first.
pub open spec fn le_bytes(value: nat, width: nat) -> Seq<u8>
    decreases width,
{
    if width == 0 {
        Seq::empty()
    } else {
        seq![(value % 256) as u8] + le_bytes(value / 256, (width - 1) as nat)
    }
}

/// The number whose base-256 digits are `bytes`, least significant first.
pub open spec fn le_value(bytes: Seq<u8>) -> nat
    decreases bytes.len(),
{
    if bytes.len() == 0 {
        0
    } else {
        bytes[0] as nat + 256 * le_value(bytes.drop_first())
    }
}

/// The wire image of an unsigned `value` in `width` bytes.
pub open spec fn wire_bytes(endian: Endian, value: nat, width: nat) -> Seq<u8> {
    match endian {
        Endian::Little => le_bytes(value, width),
        Endian::Big => le_bytes(value, width).reverse(),
    }
}

/// The unsigned value that `bytes` stand for on the wire.
pub open spec fn wire_value(endian: Endian, bytes: Seq<u8>) -> nat {
    match endian {
        Endian::Little => le_value(bytes),
        Endian::Big => le_value(bytes.reverse()),
    }
}

/// Two's complement of `value` in `width` bytes.
pub open spec fn to_unsigned(value: int, width: nat) -> nat {
    if value >= 0 {
        value as nat
    } else {
        (value + pow256(width)) as nat
    }
}

/// The signed number whose two's complement in `width` bytes is `raw`.
pub open spec fn to_signed(raw: nat, width: nat) -> int {
    if 2 * raw < pow256(width) {
        raw as int
    } else {
        raw - pow256(width)
    }
}

/// Whether `value` fits a signed integer of `width` bytes.
pub open spec fn fits_signed(value: int, width: nat) -> bool {
    -(pow256(width) as int) <= 2 * value < pow256(width)
}

/// The powers of 256 at the widths of the machine integers.
pub proof fn lemma_pow256_widths()
    ensures
        pow256(0) == 1,
        pow256(1) == 0x100,
        pow256(2) == 0x1_0000,
        pow256(4) == 0x1_0000_0000,
        pow256(8) == 0x1_0000_0000_0000_0000,
        pow256(16) == 0x1_0000_0000_0000_0000_0000_0000_0000_0000,
{
    reveal_with_fuel(pow256, 5);
    assert(pow256(4) == 0x1_0000_0000);
    assert(pow256(8) == 0x1_0000_0000 * pow256(4));
    assert(pow256(12) == 0x1_0000_0000 * pow256(8));
    assert(pow256(16) == 0x1_0000_0000 * pow256(12));
}

/// A power of 256 is positive and grows with its exponent.
pub proof fn lemma_pow256_monotonic(a: nat, b: nat)
    requires
        a <= b,
    ensures
        0 < pow256(a) <= pow256(b),
    decreases b,
{
    if b == 0 {
    } else if a == b {
        lemma_pow256_monotonic((a - 1) as nat, (b - 1) as nat);
    } else {
        lemma_pow256_monotonic(a, (b - 1) as nat);
    }
}

/// `le_bytes` yields exactly `width` bytes.
pub proof fn lemma_le_bytes_len(value: nat, width: nat)
    ensures
        le_bytes(value, width).len() == width,
    decreases width,
{
    if width > 0 {
        lemma_le_bytes_len(value / 256, (width - 1) as nat);
    }
}

/// The value of a byte sequence is below 256 to the power of its length.
pub proof fn lemma_le_value_bound(bytes: Seq<u8>)
    ensures
        le_value(bytes) < pow256(bytes.len()),
    decreases bytes.len(),
{
    if bytes.len() > 0 {
        lemma_le_value_bound(bytes.drop_first());
    }
}

/// Reading back the digits of a value that fits gives the value.
pub proof fn lemma_le_value_of_bytes(value: nat, width: nat)
    requires
        value < pow256(width),
    ensures
        le_value(le_bytes(value, width)) == value,
    decreases width,
{
    if width > 0 {
        let rest = le_bytes(value / 256, (width - 1) as nat);
        let all = le_bytes(value, width);
        lemma_le_bytes_len(value / 256, (width - 1) as nat);
        assert(all.drop_first() =~= rest);
        lemma_le_value_of_bytes(value / 256, (width - 1) as nat);
    }
}

/// Writing out the value of a byte sequence gives the sequence back.
pub proof fn lemma_le_bytes_of_value(bytes: Seq<u8>)
    ensures
        le_bytes(le_value(bytes), bytes.len()) == bytes,
    decreases bytes.len(),
{
    if bytes.len() > 0 {
        let rest = bytes.drop_first();
        lemma_le_bytes_of_value(rest);
        let v = le_value(bytes);
        assert(v % 256 == bytes[0] as nat);
        assert(v / 256 == le_value(rest));
        assert(le_bytes(v, bytes.len()) =~= bytes);
    } else {
        assert(le_bytes(le_value(bytes), bytes.len()) =~= bytes);
    }
}

/// Reversing a sequence twice gives it back.
pub proof fn lemma_reverse_twice(bytes: Seq<u8>)
    ensures
        bytes.reverse().reverse() == bytes,
        bytes.reverse().len() == bytes.len(),
{
    assert(bytes.reverse().reverse() =~= bytes);
}

/// One byte stands for itself in either byte order.
pub proof fn lemma_single_byte(endian: Endian, bytes: Seq<u8>)
    requires
        bytes.len() == 1,
    ensures
        wire_value(endian, bytes) == bytes[0],
{
    assert(bytes.reverse() =~= bytes);
    assert(le_value(bytes.drop_first()) == 0);
}

/// Decoding what was encoded, in the same byte order, gives the value back.
pub proof fn lemma_wire_round_trip(endian: Endian, value: nat, width: nat)
    requires
        value < pow256(width),
    ensures
        wire_bytes(endian, value, width).len() == width,
        wire_value(endian, wire_bytes(endian, value, width)) == value,
{
    lemma_le_bytes_len(value, width);
    lemma_le_value_of_bytes(value, width);
    lemma_reverse_twice(le_bytes(value, width));
}

/// Encoding what was decoded, in the same byte order, gives the bytes back.
pub proof fn lemma_wire_bytes_of_value(endian: Endian, bytes: Seq<u8>)
    ensures
        wire_value(endian, bytes) < pow256(bytes.len()),
        wire_bytes(endian, wire_value(endian, bytes), bytes.len()) == bytes,
{
    lemma_reverse_twice(bytes);
    lemma_le_bytes_of_value(bytes);
    lemma_le_bytes_of_value(bytes.reverse());
    lemma_le_value_bound(bytes);
    lemma_le_value_bound(bytes.reverse());
}

/// A value whose two images differ does not survive a change of byte order:
/// decoded under the other order it comes out as another value.
pub proof fn lemma_endian_symmetry(written: Endian, read: Endian, value: nat, width: nat)
    requires
        value < pow256(width),
        wire_bytes(written, value, width) != wire_bytes(read, value, width),
    ensures
        wire_value(read, wire_bytes(written, value, width)) != value,
        wire_value(written, wire_bytes(written, value, width)) == value,
{
    let image = wire_bytes(written, value, width);
    lemma_wire_round_trip(written, value, width);
    lemma_wire_bytes_of_value(read, image);
}

/// Two's complement and its inverse cancel on every value that fits.
pub proof fn lemma_signed_round_trip(value: int, width: nat)
    requires
        width >= 1,
        fits_signed(value, width),
    ensures
        to_unsigned(value, width) < pow256(width),
        to_signed(to_unsigned(value, width), width) == value,
{
}

/// The inverse of two's complement yields a value that fits, and cancels.
pub proof fn lemma_raw_round_trip(raw: nat, width: nat)
    requires
        width >= 1,
        raw < pow256(width),
    ensures
        fits_signed(to_signed(raw, width), width),
        to_unsigned(to_signed(raw, width), width) == raw,
{
}

/// The largest unsigned value of `width` bytes.
pub fn max_unsigned(width: usize) -> (r: u128)
    requires
        width <= 16,
    ensures
        r == pow256(width as nat) - 1,
{
    let mut top: u128 = 0;
    let mut i: usize = 0;
    proof {
        lemma_pow256_widths();
    }
    while i < width
        invariant
            i <= width <= 16,
            top == pow256(i as nat) - 1,
        decreases width - i,
    {
        proof {
            lemma_pow256_monotonic((i + 1) as nat, 16);
            lemma_pow256_widths();
        }
        top = top * 256 + 255;
        i = i + 1;
    }
    top
}

/// The bytes of `bytes` in the opposite order.
fn reversed(bytes: &Vec<u8>) -> (r: Vec<u8>)
    ensures
        r@ == bytes@.reverse(),
{
    let mut out: Vec<u8> = Vec::new();
    let mut i: usize = bytes.len();
    while i > 0
        invariant
            i <= bytes.len(),
            out.len() == bytes.len() - i,
            forall|k: int| 0 <= k < out.len() ==> out[k] == bytes[bytes.len() - 1 - k],
        decreases i,
    {
        i = i - 1;
        out.push(bytes[i]);
    }
    assert(out@ =~= bytes@.reverse());
    out
}

/// Lays out the `width` low-order bytes of `value` in the given byte order.
pub fn encode_unsigned(endian: Endian, value: u128, width: usize) -> (out: Vec<u8>)
    requires
        width <= 16,
    ensures
        out@ == wire_bytes(endian, value as nat, width as nat),
        out.len() == width,
{
    let mut low: Vec<u8> = Vec::new();
    let mut rest: u128 = value;
    let mut i: usize = 0;
    while i < width
        invariant
            i <= width,
            low.len() == i,
            low@ + le_bytes(rest as nat, (width - i) as nat) =~= le_bytes(
                value as nat,
                width as nat,
            ),
        decreases width - i,
    {
        low.push((rest % 256) as u8);
        rest = rest / 256;
        i = i + 1;
    }
    assert(low@ =~= le_bytes(value as nat, width as nat));
    match endian {
        Endian::Little => low,
        Endian::Big => reversed(&low),
    }
}

/// Reads `bytes` as one unsigned number in the given byte order.
pub fn decode_unsigned(endian: Endian, bytes: &[u8]) -> (r: u128)
    requires
        bytes@.len() <= 16,
    ensures
        r == wire_value(endian, bytes@),
        r < pow256(bytes@.len()),
{
    let n: usize = bytes.len();
    let ghost digits: Seq<u8> = match endian {
        Endian::Little => bytes@,
        Endian::Big => bytes@.reverse(),
    };
    let mut acc: u128 = 0;
    let mut i: usize = n;
    while i > 0
        invariant
            i <= n,
            n == bytes@.len(),
            n <= 16,
            digits.len() == n,
            endian == Endian::Little ==> digits == bytes@,
            endian == Endian::Big ==> digits == bytes@.reverse(),
            acc == le_value(digits.subrange(i as int, n as int)),
        decreases i,
    {
        i = i - 1;
        let byte: u8 = match endian {
            Endian::Little => bytes[i],
            Endian::Big => bytes[n - 1 - i],
        };
        proof {
            let tail = digits.subrange(i as int, n as int);
            assert(tail.drop_first() =~= digits.subrange(i + 1, n as int));
            assert(tail[0] == byte);
            lemma_le_value_bound(tail);
            lemma_pow256_monotonic(tail.len(), 16);
            lemma_pow256_widths();
        }
        acc = acc * 256 + byte as u128;
    }
    proof {
        assert(digits.subrange(0, n as int) =~= digits);
        lemma_le_value_bound(digits);
    }
    acc
}

/// Two's complement of `value` in `width` bytes.
pub fn signed_to_raw(value: i128, width: usize) -> (r: u128)
    requires
        1 <= width <= 16,
        fits_signed(value as int, width as nat),
    ensures
        r == to_unsigned(value as int, width as nat),
        r < pow256(width as nat),
{
    proof {
        lemma_pow256_widths();
        lemma_pow256_monotonic(width as nat, 16);
    }
    if value >= 0 {
        value as u128
    } else {
        let top: u128 = max_unsigned(width);
        let below: u128 = (-(value + 1)) as u128;
        top - below
    }
}

/// The signed number whose two's complement in `width` bytes is `raw`.
pub fn raw_to_signed(raw: u128, width: usize) -> (r: i128)
    requires
        1 <= width <= 16,
        raw < pow256(width as nat),
    ensures
        r == to_signed(raw as nat, width as nat),
        fits_signed(r as int, width as nat),
{
    proof {
        lemma_pow256_widths();
        lemma_pow256_monotonic(width as nat, 16);
    }
    let top: u128 = max_unsigned(width);
    if raw <= top / 2 {
        raw as i128
    } else {
        let below: i128 = (top - raw) as i128;
        -below - 1
    }
}

/// The number of bytes in a machine word.
pub open spec fn word_width() -> nat {
    (usize::BITS / 8) as nat
}

/// The number of bytes in a machine word: as many as `usize` has.
pub fn word_bytes() -> (r: usize)
    ensures
        r == word_width(),
        r == 4 || r == 8,
        pow256(r as nat) == usize::MAX + 1,
        pow256(r as nat) == 2 * isize::MAX + 2,
        pow256(r as nat) == -2 * isize::MIN,
{
    proof {
        lemma_pow256_widths();
    }
    let bits: u32 = usize::BITS;
    (bits / 8) as usize
}

} // verus!
