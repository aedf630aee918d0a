use vstd::prelude::*;

verus! {

/// Why decoding a model stream failed. No partial model is ever returned.
#[derive(Clone, Copy, Debug, PartialEq, Eq, Structural)]
pub enum FormatError {
    /// The stream ended before the model was complete.
    UnexpectedEof,
    /// The stored tree depth cannot be used as a table size.
    DepthOverflow,
    /// The model holds no tree at all.
    NoTrees,
    /// The stream carries an unsupported version marker.
    BadVersion,
}

/// Little-endian 32-bit unsigned value at `pos`.
pub open spec fn sp_le_u32(b: Seq<u8>, pos: int) -> int {
    b[pos] as int + b[pos + 1] as int * 0x100 + b[pos + 2] as int * 0x1_0000 + b[pos + 3] as int
        * 0x100_0000
}

/// Big-endian 32-bit unsigned value at `pos`.
pub open spec fn sp_be_u32(b: Seq<u8>, pos: int) -> int {
    b[pos + 3] as int + b[pos + 2] as int * 0x100 + b[pos + 1] as int * 0x1_0000 + b[pos] as int
        * 0x100_0000
}

/// Signed reading of a 32-bit value (two's complement).
pub open spec fn sp_signed_32(v: int) -> int {
    if v < 0x8000_0000 {
        v
    } else {
        v - 0x1_0000_0000
    }
}

/// Little-endian 32-bit signed value at `pos`.
pub open spec fn sp_le_i32(b: Seq<u8>, pos: int) -> int {
    sp_signed_32(sp_le_u32(b, pos))
}

/// Big-endian 16-bit unsigned value at `pos`.
pub open spec fn sp_be_u16(b: Seq<u8>, pos: int) -> int {
    b[pos + 1] as int + b[pos] as int * 0x100
}

/// Big-endian 16-bit signed value at `pos` (two's complement).
pub open spec fn sp_be_i16(b: Seq<u8>, pos: int) -> int {
    if sp_be_u16(b, pos) < 0x8000 {
        sp_be_u16(b, pos)
    } else {
        sp_be_u16(b, pos) - 0x1_0000
    }
}

/// Reads a little-endian 32-bit unsigned value.
pub fn read_u32_le(data: &[u8], pos: usize) -> (r: u32)
    requires
        pos + 4 <= data@.len(),
    ensures
        r as int == sp_le_u32(data@, pos as int),
{
    let n: usize = data.len();
    (data[pos] as u32) + (data[pos + 1] as u32) * 0x100 + (data[pos + 2] as u32) * 0x1_0000 + (
    data[pos + 3] as u32) * 0x100_0000
}

/// Reads a little-endian 32-bit signed value.
pub fn read_i32_le(data: &[u8], pos: usize) -> (r: i32)
    requires
        pos + 4 <= data@.len(),
    ensures
        r as int == sp_le_i32(data@, pos as int),
{
    let u = read_u32_le(data, pos);
    let r = u as i32;
    proof {
        assert(r as int == if u < 0x8000_0000 {
            u as int
        } else {
            u as int - 0x1_0000_0000
        }) by (bit_vector)
            requires
                r == u as i32,
        ;
    }
    r
}

/// Reads a big-endian 32-bit unsigned value.
pub fn read_u32_be(data: &[u8], pos: usize) -> (r: u32)
    requires
        pos + 4 <= data@.len(),
    ensures
        r as int == sp_be_u32(data@, pos as int),
{
    let n: usize = data.len();
    (data[pos + 3] as u32) + (data[pos + 2] as u32) * 0x100 + (data[pos + 1] as u32) * 0x1_0000 + (
    data[pos] as u32) * 0x100_0000
}

/// Reads a big-endian 16-bit signed value.
pub fn read_i16_be(data: &[u8], pos: usize) -> (r: i16)
    requires
        pos + 2 <= data@.len(),
    ensures
        r as int == sp_be_i16(data@, pos as int),
{
    let n: usize = data.len();
    let u: u16 = (data[pos + 1] as u16) + (data[pos] as u16) * 0x100;
    let r = u as i16;
    proof {
        assert(r as int == if u < 0x8000 {
            u as int
        } else {
            u as int - 0x1_0000
        }) by (bit_vector)
            requires
                r == u as i16,
        ;
    }
    r
}

} // verus!
