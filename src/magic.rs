use vstd::prelude::*;

verus! {

/// One-byte values that tend to sit on boundaries.
pub const MAGIC_8: [u8; 9] = [0x80, 0xff, 0x00, 0x01, 0x10, 0x20, 0x40, 0x64, 0x7f];

/// Two-byte boundary values.
pub const MAGIC_16: [u16; 10] = [0x8000, 0xff7f, 0x0080, 0x00ff, 0x0100, 0x0200, 0x03e8, 0x0400, 0x1000, 0x7fff];

/// Four-byte boundary values.
pub const MAGIC_32: [u32; 8] = [
    0x8000_0000,
    0xfa00_00fa,
    0xffff_7fff,
    0x0000_8000,
    0x0000_ffff,
    0x0001_0000,
    0x05ff_ff05,
    0x7fff_ffff,
];

/// Eight-byte boundary values.
pub const MAGIC_64: [u64; 6] = [
    0x8000_0000_0000_0000,
    0xffff_ffff_ffff_ffff,
    0x0000_0000_0000_0000,
    0x0000_0000_0000_0001,
    0x0000_0001_0000_0000,
    0x7fff_ffff_ffff_ffff,
];

} // verus!
