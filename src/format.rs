use vstd::prelude::*;

verus! {

/// Number of key bytes.
pub const KEY_LEN: usize = 16;

/// Number of bytes of the magic header put in front of every obfuscated asset.
pub const MAGIC_LEN: usize = 16;

/// Number of leading plain bytes that are masked with the key.
pub const MASK_LEN: usize = 16;

/// The magic header: `RPGMV`, four zero bytes, a version triple and zero padding.
pub open spec fn magic_header() -> Seq<u8> {
    seq![
        0x52u8, 0x50u8, 0x47u8, 0x4Du8, 0x56u8, 0x00u8, 0x00u8, 0x00u8,
        0x00u8, 0x03u8, 0x01u8, 0x00u8, 0x00u8, 0x00u8, 0x00u8, 0x00u8,
    ]
}

/// The magic header as bytes.
pub fn magic_header_bytes() -> (r: Vec<u8>)
    ensures
        r@ == magic_header(),
{
    let r: Vec<u8> = vec![
        0x52u8, 0x50u8, 0x47u8, 0x4Du8, 0x56u8, 0x00u8, 0x00u8, 0x00u8,
        0x00u8, 0x03u8, 0x01u8, 0x00u8, 0x00u8, 0x00u8, 0x00u8, 0x00u8,
    ];
    assert(r@ =~= magic_header());
    r
}

/// The media kinds an asset can hold.
#[derive(Debug, Clone, Copy, PartialEq, Eq, Structural)]
pub enum FileKind {
    Png,
    Ogg,
    M4a,
}

/// The two engine variants, which differ only in how obfuscated files are named.
#[derive(Debug, Clone, Copy, PartialEq, Eq, Structural)]
pub enum Engine {
    MV,
    MZ,
}

} // verus!
