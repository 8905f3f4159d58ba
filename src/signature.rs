use vstd::prelude::*;

use crate::error::CipherError;
use crate::format::FileKind;

verus! {

/// The bytes that a genuine file of the kind holds at `signature_offset(kind)`:
/// the PNG signature, the Ogg capture pattern `OggS`, or the MP4 box tag `ftypM4A `.
pub open spec fn signature(kind: FileKind) -> Seq<u8> {
    match kind {
        FileKind::Png => seq![0x89u8, 0x50u8, 0x4Eu8, 0x47u8, 0x0Du8, 0x0Au8, 0x1Au8, 0x0Au8],
        FileKind::Ogg => seq![0x4Fu8, 0x67u8, 0x67u8, 0x53u8],
        FileKind::M4a => seq![0x66u8, 0x74u8, 0x79u8, 0x70u8, 0x4Du8, 0x34u8, 0x41u8, 0x20u8],
    }
}

/// Where the signature stands: an M4A file starts with a box size that varies, so its tag
/// comes after four bytes.
pub open spec fn signature_offset(kind: FileKind) -> int {
    match kind {
        FileKind::M4a => 4,
        _ => 0,
    }
}

/// The buffer carries the kind's signature at the kind's offset.
pub open spec fn has_signature(data: Seq<u8>, kind: FileKind) -> bool {
    let off = signature_offset(kind);
    let sig = signature(kind);
    &&& data.len() >= off + sig.len()
    &&& data.subrange(off, off + sig.len()) == sig
}

/// The signature of a kind as bytes.
pub fn signature_bytes(kind: FileKind) -> (r: Vec<u8>)
    ensures
        r@ == signature(kind),
{
    let r: Vec<u8> = match kind {
        FileKind::Png => vec![0x89u8, 0x50u8, 0x4Eu8, 0x47u8, 0x0Du8, 0x0Au8, 0x1Au8, 0x0Au8],
        FileKind::Ogg => vec![0x4Fu8, 0x67u8, 0x67u8, 0x53u8],
        FileKind::M4a => vec![0x66u8, 0x74u8, 0x79u8, 0x70u8, 0x4Du8, 0x34u8, 0x41u8, 0x20u8],
    };
    assert(r@ =~= signature(kind));
    r
}

/// Where the signature of a kind stands.
pub fn signature_offset_of(kind: FileKind) -> (r: usize)
    ensures
        r == signature_offset(kind),
{
    match kind {
        FileKind::M4a => 4,
        _ => 0,
    }
}

/// Checks that decrypted content carries the signature of its declared kind; a mismatch is
/// the sign of a wrong key.
pub fn validate_signature(data: &[u8], kind: FileKind) -> (r: Result<(), CipherError>)
    ensures
        r is Ok <==> has_signature(data@, kind),
        r matches Err(e) ==> e == (CipherError::InvalidSignature { expected: kind }),
{
    let sig = signature_bytes(kind);
    let off = signature_offset_of(kind);
    if data.len() < off + sig.len() {
        return Err(CipherError::InvalidSignature { expected: kind });
    }
    let mut i: usize = 0;
    while i < sig.len()
        invariant
            sig@ == signature(kind),
            off == signature_offset(kind),
            data@.len() >= off + sig@.len(),
            0 <= i <= sig@.len(),
            forall|j: int| 0 <= j < i ==> data@[off + j] == sig@[j],
        decreases sig@.len() - i,
    {
        if data[off + i] != sig[i] {
            assert(data@.subrange(off as int, off + sig@.len())[i as int] != sig@[i as int]);
            return Err(CipherError::InvalidSignature { expected: kind });
        }
        i += 1;
    }
    assert(data@.subrange(off as int, off + sig@.len()) =~= sig@);
    Ok(())
}

} // verus!
