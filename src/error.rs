use vstd::prelude::*;

use crate::format::FileKind;

verus! {

/// Why a cipher operation refused its input.
#[derive(Debug, Clone, Copy, PartialEq, Eq, Structural)]
pub enum CipherError {
    /// Key text or key bytes of the wrong length or encoding.
    InvalidKeyFormat,
    /// A buffer shorter than the magic header, or one that does not start with it.
    MalformedHeader,
    /// Decrypted content that does not carry the signature of its declared kind.
    InvalidSignature { expected: FileKind },
    /// A configuration text without a usable key field.
    KeyFieldNotFound,
}

} // verus!
