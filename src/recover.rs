use vstd::prelude::*;

use crate::codec::{body, decrypted, encrypted, has_magic, lemma_encrypted_has_magic, mask, starts_with_magic};
use crate::error::CipherError;
use crate::format::{FileKind, KEY_LEN, MAGIC_LEN, MASK_LEN};
use crate::key::{decode_hex, is_key_text, Key};
use crate::signature::{has_signature, signature, signature_bytes, signature_offset, signature_offset_of};

verus! {

/// The plain byte that a genuine file of the kind is taken to hold at position `i`: its
/// signature repeated cyclically, with one copy at the signature's offset.
pub open spec fn known_plain_byte(kind: FileKind, i: int) -> u8 {
    let sig = signature(kind);
    sig[(i + sig.len() - signature_offset(kind)) % (sig.len() as int)]
}

/// How many key bytes an obfuscated sample determines.
pub open spec fn recovered_len(data: Seq<u8>) -> int {
    let n = body(data).len() as int;
    if n < MASK_LEN as int { n } else { MASK_LEN as int }
}

/// The key recovered from an obfuscated sample of the kind: each masked byte XORed with the
/// known plain byte at its position; key bytes past what the sample covers stay zero.
pub open spec fn recovered_key(data: Seq<u8>, kind: FileKind) -> Seq<u8> {
    Seq::new(
        KEY_LEN as nat,
        |i: int|
            if i < recovered_len(data) {
                body(data)[i] ^ known_plain_byte(kind, i)
            } else {
                0u8
            },
    )
}

/// Derives a key from an obfuscated sample, taking its plain prefix to be the kind's signature.
/// Fails with `MalformedHeader` exactly when the sample does not start with the magic header.
pub fn derive_from_obfuscated(obfuscated: &[u8], kind: FileKind) -> (r: Result<Key, CipherError>)
    ensures
        match r {
            Ok(k) => has_magic(obfuscated@) && k@ == recovered_key(obfuscated@, kind),
            Err(e) => !has_magic(obfuscated@) && e == CipherError::MalformedHeader,
        },
{
    if !starts_with_magic(obfuscated) {
        return Err(CipherError::MalformedHeader);
    }
    let sig = signature_bytes(kind);
    let off = signature_offset_of(kind);
    let rest = obfuscated.len() - MAGIC_LEN;
    let n = if rest < MASK_LEN { rest } else { MASK_LEN };
    let mut bytes = [0u8; KEY_LEN];
    let mut i: usize = 0;
    while i < n
        invariant
            sig@ == signature(kind),
            off == signature_offset(kind),
            n == recovered_len(obfuscated@),
            n <= KEY_LEN,
            obfuscated@.len() == MAGIC_LEN + rest,
            n <= rest,
            0 <= i <= n,
            forall|j: int| 0 <= j < i ==> bytes@[j] == recovered_key(obfuscated@, kind)[j],
            forall|j: int| i <= j < KEY_LEN ==> bytes@[j] == 0u8,
        decreases n - i,
    {
        let p = sig[(i + sig.len() - off) % sig.len()];
        bytes[i] = obfuscated[MAGIC_LEN + i] ^ p;
        i += 1;
    }
    let k = Key::new(bytes);
    assert(k@ =~= recovered_key(obfuscated@, kind));
    Ok(k)
}

proof fn lemma_xor_cancel(p: u8, k: u8)
    ensures
        (p ^ k) ^ p == k,
{
    assert((p ^ k) ^ p == k) by (bit_vector);
}

proof fn lemma_xor_same_iff(p: u8, a: u8, b: u8)
    ensures
        ((p ^ a) ^ b == p) <==> a == b,
{
    assert(((p ^ a) ^ b == p) <==> a == b) by (bit_vector);
}

proof fn lemma_signature_fits(kind: FileKind)
    ensures
        0 <= signature_offset(kind),
        signature_offset(kind) + signature(kind).len() <= MASK_LEN,
        signature(kind).len() > 0,
{
}

proof fn lemma_known_byte_in_signature(kind: FileKind, i: int)
    requires
        signature_offset(kind) <= i < signature_offset(kind) + signature(kind).len(),
    ensures
        known_plain_byte(kind, i) == signature(kind)[i - signature_offset(kind)],
{
    let m = signature(kind).len() as int;
    let x = i - signature_offset(kind);
    assert((x + m) % m == x) by (nonlinear_arith)
        requires
            0 <= x < m,
    ;
}

/// For a sample that obfuscates a genuine file of the kind, the recovered key agrees with the
/// real key at every position that the kind's signature covers.
pub proof fn lemma_recovery_correct(plain: Seq<u8>, key: Key, kind: FileKind)
    requires
        has_signature(plain, kind),
    ensures
        forall|i: int|
            signature_offset(kind) <= i < signature_offset(kind) + signature(kind).len()
                ==> #[trigger] recovered_key(encrypted(plain, key@), kind)[i] == key@[i],
{
    lemma_encrypted_has_magic(plain, key@);
    lemma_signature_fits(kind);
    let e = encrypted(plain, key@);
    let off = signature_offset(kind);
    let sig = signature(kind);
    assert forall|i: int| off <= i < off + sig.len() implies #[trigger] recovered_key(e, kind)[i]
        == key@[i] by {
        assert(plain.subrange(off, off + sig.len())[i - off] == sig[i - off]);
        lemma_known_byte_in_signature(kind, i);
        assert(i % (KEY_LEN as int) == i);
        lemma_xor_cancel(plain[i], key@[i]);
    }
}

/// Decrypting a genuine file of the kind with another key than the one it was obfuscated with
/// keeps its signature exactly when the two keys agree on every position the signature covers;
/// otherwise the signature check reports the wrong key.
pub proof fn lemma_wrong_key_detected(plain: Seq<u8>, k1: Key, k2: Key, kind: FileKind)
    requires
        has_signature(plain, kind),
    ensures
        has_signature(decrypted(encrypted(plain, k1@), k2@), kind) <==> (forall|i: int|
            signature_offset(kind) <= i < signature_offset(kind) + signature(kind).len()
                ==> #[trigger] k1@[i] == k2@[i]),
{
    lemma_encrypted_has_magic(plain, k1@);
    lemma_signature_fits(kind);
    let off = signature_offset(kind);
    let sig = signature(kind);
    let d = decrypted(encrypted(plain, k1@), k2@);
    assert(d == mask(mask(plain, k1@), k2@));
    assert forall|i: int| off <= i < off + sig.len() implies (d[i] == sig[i - off] <==> k1@[i]
        == k2@[i]) by {
        assert(plain.subrange(off, off + sig.len())[i - off] == sig[i - off]);
        assert(i % (KEY_LEN as int) == i);
        lemma_xor_same_iff(plain[i], k1@[i], k2@[i]);
    }
    if forall|i: int| off <= i < off + sig.len() ==> #[trigger] k1@[i] == k2@[i] {
        assert(d.subrange(off, off + sig.len()) =~= sig);
    } else {
        let i = choose|i: int| off <= i < off + sig.len() && !(#[trigger] k1@[i] == k2@[i]);
        assert(d.subrange(off, off + sig.len())[i - off] != sig[i - off]);
    }
}

} // verus!
