use vstd::prelude::*;

use crate::error::CipherError;
use crate::format::{magic_header, magic_header_bytes, KEY_LEN, MAGIC_LEN, MASK_LEN};
use crate::key::Key;

verus! {

/// `data` with each of its first `MASK_LEN` bytes XORed with the key, used as a cyclic pad;
/// the bytes after that are kept.
pub open spec fn mask(data: Seq<u8>, key: Seq<u8>) -> Seq<u8> {
    Seq::new(
        data.len(),
        |i: int|
            if i < MASK_LEN {
                data[i] ^ key[i % (KEY_LEN as int)]
            } else {
                data[i]
            },
    )
}

/// The obfuscated form of a plain asset: the magic header, then the masked bytes.
pub open spec fn encrypted(plain: Seq<u8>, key: Seq<u8>) -> Seq<u8> {
    magic_header() + mask(plain, key)
}

/// The buffer is at least as long as the magic header and starts with it.
pub open spec fn has_magic(data: Seq<u8>) -> bool {
    data.len() >= MAGIC_LEN && data.subrange(0, MAGIC_LEN as int) == magic_header()
}

/// The bytes after the magic header.
pub open spec fn body(data: Seq<u8>) -> Seq<u8> {
    data.subrange(MAGIC_LEN as int, data.len() as int)
}

/// The plain form of a buffer that starts with the magic header.
pub open spec fn decrypted(data: Seq<u8>, key: Seq<u8>) -> Seq<u8> {
    mask(body(data), key)
}

/// Masks `src[from..]` with the key and appends it to `out`.
fn append_masked(out: &mut Vec<u8>, src: &[u8], from: usize, key: &Key)
    requires
        from <= src@.len(),
    ensures
        final(out)@ == old(out)@ + mask(src@.subrange(from as int, src@.len() as int), key@),
{
    let ghost start = old(out)@;
    let ghost part = src@.subrange(from as int, src@.len() as int);
    let mut i: usize = from;
    while i < src.len()
        invariant
            from <= i <= src@.len(),
            part == src@.subrange(from as int, src@.len() as int),
            out@ =~= start + mask(part, key@).subrange(0, i - from),
        decreases src@.len() - i,
    {
        let j = i - from;
        let b = if j < MASK_LEN {
            src[i] ^ key.bytes[j % KEY_LEN]
        } else {
            src[i]
        };
        out.push(b);
        i += 1;
    }
    assert(mask(part, key@).subrange(0, part.len() as int) =~= mask(part, key@));
}

/// Obfuscates a plain asset: the magic header, then the plain bytes with their prefix masked.
pub fn encrypt(plain: &[u8], key: &Key) -> (r: Vec<u8>)
    ensures
        r@ == encrypted(plain@, key@),
        r@.len() == MAGIC_LEN + plain@.len(),
{
    let mut out = magic_header_bytes();
    append_masked(&mut out, plain, 0, key);
    assert(plain@.subrange(0, plain@.len() as int) =~= plain@);
    out
}

/// Restores a plain asset from its obfuscated form.
/// Fails with `MalformedHeader` exactly when the buffer does not start with the magic header.
pub fn decrypt(obfuscated: &[u8], key: &Key) -> (r: Result<Vec<u8>, CipherError>)
    ensures
        match r {
            Ok(p) => has_magic(obfuscated@) && p@ == decrypted(obfuscated@, key@),
            Err(e) => !has_magic(obfuscated@) && e == CipherError::MalformedHeader,
        },
        r is Ok ==> r->Ok_0@.len() == obfuscated@.len() - MAGIC_LEN,
{
    if !starts_with_magic(obfuscated) {
        return Err(CipherError::MalformedHeader);
    }
    let mut out: Vec<u8> = Vec::new();
    append_masked(&mut out, obfuscated, MAGIC_LEN, key);
    assert(out@ =~= decrypted(obfuscated@, key@));
    Ok(out)
}

/// Whether the buffer starts with the magic header.
pub fn starts_with_magic(data: &[u8]) -> (r: bool)
    ensures
        r == has_magic(data@),
{
    if data.len() < MAGIC_LEN {
        return false;
    }
    let magic = magic_header_bytes();
    let mut i: usize = 0;
    while i < MAGIC_LEN
        invariant
            data@.len() >= MAGIC_LEN,
            magic@ == magic_header(),
            0 <= i <= MAGIC_LEN,
            forall|j: int| 0 <= j < i ==> data@[j] == magic_header()[j],
        decreases MAGIC_LEN - i,
    {
        if data[i] != magic[i] {
            assert(data@.subrange(0, MAGIC_LEN as int)[i as int] != magic_header()[i as int]);
            return false;
        }
        i += 1;
    }
    assert(data@.subrange(0, MAGIC_LEN as int) =~= magic_header());
    true
}

proof fn lemma_xor_twice(a: u8, k: u8)
    ensures
        (a ^ k) ^ k == a,
{
    assert((a ^ k) ^ k == a) by (bit_vector);
}

/// Masking twice with the same key gives back the original bytes.
pub proof fn lemma_mask_involutive(data: Seq<u8>, key: Seq<u8>)
    requires
        key.len() == KEY_LEN,
    ensures
        mask(mask(data, key), key) == data,
{
    assert forall|i: int| 0 <= i < data.len() implies mask(mask(data, key), key)[i] == data[i] by {
        if i < MASK_LEN {
            lemma_xor_twice(data[i], key[i % (KEY_LEN as int)]);
        }
    }
    assert(mask(mask(data, key), key) =~= data);
}

/// Every obfuscated asset starts with the magic header and is that much longer than its plain form.
pub proof fn lemma_encrypted_has_magic(plain: Seq<u8>, key: Seq<u8>)
    ensures
        has_magic(encrypted(plain, key)),
        encrypted(plain, key).len() == MAGIC_LEN + plain.len(),
        body(encrypted(plain, key)) == mask(plain, key),
{
    let e = encrypted(plain, key);
    assert(e.subrange(0, MAGIC_LEN as int) =~= magic_header());
    assert(body(e) =~= mask(plain, key));
}

/// Decrypting what `encrypt` produced, with the same key, succeeds and gives back the plain bytes.
pub proof fn lemma_round_trip(plain: Seq<u8>, key: Key)
    ensures
        has_magic(encrypted(plain, key@)),
        decrypted(encrypted(plain, key@), key@) == plain,
{
    lemma_encrypted_has_magic(plain, key@);
    lemma_mask_involutive(plain, key@);
}

/// A buffer whose leading bytes differ from the magic header is refused.
pub proof fn lemma_foreign_header_refused(data: Seq<u8>, i: int)
    requires
        0 <= i < MAGIC_LEN,
        i < data.len(),
        data[i] != magic_header()[i],
    ensures
        !has_magic(data),
{
    if data.len() >= MAGIC_LEN {
        assert(data.subrange(0, MAGIC_LEN as int)[i] != magic_header()[i]);
    }
}

} // verus!
